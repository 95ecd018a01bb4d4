use vstd::prelude::*;

verus! {

#[derive(Debug, Clone, Copy, PartialEq, Eq, Structural)]
pub enum CategoryType {
    Predefined,
    Custom,
}

impl CategoryType {
    /// The name under which the type is stored.
    pub open spec fn text(self) -> Seq<char> {
        match self {
            CategoryType::Predefined => "predefined"@,
            CategoryType::Custom => "custom"@,
        }
    }

    /// The name under which the type is stored.
    pub fn name(&self) -> (name: String)
        ensures
            name@ == self.text(),
    {
        match self {
            CategoryType::Predefined => "predefined".to_owned(),
            CategoryType::Custom => "custom".to_owned(),
        }
    }
}

#[derive(Debug, Clone, Copy, PartialEq, Eq, Structural)]
pub enum CategoryFilter {
    Predefined,
    Custom,
}

#[derive(Debug, Clone)]
pub struct Category {
    pub id: i64,
    pub name: String,
    pub category_type: String,
    pub parent_id: Option<i64>,
    pub icon: Option<String>,
    pub created_at: String,
}

#[derive(Debug, Clone)]
pub struct NewCategory {
    pub name: String,
    pub icon: Option<String>,
}

#[derive(Debug, Clone)]
pub struct UpdateCategory {
    pub id: i64,
    pub name: Option<String>,
    pub icon: Option<String>,
}

#[derive(Debug, Clone)]
pub struct DeleteCategoryResponse {
    pub success: bool,
    pub deleted_category_id: i64,
    pub reassigned_transactions_count: i64,
}

} // verus!
