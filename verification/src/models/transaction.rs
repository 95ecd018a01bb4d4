use vstd::prelude::*;
use vstd::string::StringExecFns;
use crate::text::{amount_text, format_amount};

verus! {

/// A transaction as it is stored. The amount is in millionths of a currency unit.
#[derive(Debug, Clone)]
pub struct Transaction {
    pub id: i64,
    pub account_id: i64,
    pub category_id: i64,
    pub date: String,  // ISO 8601 format
    pub amount: i64,
    pub description: String,
    pub merchant: Option<String>,
    pub hash: String,
    pub created_at: String,
}

#[derive(Debug, Clone)]
pub struct NewTransaction {
    pub account_id: i64,
    pub category_id: i64,
    pub date: String,
    pub amount: i64,
    pub description: String,
    pub merchant: Option<String>,
    pub hash: String,
}

/// The SHA-256 digest of a text's bytes, in lower-case hexadecimal digits.
pub uninterp spec fn sha256_hex(text: Seq<char>) -> Seq<char>;

/// Computes the digest with the sha2 crate: `Sha256::new`, `Digest::update` with the text,
/// `Digest::finalize`, and the bytes written with `{:x}`. Believed without proof: the result
/// is a function of the text alone.
#[verifier::external_body]
fn digest_hex(text: &str) -> (hex: String)
    ensures
        hex@ == sha256_hex(text@),
{
    let mut hasher = <sha2::Sha256 as sha2::Digest>::new();
    sha2::Digest::update(&mut hasher, text);
    format!("{:x}", sha2::Digest::finalize(hasher))
}

/// The hash by which a transaction is known again: the digest of its date, its amount
/// written in currency units, and its description, one after the other.
pub open spec fn transaction_hash(date: Seq<char>, amount: int, description: Seq<char>) -> Seq<char> {
    sha256_hex(date + amount_text(amount) + description)
}

impl NewTransaction {
    /// The hash by which a transaction is known again.
    pub fn calculate_hash(date: &str, amount: i64, description: &str) -> (hash: String)
        ensures
            hash@ == transaction_hash(date@, amount as int, description@),
    {
        let mut text = date.to_owned();
        text.append(format_amount(amount as i128).as_str());
        text.append(description);
        digest_hex(text.as_str())
    }
}

} // verus!
