use vstd::prelude::*;
use crate::calendar::{date_text, iso_string_of_day, parse_day, parsed_day};
use crate::services::amount_parser::{amount_micros, parse_amount};
use crate::text::{join, join3, texts, trimmed, trimmed_text};

verus! {

/// Which columns of a file hold what.
#[derive(Debug, Clone)]
pub struct ColumnMapping {
    pub date: String,
    pub amount: String,
    pub description: String,
    pub merchant: Option<String>,
}

/// A transaction read from a file. The amount is in millionths of a currency unit.
#[derive(Debug, Clone)]
pub struct ParsedTransaction {
    pub date: String,
    pub amount: i64,
    pub description: String,
    pub merchant: Option<String>,
}

#[derive(Debug)]
pub enum CsvError {
    IoError(String),
    ParseError(String),
    MissingColumn(String),
}

/// A transaction read from a file, as contracts speak of it.
pub struct ParsedModel {
    pub date: Seq<char>,
    pub amount: int,
    pub description: Seq<char>,
    pub merchant: Option<Seq<char>>,
}

/// An error, as contracts speak of it.
pub enum CsvErrorModel {
    IoError(Seq<char>),
    ParseError(Seq<char>),
    MissingColumn(Seq<char>),
}

impl View for ParsedTransaction {
    type V = ParsedModel;

    open spec fn view(&self) -> ParsedModel {
        ParsedModel {
            date: self.date@,
            amount: self.amount as int,
            description: self.description@,
            merchant: match self.merchant {
                Some(m) => Some(m@),
                None => None,
            },
        }
    }
}

impl View for CsvError {
    type V = CsvErrorModel;

    open spec fn view(&self) -> CsvErrorModel {
        match self {
            CsvError::IoError(e) => CsvErrorModel::IoError(e@),
            CsvError::ParseError(e) => CsvErrorModel::ParseError(e@),
            CsvError::MissingColumn(c) => CsvErrorModel::MissingColumn(c@),
        }
    }
}

impl CsvError {
    /// What the error says.
    pub open spec fn text(self) -> Seq<char> {
        match self {
            CsvError::IoError(e) => "IO Error: "@ + e@,
            CsvError::ParseError(e) => "Parse Error: "@ + e@,
            CsvError::MissingColumn(column) => "Missing column: "@ + column@,
        }
    }

    /// The text of the error.
    pub fn message(&self) -> (message: String)
        ensures
            message@ == self.text(),
    {
        match self {
            CsvError::IoError(e) => join("IO Error: ", e.as_str()),
            CsvError::ParseError(e) => join("Parse Error: ", e.as_str()),
            CsvError::MissingColumn(column) => join("Missing column: ", column.as_str()),
        }
    }
}

// ----- what the reader of the file gives -----

/// The fields of the first row of a file, or what the reader has to say against it.
pub uninterp spec fn csv_header_row(content: Seq<char>) -> Result<Seq<Seq<char>>, Seq<char>>;

/// The rows of a file after the first, each with its fields or with what the reader has to
/// say against it.
pub uninterp spec fn csv_record_rows(content: Seq<char>) -> Seq<Result<Seq<Seq<char>>, Seq<char>>>;

/// A row as contracts speak of it.
pub open spec fn row_model(row: Result<Vec<String>, String>) -> Result<Seq<Seq<char>>, Seq<char>> {
    match row {
        Ok(fields) => Ok(texts(fields@)),
        Err(e) => Err(e@),
    }
}

/// Reads the first row of the file with the csv crate: `ReaderBuilder::has_headers(true)`,
/// `from_reader` on the bytes of the content, `Reader::headers`; an error is given by its
/// text. Believed without proof: the result is a function of the content alone.
#[verifier::external_body]
fn read_headers(content: &str) -> (headers: Result<Vec<String>, String>)
    ensures
        row_model(headers) == csv_header_row(content@),
{
    let mut reader = csv::ReaderBuilder::new().has_headers(true).from_reader(content.as_bytes());
    match reader.headers() {
        Ok(headers) => Ok(headers.iter().map(|h| h.to_string()).collect()),
        Err(e) => Err(e.to_string()),
    }
}

/// Reads the rows after the first with the csv crate: `ReaderBuilder::has_headers(true)`,
/// `from_reader` on the bytes of the content, `Reader::records`; an error is given by its
/// text. Believed without proof: the result is a function of the content alone.
#[verifier::external_body]
fn read_records(content: &str) -> (rows: Vec<Result<Vec<String>, String>>)
    ensures
        rows@.map_values(|row: Result<Vec<String>, String>| row_model(row)) == csv_record_rows(content@),
{
    let mut reader = csv::ReaderBuilder::new().has_headers(true).from_reader(content.as_bytes());
    reader.records().map(
        |row| match row {
            Ok(record) => Ok(record.iter().map(|field| field.to_string()).collect()),
            Err(e) => Err(e.to_string()),
        },
    ).collect()
}

// ----- dates -----

/// The number of forms in which a date is looked for.
pub const DATE_FORMS: usize = 8;

/// The forms in which a date is looked for, in the order in which they are tried.
pub open spec fn date_form(i: int) -> Seq<char> {
    if i == 0 {
        "%Y-%m-%d"@  // 2025-06-15
    } else if i == 1 {
        "%m/%d/%Y"@  // 06/15/2025
    } else if i == 2 {
        "%m/%d/%y"@  // 06/15/25
    } else if i == 3 {
        "%Y/%m/%d"@  // 2025/06/15
    } else if i == 4 {
        "%d/%m/%Y"@  // 15/06/2025
    } else if i == 5 {
        "%d-%m-%Y"@  // 15-06-2025
    } else if i == 6 {
        "%b %d, %Y"@  // Jun 15, 2025
    } else {
        "%B %d, %Y"@  // June 15, 2025
    }
}

fn date_form_of(i: usize) -> (form: &'static str)
    requires
        i < DATE_FORMS,
    ensures
        form@ == date_form(i as int),
{
    if i == 0 {
        "%Y-%m-%d"
    } else if i == 1 {
        "%m/%d/%Y"
    } else if i == 2 {
        "%m/%d/%y"
    } else if i == 3 {
        "%Y/%m/%d"
    } else if i == 4 {
        "%d/%m/%Y"
    } else if i == 5 {
        "%d-%m-%Y"
    } else if i == 6 {
        "%b %d, %Y"
    } else {
        "%B %d, %Y"
    }
}

/// The day that a text names in the first form, from the `from`th on, in which it names one.
pub open spec fn first_parsed_day(text: Seq<char>, from: int) -> Option<int>
    decreases DATE_FORMS - from,
{
    if from >= DATE_FORMS {
        None
    } else if parsed_day(text, date_form(from)) is Ok {
        Some(parsed_day(text, date_form(from))->Ok_0)
    } else {
        first_parsed_day(text, from + 1)
    }
}

/// The date that a text names, in the form year-month-day: the text is trimmed and read in
/// the first form in which it names a day.
pub open spec fn normalized_date(text: Seq<char>) -> Option<Seq<char>> {
    match first_parsed_day(trimmed_text(text), 0) {
        Some(day) => date_text(day, "%Y-%m-%d"@),
        None => None,
    }
}

/// What is said of a date that cannot be read.
pub open spec fn unreadable_date(text: Seq<char>) -> Seq<char> {
    "Unable to parse date: "@ + text + ". Supported formats: YYYY-MM-DD, MM/DD/YYYY, etc."@
}

// ----- columns and rows -----

/// The last column with the name given, if there is one.
pub open spec fn column_of(headers: Seq<Seq<char>>, name: Seq<char>) -> Option<int>
    decreases headers.len(),
{
    if headers.len() == 0 {
        None
    } else if headers.last() == name {
        Some(headers.len() - 1)
    } else {
        column_of(headers.drop_last(), name)
    }
}

/// Where the columns of a mapping are found in a file.
pub struct Columns {
    pub date: usize,
    pub amount: usize,
    pub description: usize,
    pub merchant: Option<usize>,
}

/// The first column of the mapping that the file lacks, the date being looked for first,
/// then the amount, then the description.
pub open spec fn missing_column(headers: Seq<Seq<char>>, mapping: ColumnMapping) -> Option<Seq<char>> {
    if column_of(headers, mapping.date@) is None {
        Some(mapping.date@)
    } else if column_of(headers, mapping.amount@) is None {
        Some(mapping.amount@)
    } else if column_of(headers, mapping.description@) is None {
        Some(mapping.description@)
    } else {
        None
    }
}

/// The column of the merchant: none if the mapping names none, or the file has none of
/// that name.
pub open spec fn merchant_column(headers: Seq<Seq<char>>, mapping: ColumnMapping) -> Option<int> {
    match mapping.merchant {
        Some(name) => column_of(headers, name@),
        None => None,
    }
}

/// The transaction that a row holds, or what is wrong with the row.
pub open spec fn parsed_row(fields: Seq<Seq<char>>, headers: Seq<Seq<char>>, mapping: ColumnMapping) -> Result<
    ParsedModel,
    CsvErrorModel,
> {
    let date_at = column_of(headers, mapping.date@)->0;
    let amount_at = column_of(headers, mapping.amount@)->0;
    let description_at = column_of(headers, mapping.description@)->0;
    if date_at >= fields.len() {
        Err(CsvErrorModel::ParseError("Missing date value"@))
    } else if normalized_date(fields[date_at]) is None {
        Err(CsvErrorModel::ParseError(unreadable_date(fields[date_at])))
    } else if amount_at >= fields.len() {
        Err(CsvErrorModel::ParseError("Missing amount value"@))
    } else if amount_micros(vstd::utf8::encode_utf8(fields[amount_at])) is None {
        Err(CsvErrorModel::ParseError("Invalid amount: "@ + fields[amount_at]))
    } else if description_at >= fields.len() {
        Err(CsvErrorModel::ParseError("Missing description value"@))
    } else {
        Ok(
            ParsedModel {
                date: normalized_date(fields[date_at])->0,
                amount: amount_micros(vstd::utf8::encode_utf8(fields[amount_at]))->0,
                description: fields[description_at],
                merchant: match merchant_column(headers, mapping) {
                    Some(at) => if at < fields.len() {
                        Some(fields[at])
                    } else {
                        None
                    },
                    None => None,
                },
            },
        )
    }
}

/// The transactions that the rows hold, or what is wrong with the first row with which
/// something is wrong.
pub open spec fn parsed_rows(
    rows: Seq<Result<Seq<Seq<char>>, Seq<char>>>,
    headers: Seq<Seq<char>>,
    mapping: ColumnMapping,
) -> Result<Seq<ParsedModel>, CsvErrorModel>
    decreases rows.len(),
{
    if rows.len() == 0 {
        Ok(Seq::empty())
    } else {
        match parsed_rows(rows.drop_last(), headers, mapping) {
            Err(e) => Err(e),
            Ok(before) => match rows.last() {
                Err(e) => Err(CsvErrorModel::ParseError(e)),
                Ok(fields) => match parsed_row(fields, headers, mapping) {
                    Err(e) => Err(e),
                    Ok(transaction) => Ok(before.push(transaction)),
                },
            },
        }
    }
}

/// What reading a file with a mapping gives.
pub open spec fn parsed_file(content: Seq<char>, mapping: ColumnMapping) -> Result<Seq<ParsedModel>, CsvErrorModel> {
    match csv_header_row(content) {
        Err(e) => Err(CsvErrorModel::ParseError(e)),
        Ok(headers) => match missing_column(headers, mapping) {
            Some(name) => Err(CsvErrorModel::MissingColumn(name)),
            None => parsed_rows(csv_record_rows(content), headers, mapping),
        },
    }
}

pub open spec fn parsed_models(transactions: Seq<ParsedTransaction>) -> Seq<ParsedModel> {
    transactions.map_values(|t: ParsedTransaction| t@)
}

/// Finds the last column with the name given.
fn find_column(headers: &Vec<String>, name: &String) -> (at: Option<usize>)
    ensures
        match at {
            Some(i) => column_of(texts(headers@), name@) == Some(i as int) && i < headers.len(),
            None => column_of(texts(headers@), name@) is None,
        },
{
    let mut found: Option<usize> = None;
    let mut i: usize = 0;
    proof {
        assert(texts(headers@).take(0) =~= Seq::<Seq<char>>::empty());
    }
    while i < headers.len()
        invariant
            i <= headers.len(),
            match found {
                Some(k) => column_of(texts(headers@).take(i as int), name@) == Some(k as int) && k < i,
                None => column_of(texts(headers@).take(i as int), name@) is None,
            },
        decreases headers.len() - i,
    {
        proof {
            assert(texts(headers@).take(i as int + 1).drop_last() =~= texts(headers@).take(i as int));
            assert(texts(headers@).take(i as int + 1).last() == headers@[i as int]@);
        }
        if headers[i] == *name {
            found = Some(i);
        }
        i += 1;
    }
    proof {
        assert(texts(headers@).take(headers.len() as int) =~= texts(headers@));
    }
    found
}

pub struct CsvParser;

impl CsvParser {
    /// Normalize date to YYYY-MM-DD format
    pub fn normalize_date(date_str: &str) -> (result: Result<String, CsvError>)
        ensures
            match result {
                Ok(date) => normalized_date(date_str@) == Some(date@),
                Err(e) => normalized_date(date_str@) is None && e@ == CsvErrorModel::ParseError(
                    unreadable_date(date_str@),
                ),
            },
    {
        let text = trimmed(date_str);
        // Try common date formats
        let mut i: usize = 0;
        while i < DATE_FORMS
            invariant
                i <= DATE_FORMS,
                text@ == trimmed_text(date_str@),
                first_parsed_day(text@, 0) == first_parsed_day(text@, i as int),
            decreases DATE_FORMS - i,
        {
            match parse_day(text, date_form_of(i)) {
                Ok(day) => {
                    match iso_string_of_day(day) {
                        Some(date) => {
                            return Ok(date);
                        },
                        None => {
                            return Err(CsvError::ParseError(unreadable(date_str)));
                        },
                    }
                },
                Err(_) => {},
            }
            i += 1;
        }
        Err(CsvError::ParseError(unreadable(date_str)))
    }

    /// The names of the columns of a file: the fields of its first row.
    pub fn get_headers(csv_content: &str) -> (result: Result<Vec<String>, CsvError>)
        ensures
            match result {
                Ok(headers) => csv_header_row(csv_content@) == Ok::<Seq<Seq<char>>, Seq<char>>(texts(headers@)),
                Err(e) => csv_header_row(csv_content@) is Err && e@ == CsvErrorModel::ParseError(
                    csv_header_row(csv_content@)->Err_0,
                ),
            },
    {
        match read_headers(csv_content) {
            Ok(headers) => Ok(headers),
            Err(e) => Err(CsvError::ParseError(e)),
        }
    }

    /// Reads the transactions of a file whose columns the mapping names. The file has to
    /// have the columns of the date, the amount and the description; every row has to
    /// hold a date in a form that is known and an amount that is a decimal number. The first
    /// row with which something is wrong ends the reading.
    pub fn parse(csv_content: &str, mapping: &ColumnMapping) -> (result: Result<Vec<ParsedTransaction>, CsvError>)
        ensures
            match result {
                Ok(transactions) => parsed_file(csv_content@, *mapping) == Ok::<Seq<ParsedModel>, CsvErrorModel>(
                    parsed_models(transactions@),
                ),
                Err(e) => parsed_file(csv_content@, *mapping) == Err::<Seq<ParsedModel>, CsvErrorModel>(e@),
            },
    {
        let headers = match read_headers(csv_content) {
            Ok(h) => h,
            Err(e) => {
                return Err(CsvError::ParseError(e));
            },
        };
        // Verify all required columns exist
        let date_at = match find_column(&headers, &mapping.date) {
            Some(at) => at,
            None => {
                return Err(CsvError::MissingColumn(mapping.date.clone()));
            },
        };
        let amount_at = match find_column(&headers, &mapping.amount) {
            Some(at) => at,
            None => {
                return Err(CsvError::MissingColumn(mapping.amount.clone()));
            },
        };
        let description_at = match find_column(&headers, &mapping.description) {
            Some(at) => at,
            None => {
                return Err(CsvError::MissingColumn(mapping.description.clone()));
            },
        };
        let merchant_at = match &mapping.merchant {
            Some(name) => find_column(&headers, name),
            None => None,
        };
        let rows = read_records(csv_content);
        let ghost row_models = csv_record_rows(csv_content@);
        let ghost names = texts(headers@);
        let mut transactions: Vec<ParsedTransaction> = Vec::new();
        let mut i: usize = 0;
        proof {
            assert(row_models.take(0) =~= Seq::<Result<Seq<Seq<char>>, Seq<char>>>::empty());
            assert(parsed_models(transactions@) =~= Seq::<ParsedModel>::empty());
        }
        while i < rows.len()
            invariant
                i <= rows.len(),
                names == texts(headers@),
                row_models == csv_record_rows(csv_content@),
                row_models == rows@.map_values(|row: Result<Vec<String>, String>| row_model(row)),
                csv_header_row(csv_content@) == Ok::<Seq<Seq<char>>, Seq<char>>(names),
                missing_column(names, *mapping) is None,
                column_of(names, mapping.date@) == Some(date_at as int),
                column_of(names, mapping.amount@) == Some(amount_at as int),
                column_of(names, mapping.description@) == Some(description_at as int),
                match merchant_at {
                    Some(at) => merchant_column(names, *mapping) == Some(at as int),
                    None => merchant_column(names, *mapping) is None,
                },
                parsed_rows(row_models.take(i as int), names, *mapping) == Ok::<Seq<ParsedModel>, CsvErrorModel>(
                    parsed_models(transactions@),
                ),
            decreases rows.len() - i,
        {
            proof {
                assert(row_models.take(i as int + 1).drop_last() =~= row_models.take(i as int));
                assert(row_models.take(i as int + 1).last() == row_model(rows@[i as int]));
            }
            let ghost so_far = parsed_models(transactions@);
            match &rows[i] {
                Err(e) => {
                    proof {
                        lemma_first_error_ends(row_models, names, *mapping, i as int + 1);
                    }
                    return Err(CsvError::ParseError(e.clone()));
                },
                Ok(record) => {
                    let ghost fields = texts(record@);
                    if date_at >= record.len() {
                        proof {
                            lemma_first_error_ends(row_models, names, *mapping, i as int + 1);
                        }
                        return Err(CsvError::ParseError("Missing date value".to_owned()));
                    }
                    let date = match Self::normalize_date(record[date_at].as_str()) {
                        Ok(date) => date,
                        Err(e) => {
                            proof {
                                lemma_first_error_ends(row_models, names, *mapping, i as int + 1);
                            }
                            return Err(e);
                        },
                    };
                    if amount_at >= record.len() {
                        proof {
                            lemma_first_error_ends(row_models, names, *mapping, i as int + 1);
                        }
                        return Err(CsvError::ParseError("Missing amount value".to_owned()));
                    }
                    let amount = match parse_amount(record[amount_at].as_str()) {
                        Some(amount) => amount,
                        None => {
                            proof {
                                lemma_first_error_ends(row_models, names, *mapping, i as int + 1);
                            }
                            return Err(CsvError::ParseError(join("Invalid amount: ", record[amount_at].as_str())));
                        },
                    };
                    if description_at >= record.len() {
                        proof {
                            lemma_first_error_ends(row_models, names, *mapping, i as int + 1);
                        }
                        return Err(CsvError::ParseError("Missing description value".to_owned()));
                    }
                    let description = record[description_at].clone();
                    let merchant = match merchant_at {
                        Some(at) => if at < record.len() {
                            Some(record[at].clone())
                        } else {
                            None
                        },
                        None => None,
                    };
                    let transaction = ParsedTransaction { date, amount, description, merchant };
                    proof {
                        assert(parsed_row(fields, names, *mapping) == Ok::<ParsedModel, CsvErrorModel>(transaction@));
                    }
                    transactions.push(transaction);
                    proof {
                        assert(parsed_models(transactions@) =~= so_far.push(transaction@));
                    }
                },
            }
            i += 1;
        }
        proof {
            assert(row_models.take(rows.len() as int) =~= row_models);
        }
        Ok(transactions)
    }
}

/// What is said of a date that cannot be read.
fn unreadable(date_str: &str) -> (message: String)
    ensures
        message@ == unreadable_date(date_str@),
{
    join3("Unable to parse date: ", date_str, ". Supported formats: YYYY-MM-DD, MM/DD/YYYY, etc.")
}

/// What is wrong with some of the first rows is what is wrong with the rows.
proof fn lemma_first_error_ends(
    rows: Seq<Result<Seq<Seq<char>>, Seq<char>>>,
    headers: Seq<Seq<char>>,
    mapping: ColumnMapping,
    upto: int,
)
    requires
        0 <= upto <= rows.len(),
        parsed_rows(rows.take(upto), headers, mapping) is Err,
    ensures
        parsed_rows(rows, headers, mapping) == parsed_rows(rows.take(upto), headers, mapping),
    decreases rows.len() - upto,
{
    if upto == rows.len() {
        assert(rows.take(upto) =~= rows);
    } else {
        assert(rows.take(upto + 1).drop_last() =~= rows.take(upto));
        lemma_first_error_ends(rows, headers, mapping, upto + 1);
    }
}

} // verus!
