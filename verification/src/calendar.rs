use vstd::prelude::*;

verus! {

/// The first day a `CalendarDay` can hold: January 1 of year 1.
pub const FIRST_DAY: i32 = 1;

/// The last day a `CalendarDay` can hold: December 31 of year 9999.
pub const LAST_DAY: i32 = 3_652_059;

/// The first day number that is sure to be written out: 65535 days before `FIRST_DAY`.
pub const FIRST_WRITTEN_DAY: i32 = -65_534;

/// The last day number that is sure to be written out: 65535 days after `LAST_DAY`.
pub const LAST_WRITTEN_DAY: i32 = 3_717_594;

/// The text of a day in a given form, the day given by its number in the proleptic
/// Gregorian calendar (January 1 of year 1 is day 1); none for a day that cannot be
/// represented.
pub uninterp spec fn date_text(days_from_ce: int, form: Seq<char>) -> Option<Seq<char>>;

/// The number of the day `year`-`month`-`day` in the proleptic Gregorian calendar, if there
/// is such a day.
pub uninterp spec fn day_number(year: int, month: int, day: int) -> Option<int>;

/// The number of the day that a text names when read in a given form, or what is said
/// against the text if it names none.
pub uninterp spec fn parsed_day(text: Seq<char>, form: Seq<char>) -> Result<int, Seq<char>>;

/// The year of a day.
pub uninterp spec fn civil_year(days_from_ce: int) -> int;

/// The month of a day, from 1 to 12.
pub uninterp spec fn civil_month(days_from_ce: int) -> int;

/// The day of the month of a day, from 1 to 31.
pub uninterp spec fn civil_day(days_from_ce: int) -> int;

/// The number of days from the Monday of a day's week to the day, from 0 to 6.
pub uninterp spec fn days_from_monday(days_from_ce: int) -> int;

/// The forms in which the library writes dates.
pub open spec fn is_written_form(form: Seq<char>) -> bool {
    form == "%Y-%m-%d"@ || form == "%Y-%m-01"@
}

/// The text of a day in the form year-month-day; empty for a day that cannot be
/// represented.
pub open spec fn iso_date_text(days_from_ce: int) -> Seq<char> {
    match date_text(days_from_ce, "%Y-%m-%d"@) {
        Some(text) => text,
        None => Seq::empty(),
    }
}

/// The text of the first day of a day's month, in the form year-month-day; empty for a day
/// that cannot be represented.
pub open spec fn month_start_text(days_from_ce: int) -> Seq<char> {
    match date_text(days_from_ce, "%Y-%m-01"@) {
        Some(text) => text,
        None => Seq::empty(),
    }
}

/// Calls chrono's `NaiveDate::from_num_days_from_ce_opt` and writes the date with
/// `NaiveDate::format` in the form given. Believed without proof: the text is a function
/// of the day number and the form alone, and there is one for every day number admitted
/// between `FIRST_WRITTEN_DAY` and `LAST_WRITTEN_DAY`, which lie in the years -179 to 10179
/// and so within the years that chrono represents. Only the two forms that the library writes
/// are admitted: both consist of specifiers that chrono knows for a date.
#[verifier::external_body]
fn format_day(days_from_ce: i32, form: &str) -> (text: Option<String>)
    requires
        is_written_form(form@),
    ensures
        match text {
            Some(t) => date_text(days_from_ce as int, form@) == Some(t@),
            None => date_text(days_from_ce as int, form@) is None,
        },
        FIRST_WRITTEN_DAY <= days_from_ce <= LAST_WRITTEN_DAY ==> text is Some,
{
    chrono::NaiveDate::from_num_days_from_ce_opt(days_from_ce).map(|date| date.format(form).to_string())
}

/// Calls chrono's `NaiveDate::from_ymd_opt` and `Datelike::num_days_from_ce`. Believed without
/// proof: whether there is such a day, and its number, are functions of the three arguments.
#[verifier::external_body]
fn number_of_day(year: i32, month: u32, day: u32) -> (number: Option<i32>)
    ensures
        match number {
            Some(n) => day_number(year as int, month as int, day as int) == Some(n as int),
            None => day_number(year as int, month as int, day as int) is None,
        },
{
    chrono::NaiveDate::from_ymd_opt(year, month, day).map(|date| chrono::Datelike::num_days_from_ce(&date))
}

/// Calls chrono's `NaiveDate::parse_from_str` and `Datelike::num_days_from_ce`; an error is
/// given by its text. Believed without proof: whether the text names a day in the form
/// given, the day's number, and what is said against the text otherwise, are functions of
/// the text and the form.
#[verifier::external_body]
pub(crate) fn parse_day(text: &str, form: &str) -> (number: Result<i32, String>)
    ensures
        match number {
            Ok(n) => parsed_day(text@, form@) == Ok::<int, Seq<char>>(n as int),
            Err(e) => parsed_day(text@, form@) == Err::<int, Seq<char>>(e@),
        },
{
    match chrono::NaiveDate::parse_from_str(text, form) {
        Ok(date) => Ok(chrono::Datelike::num_days_from_ce(&date)),
        Err(e) => Err(e.to_string()),
    }
}

/// Calls chrono's `NaiveDate::from_num_days_from_ce_opt` and `Datelike::year`. Believed
/// without proof: the year is a function of the day number, and there is one for every day
/// number between `FIRST_WRITTEN_DAY` and `LAST_WRITTEN_DAY`.
#[verifier::external_body]
fn year_of_day(days_from_ce: i32) -> (year: Option<i32>)
    ensures
        year matches Some(y) ==> y == civil_year(days_from_ce as int),
        FIRST_WRITTEN_DAY <= days_from_ce <= LAST_WRITTEN_DAY ==> year is Some,
{
    chrono::NaiveDate::from_num_days_from_ce_opt(days_from_ce).map(|date| chrono::Datelike::year(&date))
}

/// Calls chrono's `NaiveDate::from_num_days_from_ce_opt` and `Datelike::month`. Believed
/// without proof: the month is a function of the day number and lies between 1 and 12, and
/// there is one for every day number between `FIRST_WRITTEN_DAY` and `LAST_WRITTEN_DAY`.
#[verifier::external_body]
fn month_of_day(days_from_ce: i32) -> (month: Option<u32>)
    ensures
        month matches Some(m) ==> m == civil_month(days_from_ce as int) && 1 <= m <= 12,
        FIRST_WRITTEN_DAY <= days_from_ce <= LAST_WRITTEN_DAY ==> month is Some,
{
    chrono::NaiveDate::from_num_days_from_ce_opt(days_from_ce).map(|date| chrono::Datelike::month(&date))
}

/// Calls chrono's `NaiveDate::from_num_days_from_ce_opt` and `Datelike::day`. Believed
/// without proof: the day of the month is a function of the day number and lies between 1
/// and 31, and there is one for every day number between `FIRST_WRITTEN_DAY` and
/// `LAST_WRITTEN_DAY`.
#[verifier::external_body]
fn day_of_month(days_from_ce: i32) -> (day: Option<u32>)
    ensures
        day matches Some(d) ==> d == civil_day(days_from_ce as int) && 1 <= d <= 31,
        FIRST_WRITTEN_DAY <= days_from_ce <= LAST_WRITTEN_DAY ==> day is Some,
{
    chrono::NaiveDate::from_num_days_from_ce_opt(days_from_ce).map(|date| chrono::Datelike::day(&date))
}

/// Calls chrono's `NaiveDate::from_num_days_from_ce_opt`, `Datelike::weekday` and
/// `Weekday::num_days_from_monday`. Believed without proof: the result is a function of the
/// day number and lies between 0, for a Monday, and 6, for a Sunday, and there is one for
/// every day number between `FIRST_WRITTEN_DAY` and `LAST_WRITTEN_DAY`.
#[verifier::external_body]
fn weekday_of_day(days_from_ce: i32) -> (offset: Option<u32>)
    ensures
        offset matches Some(o) ==> o == days_from_monday(days_from_ce as int) && o <= 6,
        FIRST_WRITTEN_DAY <= days_from_ce <= LAST_WRITTEN_DAY ==> offset is Some,
{
    chrono::NaiveDate::from_num_days_from_ce_opt(days_from_ce).map(
        |date| chrono::Datelike::weekday(&date).num_days_from_monday(),
    )
}

/// A day between January 1 of year 1 and December 31 of year 9999.
#[derive(Debug, Clone, Copy)]
pub struct CalendarDay {
    days_from_ce: i32,
}

impl View for CalendarDay {
    type V = int;

    /// The number of the day, January 1 of year 1 being day 1.
    closed spec fn view(&self) -> int {
        self.days_from_ce as int
    }
}

impl CalendarDay {
    #[verifier::type_invariant]
    spec fn in_range(self) -> bool {
        FIRST_DAY <= self.days_from_ce <= LAST_DAY
    }

    /// The day with the given number, if the number is in range.
    pub fn from_days_from_ce(days_from_ce: i32) -> (day: Option<CalendarDay>)
        ensures
            match day {
                Some(d) => d@ == days_from_ce && FIRST_DAY <= days_from_ce <= LAST_DAY,
                None => !(FIRST_DAY <= days_from_ce <= LAST_DAY),
            },
    {
        if FIRST_DAY <= days_from_ce && days_from_ce <= LAST_DAY {
            Some(CalendarDay { days_from_ce })
        } else {
            None
        }
    }

    /// The day `year`-`month`-`day`, if there is such a day and it is in range.
    pub fn from_ymd(year: i32, month: u32, day: u32) -> (date: Option<CalendarDay>)
        ensures
            match date {
                Some(d) => day_number(year as int, month as int, day as int) == Some(d@) && FIRST_DAY <= d@
                    <= LAST_DAY,
                None => match day_number(year as int, month as int, day as int) {
                    Some(n) => !(FIRST_DAY <= n <= LAST_DAY),
                    None => true,
                },
            },
    {
        match number_of_day(year, month, day) {
            Some(n) => CalendarDay::from_days_from_ce(n),
            None => None,
        }
    }

    /// The day that a text names when read in the form given, if it names one and the day
    /// is in range.
    pub fn parse(text: &str, form: &str) -> (date: Option<CalendarDay>)
        ensures
            match date {
                Some(d) => parsed_day(text@, form@) == Ok::<int, Seq<char>>(d@) && FIRST_DAY <= d@ <= LAST_DAY,
                None => match parsed_day(text@, form@) {
                    Ok(n) => !(FIRST_DAY <= n <= LAST_DAY),
                    Err(_) => true,
                },
            },
    {
        match parse_day(text, form) {
            Ok(n) => CalendarDay::from_days_from_ce(n),
            Err(_) => None,
        }
    }

    /// The number of the day, which always lies in the range the type is made for.
    pub fn days_from_ce(&self) -> (days: i32)
        ensures
            days == self@,
            FIRST_DAY <= days <= LAST_DAY,
    {
        proof {
            use_type_invariant(self);
        }
        self.days_from_ce
    }

    /// The year of the day.
    pub fn year(&self) -> (year: i32)
        ensures
            year == civil_year(self@),
    {
        proof {
            use_type_invariant(self);
        }
        match year_of_day(self.days_from_ce) {
            Some(year) => year,
            None => {
                assert(false);
                0
            },
        }
    }

    /// The month of the day, from 1 to 12.
    pub fn month(&self) -> (month: u32)
        ensures
            month == civil_month(self@),
            1 <= month <= 12,
    {
        proof {
            use_type_invariant(self);
        }
        match month_of_day(self.days_from_ce) {
            Some(month) => month,
            None => {
                assert(false);
                1
            },
        }
    }

    /// The day of the month, from 1 to 31.
    pub fn day(&self) -> (day: u32)
        ensures
            day == civil_day(self@),
            1 <= day <= 31,
    {
        proof {
            use_type_invariant(self);
        }
        match day_of_month(self.days_from_ce) {
            Some(day) => day,
            None => {
                assert(false);
                1
            },
        }
    }

    /// The number of days from the Monday of the day's week to the day.
    pub fn weekday_from_monday(&self) -> (offset: u32)
        ensures
            offset == days_from_monday(self@),
            offset <= 6,
    {
        proof {
            use_type_invariant(self);
        }
        match weekday_of_day(self.days_from_ce) {
            Some(offset) => offset,
            None => {
                assert(false);
                0
            },
        }
    }

    /// The text of the day, in the form year-month-day.
    pub fn to_iso_string(&self) -> (text: String)
        ensures
            text@ == iso_date_text(self@),
    {
        self.iso_string_after(0)
    }

    /// The text of the day `offset` days later, in the form year-month-day.
    pub fn iso_string_after(&self, offset: u16) -> (text: String)
        ensures
            text@ == iso_date_text(self@ + offset),
    {
        proof {
            use_type_invariant(self);
        }
        match format_day(self.days_from_ce + offset as i32, "%Y-%m-%d") {
            Some(text) => text,
            None => String::new(),
        }
    }

    /// The text of the day `offset` days earlier, in the form year-month-day.
    pub fn iso_string_before(&self, offset: u16) -> (text: String)
        ensures
            text@ == iso_date_text(self@ - offset),
    {
        proof {
            use_type_invariant(self);
        }
        match format_day(self.days_from_ce - offset as i32, "%Y-%m-%d") {
            Some(text) => text,
            None => String::new(),
        }
    }

    /// The text of the first day of the day's month, in the form year-month-day.
    pub fn month_start_string(&self) -> (text: String)
        ensures
            text@ == month_start_text(self@),
    {
        proof {
            use_type_invariant(self);
        }
        match format_day(self.days_from_ce, "%Y-%m-01") {
            Some(text) => text,
            None => String::new(),
        }
    }
}

/// The text of a day given by its number, in the form year-month-day, if the day can be
/// represented.
pub fn iso_string_of_day(days_from_ce: i32) -> (text: Option<String>)
    ensures
        match text {
            Some(t) => date_text(days_from_ce as int, "%Y-%m-%d"@) == Some(t@),
            None => date_text(days_from_ce as int, "%Y-%m-%d"@) is None,
        },
{
    format_day(days_from_ce, "%Y-%m-%d")
}

} // verus!
