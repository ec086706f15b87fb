//! Calendar dates and months of the proleptic Gregorian calendar, as far as
//! `chrono` can hold them.

use crate::placeholder::{is_figures, lemma_figures_join, lemma_zero_padded_is_figures};
use crate::text::{digit_char, zero_padded};
use chrono::{Datelike, NaiveDate, TimeZone, Utc};
use std::time::{SystemTime, UNIX_EPOCH};
use vstd::prelude::*;
use vstd::string::StringExecFns;

verus! {

/// The first year that a date can lie in.
pub const MIN_YEAR: i32 = -262143;

/// The last year that a date can lie in.
pub const MAX_YEAR: i32 = 262142;

/// Milliseconds in one day.
pub const MILLIS_PER_DAY: i64 = 86_400_000;

pub open spec fn is_leap_year(year: int) -> bool {
    year % 4 == 0 && (year % 100 != 0 || year % 400 == 0)
}

pub open spec fn days_in_month(year: int, month: int) -> int {
    if month == 2 {
        if is_leap_year(year) {
            29
        } else {
            28
        }
    } else if month == 4 || month == 6 || month == 9 || month == 11 {
        30
    } else {
        31
    }
}

/// Days of `year` that lie before the first of `month`.
pub open spec fn days_before_month(year: int, month: int) -> int {
    let common: int = if month <= 1 {
        0
    } else if month == 2 {
        31
    } else if month == 3 {
        59
    } else if month == 4 {
        90
    } else if month == 5 {
        120
    } else if month == 6 {
        151
    } else if month == 7 {
        181
    } else if month == 8 {
        212
    } else if month == 9 {
        243
    } else if month == 10 {
        273
    } else if month == 11 {
        304
    } else {
        334
    };
    if month > 2 && is_leap_year(year) {
        common + 1
    } else {
        common
    }
}

/// Leap years among the years 1 to `year`, counted backwards below year 1.
pub open spec fn leap_years_through(year: int) -> int {
    year / 4 - year / 100 + year / 400
}

/// Days from 1 January 1970 to 1 January of `year`; negative before 1970.
pub open spec fn days_before_year(year: int) -> int {
    365 * (year - 1970) + leap_years_through(year - 1) - leap_years_through(1969)
}

/// A calendar date as three numbers.
pub struct DateModel {
    pub year: int,
    pub month: int,
    pub day: int,
}

pub open spec fn ymd(year: int, month: int, day: int) -> DateModel {
    DateModel { year, month, day }
}

impl DateModel {
    /// The date exists in the calendar and its year is one that can be held.
    pub open spec fn valid(self) -> bool {
        &&& MIN_YEAR <= self.year <= MAX_YEAR
        &&& 1 <= self.month <= 12
        &&& 1 <= self.day <= days_in_month(self.year, self.month)
    }

    /// The date exists in the calendar, in whatever year.
    pub open spec fn in_calendar(self) -> bool {
        &&& 1 <= self.month <= 12
        &&& 1 <= self.day <= days_in_month(self.year, self.month)
    }

    /// The calendar day before this one.
    pub open spec fn pred(self) -> DateModel {
        if self.day > 1 {
            ymd(self.year, self.month, self.day - 1)
        } else if self.month > 1 {
            ymd(self.year, self.month - 1, days_in_month(self.year, self.month - 1))
        } else {
            ymd(self.year - 1, 12, 31)
        }
    }

    /// Days from 1 January 1970 to this date; negative before it.
    pub open spec fn day_number(self) -> int {
        days_before_year(self.year) + days_before_month(self.year, self.month) + self.day - 1
    }
}

/// Two decimal digits for a number below one hundred.
pub open spec fn two_digits(n: int) -> Seq<char> {
    seq![digit_char(n / 10), digit_char(n % 10)]
}

/// A year as dates are written: four digits from 0 to 9999, and outside of
/// that a sign and at least four digits.
pub open spec fn year_text(year: int) -> Seq<char> {
    if 0 <= year <= 9999 {
        zero_padded(year as nat, 4)
    } else if year < 0 {
        seq!['-'] + zero_padded((-year) as nat, 4)
    } else {
        seq!['+'] + zero_padded(year as nat, 4)
    }
}

impl DateModel {
    /// The date as day, month and year with dots between them.
    pub open spec fn day_month_year_text(self) -> Seq<char> {
        two_digits(self.day) + seq!['.'] + two_digits(self.month) + seq!['.'] + year_text(
            self.year,
        )
    }

    /// The date's month and year with a dot between them.
    pub open spec fn month_year_text(self) -> Seq<char> {
        two_digits(self.month) + seq!['.'] + year_text(self.year)
    }

    /// The date as year, month and day with hyphens between them.
    pub open spec fn iso_text(self) -> Seq<char> {
        year_text(self.year) + seq!['-'] + two_digits(self.month) + seq!['-'] + two_digits(
            self.day,
        )
    }

    pub open spec fn month(self) -> MonthModel {
        MonthModel { year: self.year, month: self.month }
    }
}

/// A calendar month as two numbers.
pub struct MonthModel {
    pub year: int,
    pub month: int,
}

impl MonthModel {
    pub open spec fn valid(self) -> bool {
        MIN_YEAR <= self.year <= MAX_YEAR && 1 <= self.month <= 12
    }

    /// The month after this one; after December comes January of the next year.
    pub open spec fn next(self) -> MonthModel {
        if self.month == 12 {
            MonthModel { year: self.year + 1, month: 1 }
        } else {
            MonthModel { year: self.year, month: self.month + 1 }
        }
    }

    /// The month before this one; before January comes December of the year before.
    pub open spec fn prev(self) -> MonthModel {
        if self.month == 1 {
            MonthModel { year: self.year - 1, month: 12 }
        } else {
            MonthModel { year: self.year, month: self.month - 1 }
        }
    }

    pub open spec fn first_day(self) -> DateModel {
        ymd(self.year, self.month, 1)
    }

    pub open spec fn last_day(self) -> DateModel {
        ymd(self.year, self.month, days_in_month(self.year, self.month))
    }
}

/// The day that an instant lies in, counted from 1 January 1970, the instant
/// given in milliseconds from the start of that day in UTC.
pub open spec fn day_index(millis: int) -> int {
    millis / (MILLIS_PER_DAY as int)
}

/// The date of the calendar with the given day number.
pub open spec fn date_of_day(day: int) -> DateModel {
    choose|date: DateModel| date.in_calendar() && date.day_number() == day
}

/// The instant lies in a day that a `Date` can hold.
pub open spec fn instant_in_range(millis: int) -> bool {
    let first = ymd(MIN_YEAR as int, 1, 1);
    let last = ymd(MAX_YEAR as int, 12, 31);
    first.day_number() <= day_index(millis) <= last.day_number()
}

/// The last day of a month is the day before the first day of the month that
/// follows it, and after December follows January of the next year.
pub proof fn lemma_month_ends_before_next_begins(month: MonthModel)
    requires
        1 <= month.month <= 12,
    ensures
        month.next().first_day().pred() == month.last_day(),
        month.month == 12 ==> month.next() == (MonthModel { year: month.year + 1, month: 1 }),
        month.month < 12 ==> month.next() == (MonthModel {
            year: month.year,
            month: month.month + 1,
        }),
{
}

/// The month before the one that follows a month is that month, and the month
/// before a month ends on the day before that month begins.
pub proof fn lemma_months_follow_each_other(month: MonthModel)
    requires
        1 <= month.month <= 12,
    ensures
        month.next().prev() == month,
        month.prev().next() == month,
        month.first_day().pred() == month.prev().last_day(),
{
}

/// Days are counted from 1 January 1970.
pub proof fn lemma_day_zero()
    ensures
        ymd(1970, 1, 1).day_number() == 0,
{
}

/// The day before a date has the day number one below that of the date, and it
/// is a day of the calendar.
pub proof fn lemma_pred_is_one_day_earlier(date: DateModel)
    requires
        date.in_calendar(),
    ensures
        date.pred().day_number() == date.day_number() - 1,
        date.pred().in_calendar(),
{
}

/// A year has 365 or 366 days, so the first days of later years have larger
/// day numbers.
pub proof fn lemma_years_ascend(earlier: int, later: int)
    requires
        earlier <= later,
    ensures
        days_before_year(earlier) + 365 * (later - earlier) <= days_before_year(later),
    decreases later - earlier,
{
    if earlier < later {
        lemma_years_ascend(earlier, later - 1);
    }
}

/// Two dates of the calendar with the same day number are the same date: the
/// day number of an instant tells which date it lies in.
pub proof fn lemma_day_number_tells_dates_apart(a: DateModel, b: DateModel)
    requires
        a.in_calendar(),
        b.in_calendar(),
        a.day_number() == b.day_number(),
    ensures
        a == b,
{
    if a.year < b.year {
        lemma_years_ascend(a.year + 1, b.year);
    } else if b.year < a.year {
        lemma_years_ascend(b.year + 1, a.year);
    }
}

/// A date whose day number is not negative lies in 1970 or later.
pub proof fn lemma_from_1970_on(date: DateModel)
    requires
        date.in_calendar(),
        date.day_number() >= 0,
    ensures
        date.year >= 1970,
{
    if date.year < 1970 {
        lemma_years_ascend(date.year + 1, 1970);
    }
}

/// A date of the calendar is the date of its day number.
pub proof fn lemma_date_of_its_day(date: DateModel)
    requires
        date.in_calendar(),
    ensures
        date_of_day(date.day_number()) == date,
{
    lemma_day_number_tells_dates_apart(date, date_of_day(date.day_number()));
}

/// Years are written with figures.
pub proof fn lemma_year_text_is_figures(year: int)
    ensures
        is_figures(year_text(year)),
{
    if 0 <= year <= 9999 {
        lemma_zero_padded_is_figures(year as nat, 4);
    } else if year < 0 {
        lemma_zero_padded_is_figures((-year) as nat, 4);
        lemma_figures_join(seq!['-'], zero_padded((-year) as nat, 4));
    } else {
        lemma_zero_padded_is_figures(year as nat, 4);
        lemma_figures_join(seq!['+'], zero_padded(year as nat, 4));
    }
}

/// Dates and months are written with figures.
pub proof fn lemma_date_texts_are_figures(date: DateModel)
    ensures
        is_figures(date.day_month_year_text()),
        is_figures(date.month_year_text()),
        is_figures(date.iso_text()),
{
    let day = two_digits(date.day);
    let month = two_digits(date.month);
    let year = year_text(date.year);
    lemma_year_text_is_figures(date.year);
    lemma_figures_join(day, seq!['.']);
    lemma_figures_join(day + seq!['.'], month);
    lemma_figures_join(day + seq!['.'] + month, seq!['.']);
    lemma_figures_join(day + seq!['.'] + month + seq!['.'], year);
    lemma_figures_join(month, seq!['.']);
    lemma_figures_join(month + seq!['.'], year);
    lemma_figures_join(year, seq!['-']);
    lemma_figures_join(year + seq!['-'], month);
    lemma_figures_join(year + seq!['-'] + month, seq!['-']);
    lemma_figures_join(year + seq!['-'] + month + seq!['-'], day);
}

/// A valid calendar date.
#[derive(Clone, Copy, Debug, PartialEq, Eq)]
pub struct Date {
    year: i32,
    month: u32,
    day: u32,
}

impl View for Date {
    type V = DateModel;

    closed spec fn view(&self) -> DateModel {
        ymd(self.year as int, self.month as int, self.day as int)
    }
}

impl Date {
    #[verifier::type_invariant]
    pub open spec fn wf(&self) -> bool {
        self@.valid()
    }

    /// The date of the given year, month and day, where there is one.
    pub fn new(year: i32, month: u32, day: u32) -> (r: Option<Date>)
        ensures
            r is Some <==> ymd(year as int, month as int, day as int).valid(),
            r matches Some(d) ==> d@ == ymd(year as int, month as int, day as int),
    {
        naive_from_ymd(year, month, day)
    }

    pub fn year(&self) -> (y: i32)
        ensures
            y == self@.year,
            self.wf(),
    {
        proof {
            use_type_invariant(self);
        }
        self.year
    }

    pub fn month(&self) -> (m: u32)
        ensures
            m == self@.month,
            self.wf(),
    {
        proof {
            use_type_invariant(self);
        }
        self.month
    }

    pub fn day(&self) -> (d: u32)
        ensures
            d == self@.day,
            self.wf(),
    {
        proof {
            use_type_invariant(self);
        }
        self.day
    }

    /// The calendar day before this one; `None` for the first date that can be held.
    pub fn pred(&self) -> (r: Option<Date>)
        ensures
            r is Some <==> self@.pred().valid(),
            r matches Some(d) ==> d@ == self@.pred(),
    {
        naive_pred(self)
    }

    /// The date of today in UTC by the system clock: a valid date from 1970
    /// on. `None` where the clock stands before 1970, or at a day that no
    /// date can hold.
    pub fn today() -> (r: Option<Date>)
        ensures
            r matches Some(today) ==> today.wf() && today@.day_number() >= 0 && today@.year
                >= 1970,
    {
        let now = SystemTime::now();
        let millis = match millis_since_1970(&now) {
            Some(millis) => millis,
            None => {
                return None;
            },
        };
        match Timestamp::from_millis(millis) {
            Some(instant) => {
                let today = instant.date();
                proof {
                    lemma_from_1970_on(today@);
                }
                Some(today)
            },
            None => None,
        }
    }

    /// The date in the form `DD.MM.YYYY`.
    pub fn day_month_year(&self) -> (text: String)
        ensures
            text@ == self@.day_month_year_text(),
    {
        naive_format(self, "%d.%m.%Y")
    }

    /// The date in the form `YYYY-MM-DD`.
    pub fn iso(&self) -> (text: String)
        ensures
            text@ == self@.iso_text(),
    {
        naive_display(self)
    }

    /// The date that `chrono` reads from a text of the form `YYYY-MM-DD`.
    pub fn parse(text: &str) -> (r: Option<Date>)
        ensures
            r is Some <==> chrono_parsed_date(text@) is Some,
            r matches Some(d) ==> chrono_parsed_date(text@) == Some((d@.year, d@.month, d@.day)),
    {
        naive_parse(text)
    }
}

/// A point in time with its calendar date in UTC.
#[derive(Clone, Copy, Debug, PartialEq, Eq)]
pub struct Timestamp {
    millis: i64,
    date: Date,
}

/// A point in time as milliseconds from 1 January 1970, with its date in UTC.
pub struct InstantModel {
    pub millis: int,
    pub date: DateModel,
}

/// The instant `millis` milliseconds from the start of 1970, with the date of
/// the day that it lies in.
pub open spec fn instant(millis: int) -> InstantModel {
    InstantModel { millis, date: date_of_day(day_index(millis)) }
}

impl View for Timestamp {
    type V = InstantModel;

    closed spec fn view(&self) -> InstantModel {
        InstantModel { millis: self.millis as int, date: self.date@ }
    }
}

impl Timestamp {
    #[verifier::type_invariant]
    pub open spec fn wf(&self) -> bool {
        &&& instant_in_range(self@.millis)
        &&& self@.date.valid()
        &&& self@.date == date_of_day(day_index(self@.millis))
    }

    /// The instant that lies `millis` milliseconds after the start of 1970 in
    /// UTC; `None` where its day is not one that a date can hold.
    pub fn from_millis(millis: i64) -> (r: Option<Timestamp>)
        ensures
            r is Some <==> instant_in_range(millis as int),
            r matches Some(t) ==> t@ == instant(millis as int),
            r matches Some(t) ==> t@.date.valid() && t@.date.day_number() == day_index(
                millis as int,
            ),
    {
        match utc_date_of_millis(millis) {
            Some(date) => {
                proof {
                    use_type_invariant(&date);
                    lemma_date_of_its_day(date@);
                }
                Some(Timestamp { millis, date })
            },
            None => None,
        }
    }

    pub fn millis(&self) -> (m: i64)
        ensures
            m == self@.millis,
            self.wf(),
    {
        proof {
            use_type_invariant(self);
        }
        self.millis
    }

    pub fn date(&self) -> (d: Date)
        ensures
            d@ == self@.date,
            self.wf(),
    {
        proof {
            use_type_invariant(self);
            use_type_invariant(&self.date);
        }
        self.date
    }
}

/// A calendar month: the period that a declaration reports on.
#[derive(Clone, Copy, Debug, PartialEq, Eq)]
pub struct MonthSpec {
    year: i32,
    month: u32,
}

impl View for MonthSpec {
    type V = MonthModel;

    closed spec fn view(&self) -> MonthModel {
        MonthModel { year: self.year as int, month: self.month as int }
    }
}

impl MonthSpec {
    #[verifier::type_invariant]
    pub open spec fn wf(&self) -> bool {
        self@.valid()
    }

    /// The month of the given year and number, where there is one.
    pub fn new(year: i32, month: u32) -> (r: Option<MonthSpec>)
        ensures
            r is Some <==> (MonthModel { year: year as int, month: month as int }).valid(),
            r matches Some(m) ==> m@ == (MonthModel { year: year as int, month: month as int }),
    {
        if MIN_YEAR <= year && year <= MAX_YEAR && 1 <= month && month <= 12 {
            Some(MonthSpec { year, month })
        } else {
            None
        }
    }

    /// The month that `date` lies in.
    pub fn of_date(date: &Date) -> (m: MonthSpec)
        ensures
            m@ == date@.month(),
            m.wf(),
    {
        MonthSpec { year: date.year(), month: date.month() }
    }

    /// The month written as `text`, in the form `YYYY-MM`: what `chrono` reads
    /// from `text` followed by `-01` as a date; `None` where it reads none.
    pub fn parse(text: &str) -> (r: Option<MonthSpec>)
        ensures
            r is Some <==> chrono_parsed_date(text@ + "-01"@) is Some,
            r matches Some(m) ==> {
                &&& m.wf()
                &&& chrono_parsed_date(text@ + "-01"@) matches Some(t)
                &&& m@.year == t.0
                &&& m@.month == t.1
            },
    {
        let mut first = String::from_str(text);
        first.append("-01");
        match Date::parse(first.as_str()) {
            Some(date) => Some(MonthSpec::of_date(&date)),
            None => None,
        }
    }

    pub fn year(&self) -> (y: i32)
        ensures
            y == self@.year,
            self.wf(),
    {
        proof {
            use_type_invariant(self);
        }
        self.year
    }

    pub fn month(&self) -> (m: u32)
        ensures
            m == self@.month,
            self.wf(),
    {
        proof {
            use_type_invariant(self);
        }
        self.month
    }

    /// The first day of the month.
    pub fn start_date(&self) -> (d: Date)
        ensures
            d@ == self@.first_day(),
    {
        proof {
            use_type_invariant(self);
        }
        naive_from_ymd(self.year, self.month, 1).unwrap()
    }

    /// The last day of the month: the day before the first of the month that
    /// follows.
    pub fn end_date(&self) -> (d: Date)
        ensures
            d@ == self@.next().first_day().pred(),
            d@ == self@.last_day(),
    {
        proof {
            use_type_invariant(self);
        }
        if self.year == MAX_YEAR && self.month == 12 {
            // the month that follows lies outside of what a date can hold
            naive_from_ymd(self.year, 12, 31).unwrap()
        } else {
            let first_of_next = if self.month == 12 {
                naive_from_ymd(self.year + 1, 1, 1)
            } else {
                naive_from_ymd(self.year, self.month + 1, 1)
            };
            naive_pred(&first_of_next.unwrap()).unwrap()
        }
    }

    /// The month in the form `MM.YYYY`.
    pub fn month_year(&self) -> (text: String)
        ensures
            text@ == self@.first_day().month_year_text(),
    {
        let first = self.start_date();
        naive_format(&first, "%m.%Y")
    }
}

/// The last day of the month that `date` lies in.
pub fn last_day_of_month(date: &Date) -> (last: Date)
    ensures
        last@ == date@.month().last_day(),
        last@ == date@.month().next().first_day().pred(),
{
    MonthSpec::of_date(date).end_date()
}

/// The month before the one that `today` lies in: the month of the day before
/// the first of that month. `None` where `today` lies in the first month that
/// can be held.
pub fn previous_month_of(today: &Date) -> (r: Option<MonthSpec>)
    ensures
        r is Some <==> today@.month().prev().valid(),
        r matches Some(m) ==> m@ == today@.month().prev(),
        r matches Some(m) ==> m@ == today@.month().first_day().pred().month(),
{
    let first = naive_from_ymd(today.year(), today.month(), 1).unwrap();
    match naive_pred(&first) {
        Some(last) => Some(MonthSpec::of_date(&last)),
        None => None,
    }
}

/// The month before the current one, by the system clock in UTC: the month
/// before the one that some valid date from 1970 on lies in. `None` where the
/// clock shows no such date.
pub fn previous_month() -> (r: Option<MonthSpec>)
    ensures
        r matches Some(month) ==> exists|today: DateModel|
            {
                &&& today.valid()
                &&& today.year >= 1970
                &&& month@ == (#[trigger] today.month()).prev()
            },
{
    match Date::today() {
        Some(today) => previous_month_of(&today),
        None => None,
    }
}

// What follows calls into `chrono`. Verus does not look into these functions:
// it takes their contracts as given. A `Date` that is handed to one of them
// holds a valid date, as every `Date` does. None of them stops the process.

/// Calls `chrono::NaiveDate::from_ymd_opt`. The contract states what its
/// documentation does: a date comes back exactly when the day exists in the
/// calendar and the year lies between `MIN_YEAR` and `MAX_YEAR`, and it is the
/// date of the three numbers given.
#[verifier::external_body]
fn naive_from_ymd(year: i32, month: u32, day: u32) -> (r: Option<Date>)
    ensures
        r is Some <==> ymd(year as int, month as int, day as int).valid(),
        r matches Some(d) ==> d@ == ymd(year as int, month as int, day as int),
{
    NaiveDate::from_ymd_opt(year, month, day).map(
        |d| Date { year: d.year(), month: d.month(), day: d.day() },
    )
}

/// Calls `chrono::NaiveDate::pred_opt` on the date of the three numbers held.
/// The contract states that the previous calendar day comes back, and nothing
/// for the first day of `MIN_YEAR`, which has no day before it that can be held.
#[verifier::external_body]
fn naive_pred(date: &Date) -> (r: Option<Date>)
    ensures
        r is Some <==> date@.pred().valid(),
        r matches Some(d) ==> d@ == date@.pred(),
{
    NaiveDate::from_ymd_opt(date.year, date.month, date.day).and_then(|d| d.pred_opt()).map(
        |d| Date { year: d.year(), month: d.month(), day: d.day() },
    )
}

/// Calls `chrono::NaiveDate::format` with one of the two patterns that the
/// declaration uses, and turns the result into a string. The contract states
/// what chrono's `%d`, `%m` and `%Y` write: day and month as two digits, the
/// year as `year_text` says.
#[verifier::external_body]
fn naive_format(date: &Date, pattern: &str) -> (text: String)
    requires
        pattern@ == "%d.%m.%Y"@ || pattern@ == "%m.%Y"@,
    ensures
        pattern@ == "%d.%m.%Y"@ ==> text@ == date@.day_month_year_text(),
        pattern@ == "%m.%Y"@ ==> text@ == date@.month_year_text(),
{
    match NaiveDate::from_ymd_opt(date.year, date.month, date.day) {
        Some(d) => d.format(pattern).to_string(),
        None => String::new(),
    }
}

/// Calls `to_string` on the `chrono::NaiveDate` of the three numbers held,
/// that is its `Display`. The contract states what that writes: the year as
/// `year_text` says, then month and day as two digits each, with hyphens.
#[verifier::external_body]
fn naive_display(date: &Date) -> (text: String)
    ensures
        text@ == date@.iso_text(),
{
    match NaiveDate::from_ymd_opt(date.year, date.month, date.day) {
        Some(d) => d.to_string(),
        None => String::new(),
    }
}

/// Calls `chrono::TimeZone::timestamp_millis_opt` on `Utc` and takes the date
/// of the instant it gives. The contract states that an instant comes back
/// exactly when its day is one that a date can hold, and that the date is the
/// one that many days from 1 January 1970.
#[verifier::external_body]
fn utc_date_of_millis(millis: i64) -> (r: Option<Date>)
    ensures
        r is Some <==> instant_in_range(millis as int),
        r matches Some(d) ==> d@.day_number() == day_index(millis as int),
{
    Utc.timestamp_millis_opt(millis).single().map(|t| t.date_naive()).map(
        |d| Date { year: d.year(), month: d.month(), day: d.day() },
    )
}

/// What `chrono::NaiveDate::parse_from_str` makes of `text` under the pattern
/// `%Y-%m-%d`: the year, month and day of the date, or nothing where it
/// refuses the text.
pub uninterp spec fn chrono_parsed_date(text: Seq<char>) -> Option<(int, int, int)>;

/// Calls `chrono::NaiveDate::parse_from_str` with the pattern `%Y-%m-%d`. The
/// contract gives the result its name; a date that comes back is a valid one.
#[verifier::external_body]
fn naive_parse(text: &str) -> (r: Option<Date>)
    ensures
        r is Some <==> chrono_parsed_date(text@) is Some,
        r matches Some(d) ==> chrono_parsed_date(text@) == Some((d@.year, d@.month, d@.day)),
{
    match NaiveDate::parse_from_str(text, "%Y-%m-%d") {
        Ok(d) => Some(Date { year: d.year(), month: d.month(), day: d.day() }),
        Err(_) => None,
    }
}

// What follows reads the system clock.

#[verifier::external_type_specification]
#[verifier::external_body]
pub struct ExSystemTime(std::time::SystemTime);

/// `SystemTime::now` reads the system clock. Nothing is promised of what it
/// shows.
pub assume_specification[ std::time::SystemTime::now ]() -> (now: std::time::SystemTime)
;

/// Calls `SystemTime::duration_since` with the start of 1970 and counts the
/// time that has passed in milliseconds. The contract states that the count is
/// not negative: nothing comes back for an instant before 1970, nor for a
/// count that an `i64` cannot hold.
#[verifier::external_body]
fn millis_since_1970(at: &SystemTime) -> (r: Option<i64>)
    ensures
        r matches Some(millis) ==> millis >= 0,
{
    match at.duration_since(UNIX_EPOCH) {
        Ok(passed) => i64::try_from(passed.as_millis()).ok(),
        Err(_) => None,
    }
}

} // verus!
