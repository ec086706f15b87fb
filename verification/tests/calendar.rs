use creative_report::calendar::{
    last_day_of_month, previous_month, previous_month_of, Date, MonthSpec, Timestamp, MAX_YEAR,
    MIN_YEAR,
};

fn date(year: i32, month: u32, day: u32) -> Date {
    Date::new(year, month, day).unwrap()
}

fn month(year: i32, month: u32) -> MonthSpec {
    MonthSpec::new(year, month).unwrap()
}

#[test]
fn date_new_takes_days_that_exist() {
    let d = date(2024, 2, 29);
    assert_eq!((d.year(), d.month(), d.day()), (2024, 2, 29));
    assert!(Date::new(2023, 2, 29).is_none());
    assert!(Date::new(1900, 2, 29).is_none());
    assert!(Date::new(2000, 2, 29).is_some());
    assert!(Date::new(-4, 2, 29).is_some());
    assert!(Date::new(2023, 4, 31).is_none());
    assert!(Date::new(2023, 0, 1).is_none());
    assert!(Date::new(2023, 13, 1).is_none());
    assert!(Date::new(2023, 1, 0).is_none());
    assert!(Date::new(2023, 1, 32).is_none());
}

#[test]
fn date_new_keeps_to_the_years_that_can_be_held() {
    assert_eq!(MIN_YEAR, -262143);
    assert_eq!(MAX_YEAR, 262142);
    assert!(Date::new(MAX_YEAR, 12, 31).is_some());
    assert!(Date::new(MAX_YEAR + 1, 1, 1).is_none());
    assert!(Date::new(MIN_YEAR, 1, 1).is_some());
    assert!(Date::new(MIN_YEAR - 1, 12, 31).is_none());
}

#[test]
fn pred_is_the_day_before() {
    assert_eq!(date(2015, 6, 3).pred(), Some(date(2015, 6, 2)));
    assert_eq!(date(2024, 3, 1).pred(), Some(date(2024, 2, 29)));
    assert_eq!(date(2023, 3, 1).pred(), Some(date(2023, 2, 28)));
    assert_eq!(date(2024, 1, 1).pred(), Some(date(2023, 12, 31)));
    assert_eq!(date(2024, 5, 1).pred(), Some(date(2024, 4, 30)));
    assert_eq!(date(MIN_YEAR, 1, 1).pred(), None);
    assert_eq!(date(MIN_YEAR, 1, 2).pred(), Some(date(MIN_YEAR, 1, 1)));
}

#[test]
fn start_date_is_the_first_of_the_month() {
    assert_eq!(month(2024, 2).start_date(), date(2024, 2, 1));
    assert_eq!(month(MIN_YEAR, 1).start_date(), date(MIN_YEAR, 1, 1));
    assert_eq!(month(MAX_YEAR, 12).start_date(), date(MAX_YEAR, 12, 1));
}

#[test]
fn end_date_is_the_last_of_the_month() {
    assert_eq!(month(2024, 2).end_date(), date(2024, 2, 29));
    assert_eq!(month(2023, 2).end_date(), date(2023, 2, 28));
    assert_eq!(month(1900, 2).end_date(), date(1900, 2, 28));
    assert_eq!(month(2000, 2).end_date(), date(2000, 2, 29));
    assert_eq!(month(2024, 4).end_date(), date(2024, 4, 30));
    assert_eq!(month(2024, 12).end_date(), date(2024, 12, 31));
    assert_eq!(month(MAX_YEAR, 12).end_date(), date(MAX_YEAR, 12, 31));
    assert_eq!(month(MIN_YEAR, 1).end_date(), date(MIN_YEAR, 1, 31));
}

#[test]
fn end_date_is_the_day_before_the_next_month_begins() {
    let mut year = 1999;
    while year <= 2004 {
        let mut m = 1;
        while m <= 12 {
            let next = if m == 12 { date(year + 1, 1, 1) } else { date(year, m + 1, 1) };
            assert_eq!(Some(month(year, m).end_date()), next.pred());
            m += 1;
        }
        year += 1;
    }
}

#[test]
fn december_is_followed_by_january_of_the_next_year() {
    assert_eq!(Some(month(2023, 12).end_date()), date(2024, 1, 1).pred());
    assert_eq!(month(2023, 12).end_date(), date(2023, 12, 31));
}

#[test]
fn last_day_of_month_from_any_day_of_it() {
    assert_eq!(last_day_of_month(&date(2024, 2, 1)), date(2024, 2, 29));
    assert_eq!(last_day_of_month(&date(2024, 2, 29)), date(2024, 2, 29));
    assert_eq!(last_day_of_month(&date(2021, 12, 15)), date(2021, 12, 31));
    assert_eq!(last_day_of_month(&date(2021, 9, 30)), date(2021, 9, 30));
}

#[test]
fn month_new_refuses_what_is_no_month() {
    assert!(MonthSpec::new(2024, 0).is_none());
    assert!(MonthSpec::new(2024, 13).is_none());
    assert!(MonthSpec::new(MAX_YEAR + 1, 1).is_none());
    assert!(MonthSpec::new(MIN_YEAR - 1, 12).is_none());
    let m = month(2024, 7);
    assert_eq!((m.year(), m.month()), (2024, 7));
}

#[test]
fn month_of_date_drops_the_day() {
    assert_eq!(MonthSpec::of_date(&date(2024, 2, 29)), month(2024, 2));
}

#[test]
fn default_month_on_2024_03_15_is_february_2024() {
    let selected = previous_month_of(&date(2024, 3, 15)).unwrap();
    assert_eq!(selected, month(2024, 2));
    assert_eq!(selected.start_date(), date(2024, 2, 1));
    assert_eq!(selected.end_date(), date(2024, 2, 29));
}

#[test]
fn previous_month_of_january_is_december() {
    assert_eq!(previous_month_of(&date(2024, 1, 10)), Some(month(2023, 12)));
    assert_eq!(previous_month_of(&date(2024, 1, 1)), Some(month(2023, 12)));
    assert_eq!(previous_month_of(&date(2024, 12, 31)), Some(month(2024, 11)));
}

#[test]
fn previous_month_of_the_first_month_is_none() {
    assert_eq!(previous_month_of(&date(MIN_YEAR, 1, 31)), None);
    assert_eq!(previous_month_of(&date(MIN_YEAR, 2, 1)), Some(month(MIN_YEAR, 1)));
}

#[test]
fn today_is_a_date_from_1970_on() {
    if let Some(today) = Date::today() {
        assert!(today.year() >= 1970);
        assert_eq!(Date::new(today.year(), today.month(), today.day()), Some(today));
    }
}

#[test]
fn previous_month_goes_by_the_clock() {
    let before = Date::today();
    let selected = previous_month();
    let after = Date::today();
    if before == after {
        match before {
            Some(today) => assert_eq!(selected, previous_month_of(&today)),
            None => assert_eq!(selected, None),
        }
    }
    if let Some(month) = selected {
        assert!(month.year() >= 1969);
    }
}

#[test]
fn parse_month_reads_year_and_month() {
    assert_eq!(MonthSpec::parse("2024-02"), Some(month(2024, 2)));
    assert_eq!(MonthSpec::parse("1999-12"), Some(month(1999, 12)));
}

#[test]
fn parse_month_refuses_malformed_text() {
    assert_eq!(MonthSpec::parse(""), None);
    assert_eq!(MonthSpec::parse("2024"), None);
    assert_eq!(MonthSpec::parse("2024-13"), None);
    assert_eq!(MonthSpec::parse("2024-00"), None);
    assert_eq!(MonthSpec::parse("February"), None);
    assert_eq!(MonthSpec::parse("2024-02-15"), None);
    assert_eq!(MonthSpec::parse("2024/02"), None);
}

#[test]
fn parse_date_reads_a_date() {
    assert_eq!(Date::parse("2024-02-29"), Some(date(2024, 2, 29)));
    assert_eq!(Date::parse("2023-02-29"), None);
    assert_eq!(Date::parse("2024-02-01-01"), None);
}

#[test]
fn day_month_year_has_two_two_and_four_digits() {
    assert_eq!(date(2024, 2, 29).day_month_year(), "29.02.2024");
    assert_eq!(date(2024, 11, 5).day_month_year(), "05.11.2024");
    assert_eq!(date(987, 1, 2).day_month_year(), "02.01.0987");
    assert_eq!(date(5, 1, 5).day_month_year(), "05.01.0005");
    assert_eq!(date(0, 1, 5).day_month_year(), "05.01.0000");
    assert_eq!(date(9999, 12, 31).day_month_year(), "31.12.9999");
}

#[test]
fn years_outside_of_four_digits_carry_a_sign() {
    assert_eq!(date(10000, 1, 1).day_month_year(), "01.01.+10000");
    assert_eq!(date(-1, 1, 1).day_month_year(), "01.01.-0001");
    assert_eq!(date(-12345, 3, 4).day_month_year(), "04.03.-12345");
    assert_eq!(date(MAX_YEAR, 12, 31).day_month_year(), "31.12.+262142");
    assert_eq!(date(MIN_YEAR, 1, 1).day_month_year(), "01.01.-262143");
    assert_eq!(date(10000, 1, 1).iso(), "+10000-01-01");
    assert_eq!(date(-1, 12, 31).iso(), "-0001-12-31");
    assert_eq!(month(-1, 3).month_year(), "03.-0001");
    assert_eq!(month(12345, 3).month_year(), "03.+12345");
}

#[test]
fn iso_has_year_month_and_day() {
    assert_eq!(date(2024, 2, 1).iso(), "2024-02-01");
    assert_eq!(date(2024, 12, 31).iso(), "2024-12-31");
    assert_eq!(date(33, 4, 5).iso(), "0033-04-05");
}

#[test]
fn month_year_has_two_and_four_digits() {
    assert_eq!(month(2024, 2).month_year(), "02.2024");
    assert_eq!(month(2024, 12).month_year(), "12.2024");
    assert_eq!(month(800, 1).month_year(), "01.0800");
}

#[test]
fn timestamp_has_the_date_of_its_day_in_utc() {
    assert_eq!(Timestamp::from_millis(0).unwrap().date(), date(1970, 1, 1));
    assert_eq!(Timestamp::from_millis(86_399_999).unwrap().date(), date(1970, 1, 1));
    assert_eq!(Timestamp::from_millis(86_400_000).unwrap().date(), date(1970, 1, 2));
    assert_eq!(Timestamp::from_millis(-1).unwrap().date(), date(1969, 12, 31));
    assert_eq!(Timestamp::from_millis(-86_400_000).unwrap().date(), date(1969, 12, 31));
    assert_eq!(Timestamp::from_millis(-86_400_001).unwrap().date(), date(1969, 12, 30));
    assert_eq!(Timestamp::from_millis(1_709_251_200_000).unwrap().date(), date(2024, 3, 1));
    assert_eq!(Timestamp::from_millis(1_709_251_199_999).unwrap().date(), date(2024, 2, 29));
    assert_eq!(Timestamp::from_millis(947_638_923_004).unwrap().date(), date(2000, 1, 12));
    assert_eq!(Timestamp::from_millis(947_638_923_004).unwrap().millis(), 947_638_923_004);
}

#[test]
fn timestamp_out_of_range_is_none() {
    assert!(Timestamp::from_millis(i64::MAX).is_none());
    assert!(Timestamp::from_millis(i64::MIN).is_none());
}

#[test]
fn timestamp_range_ends_with_the_first_and_the_last_date() {
    let first: i64 = -8_334_601_228_800_000;
    let last: i64 = 8_210_266_876_799_999;
    assert_eq!(Timestamp::from_millis(first).unwrap().date(), date(MIN_YEAR, 1, 1));
    assert!(Timestamp::from_millis(first - 1).is_none());
    assert_eq!(Timestamp::from_millis(last).unwrap().date(), date(MAX_YEAR, 12, 31));
    assert!(Timestamp::from_millis(last + 1).is_none());
}
