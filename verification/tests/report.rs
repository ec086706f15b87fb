use creative_report::calendar::{Date, MonthSpec, MIN_YEAR};
use creative_report::report::{
    declaration, request_for, target_month, target_month_on, Config, ReportError,
};
use creative_report::review::{DecodeError, DecodeFault, Field, RawReview};
use creative_report::template::TEMPLATE;

fn config() -> Config {
    Config {
        domain: "example.com".to_string(),
        project_id: "PRJ".to_string(),
        token: "t0k3n".to_string(),
        user_id: "jane".to_string(),
        user_name: "Jane Doe".to_string(),
        percent_creative: 80,
    }
}

fn reported(number: i32, title: &str, state: &str, created_at: i64) -> RawReview {
    RawReview {
        number: Some(number),
        title: Some(title.to_string()),
        state: Some(state.to_string()),
        project_key: Some("BAZEL".to_string()),
        created_at: Some(created_at),
    }
}

#[test]
fn target_month_takes_the_month_given() {
    let today = Date::new(2024, 3, 15).unwrap();
    assert_eq!(target_month_on(Some("2023-11"), &today), Ok(MonthSpec::new(2023, 11).unwrap()));
    assert_eq!(target_month(Some("2023-11")), Ok(MonthSpec::new(2023, 11).unwrap()));
}

#[test]
fn target_month_without_argument_is_the_previous_month() {
    let today = Date::new(2024, 3, 15).unwrap();
    let month = target_month_on(None, &today).unwrap();
    assert_eq!(month, MonthSpec::new(2024, 2).unwrap());
    assert_eq!(month.start_date(), Date::new(2024, 2, 1).unwrap());
    assert_eq!(month.end_date(), Date::new(2024, 2, 29).unwrap());
}

#[test]
fn target_month_by_the_clock() {
    let before = Date::today();
    let month = target_month(None);
    let after = Date::today();
    if before == after {
        match before {
            Some(today) => assert_eq!(month, target_month_on(None, &today)),
            None => assert_eq!(month, Err(ReportError::ClockOutOfRange)),
        }
    }
    match month {
        Ok(month) => assert!(month.year() >= 1969),
        Err(error) => assert_eq!(error, ReportError::ClockOutOfRange),
    }
}

#[test]
fn malformed_month_is_an_input_error() {
    let today = Date::new(2024, 3, 15).unwrap();
    assert_eq!(target_month_on(Some("2024-13"), &today), Err(ReportError::MalformedMonth));
    assert_eq!(target_month_on(Some("March"), &today), Err(ReportError::MalformedMonth));
    assert_eq!(target_month_on(Some(""), &today), Err(ReportError::MalformedMonth));
    assert_eq!(target_month(Some("2024-3-1")), Err(ReportError::MalformedMonth));
}

#[test]
fn no_month_lies_before_the_first() {
    let first = Date::new(MIN_YEAR, 1, 20).unwrap();
    assert_eq!(target_month_on(None, &first), Err(ReportError::NoEarlierMonth));
    assert!(target_month_on(Some("2024-02"), &first).is_ok());
}

#[test]
fn request_for_takes_what_the_run_is_configured_with() {
    let request = request_for(&config(), &MonthSpec::new(2024, 2).unwrap());
    assert_eq!(
        request.url,
        "https://example.com/api/http/projects/id:PRJ/code-reviews?state=&author=jane&from=2024-02-01&to=2024-02-29&$fields=data(review(title,createdAt,state,number,project))"
    );
    assert_eq!(request.authorization, "Bearer t0k3n");
    assert_eq!(request.accept, "application/json");
}

#[test]
fn declaration_decodes_and_renders() {
    let reviews = vec![
        reported(10, "first", "Opened", 1_709_208_000_000),
        reported(11, "second", "Deleted", 1_709_208_000_000),
        reported(12, "third", "Closed", 1_706_745_600_000),
    ];
    let document = declaration(&config(), &MonthSpec::new(2024, 2).unwrap(), &reviews).unwrap();
    let rows = "| 1 | first | Jane Doe | [https://example.com/p/BAZEL/reviews/10](https://example.com/p/BAZEL/reviews/10) | Unfinished | 29.02.2024 |\n| 2 | third | Jane Doe | [https://example.com/p/BAZEL/reviews/12](https://example.com/p/BAZEL/reviews/12) | Finished | 01.02.2024 |";
    let expected = TEMPLATE
        .replace("{prs}", rows)
        .replace("{month}", "02.2024")
        .replace("{percent_creative}", "80")
        .replace("{last_day_of_month}", "29.02.2024");
    assert_eq!(document, expected);
}

#[test]
fn declaration_fails_as_a_whole_on_an_invalid_timestamp() {
    let reviews = vec![
        reported(10, "first", "Opened", 1_709_208_000_000),
        reported(11, "second", "Closed", i64::MAX),
    ];
    assert_eq!(
        declaration(&config(), &MonthSpec::new(2024, 2).unwrap(), &reviews),
        Err(ReportError::Decode(DecodeError { index: 1, fault: DecodeFault::InvalidTimestamp }))
    );
}

#[test]
fn declaration_fails_as_a_whole_on_an_unknown_state() {
    let reviews = vec![
        reported(10, "first", "Merged", 1_709_208_000_000),
        reported(11, "second", "Closed", 1_709_208_000_000),
    ];
    assert_eq!(
        declaration(&config(), &MonthSpec::new(2024, 2).unwrap(), &reviews),
        Err(ReportError::Decode(DecodeError { index: 0, fault: DecodeFault::UnknownState }))
    );
}

#[test]
fn messages_name_what_is_at_fault() {
    assert_eq!(ReportError::MalformedMonth.message(), "Invalid date format, use YYYY-MM");
    assert_eq!(
        ReportError::NoEarlierMonth.message(),
        "there is no month before the current one"
    );
    assert_eq!(
        ReportError::ClockOutOfRange.message(),
        "the system clock shows no date from 1970 on"
    );
    assert_eq!(
        ReportError::Decode(DecodeError { index: 12, fault: DecodeFault::UnknownState }).message(),
        "review 12: its state is none of Opened, Closed and Deleted"
    );
    assert_eq!(
        ReportError::Decode(DecodeError { index: 0, fault: DecodeFault::InvalidTimestamp })
            .message(),
        "review 0: its time of creation is out of range"
    );
    assert_eq!(
        ReportError::Decode(DecodeError { index: 3, fault: DecodeFault::Missing(Field::Number) })
            .message(),
        "review 3: it lacks the field number"
    );
    let error = DecodeError { index: 4, fault: DecodeFault::Missing(Field::ProjectKey) };
    assert_eq!(ReportError::Decode(error).message(), "review 4: it lacks the field project.key");
    let error = DecodeError { index: 5, fault: DecodeFault::Missing(Field::CreatedAt) };
    assert_eq!(ReportError::Decode(error).message(), "review 5: it lacks the field createdAt");
    let error = DecodeError { index: 6, fault: DecodeFault::Missing(Field::Title) };
    assert_eq!(ReportError::Decode(error).message(), "review 6: it lacks the field title");
    let error = DecodeError { index: 7, fault: DecodeFault::Missing(Field::State) };
    assert_eq!(ReportError::Decode(error).message(), "review 7: it lacks the field state");
}
