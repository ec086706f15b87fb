use creative_report::calendar::{MonthSpec, Timestamp};
use creative_report::render::{
    escape_title, fill_template, render_pr, render_rows, render_template, review_url,
    status_label,
};
use creative_report::review::{ProjectRef, ReviewEntry, ReviewState};
use creative_report::template::{
    LAST_DAY_TOKEN, MONTH_TOKEN, PERCENT_TOKEN, ROWS_TOKEN, TEMPLATE,
};

// 2024-02-29T12:00:00Z
const LEAP_DAY_NOON: i64 = 1_709_208_000_000;

fn entry(number: i32, title: &str, state: ReviewState) -> ReviewEntry {
    ReviewEntry {
        number,
        title: title.to_string(),
        state,
        project: ProjectRef { key: "BAZEL".to_string() },
        created_at: Timestamp::from_millis(LEAP_DAY_NOON).unwrap(),
    }
}

fn february() -> MonthSpec {
    MonthSpec::new(2024, 2).unwrap()
}

#[test]
fn review_url_follows_the_pattern() {
    assert_eq!(
        review_url("example.com", "BAZEL", 42),
        "https://example.com/p/BAZEL/reviews/42"
    );
    assert_eq!(review_url("d", "K", 0), "https://d/p/K/reviews/0");
    assert_eq!(review_url("d", "K", -7), "https://d/p/K/reviews/-7");
    assert_eq!(review_url("d", "K", i32::MAX), "https://d/p/K/reviews/2147483647");
    assert_eq!(review_url("d", "K", i32::MIN), "https://d/p/K/reviews/-2147483648");
}

#[test]
fn status_label_of_each_state() {
    assert_eq!(status_label(ReviewState::Opened), Some("Unfinished"));
    assert_eq!(status_label(ReviewState::Closed), Some("Finished"));
    assert_eq!(status_label(ReviewState::Deleted), None);
}

#[test]
fn title_escaping() {
    assert_eq!(escape_title("A|B"), "A\\|B");
    assert_eq!(escape_title("||"), "\\|\\|");
    assert_eq!(escape_title("no bar"), "no bar");
    assert_eq!(escape_title(""), "");
    assert_eq!(escape_title("A\\|B"), "A\\\\|B");
    let row = render_pr(1, &entry(5, "A|B", ReviewState::Opened), "example.com", "Jane").unwrap();
    let cells: Vec<&str> = row.split(" | ").collect();
    assert_eq!(cells[1], "A\\|B");
}

#[test]
fn render_pr_writes_the_six_cells_in_order() {
    let row = render_pr(3, &entry(42, "Fix A|B", ReviewState::Closed), "example.com", "Jane Doe");
    assert_eq!(
        row,
        Some(
            "| 3 | Fix A\\|B | Jane Doe | [https://example.com/p/BAZEL/reviews/42](https://example.com/p/BAZEL/reviews/42) | Finished | 29.02.2024 |"
                .to_string()
        )
    );
    let row = render_pr(1, &entry(7, "Draft", ReviewState::Opened), "s.example", "J");
    assert_eq!(
        row,
        Some(
            "| 1 | Draft | J | [https://s.example/p/BAZEL/reviews/7](https://s.example/p/BAZEL/reviews/7) | Unfinished | 29.02.2024 |"
                .to_string()
        )
    );
}

#[test]
fn render_pr_shows_no_deleted_review() {
    assert_eq!(render_pr(1, &entry(42, "gone", ReviewState::Deleted), "example.com", "J"), None);
}

#[test]
fn render_pr_takes_large_row_numbers() {
    let row = render_pr(usize::MAX, &entry(1, "t", ReviewState::Opened), "d", "a").unwrap();
    assert!(row.starts_with(&format!("| {} | t | a | ", usize::MAX)));
}

#[test]
fn row_index_renumbering() {
    let entries = vec![
        entry(10, "first", ReviewState::Opened),
        entry(11, "second", ReviewState::Deleted),
        entry(12, "third", ReviewState::Closed),
        entry(13, "fourth", ReviewState::Opened),
    ];
    let rows = render_rows(&entries, "example.com", "Jane");
    assert_eq!(rows.len(), 3);
    assert!(rows[0].starts_with("| 1 | first | Jane | "));
    assert!(rows[1].starts_with("| 2 | third | Jane | "));
    assert!(rows[2].starts_with("| 3 | fourth | Jane | "));
    assert!(rows[1].contains("/reviews/12]"));
    assert!(rows[1].ends_with(" | Finished | 29.02.2024 |"));
    assert_eq!(Some(rows[0].clone()), render_pr(1, &entries[0], "example.com", "Jane"));
    assert_eq!(Some(rows[1].clone()), render_pr(2, &entries[2], "example.com", "Jane"));
    assert_eq!(Some(rows[2].clone()), render_pr(3, &entries[3], "example.com", "Jane"));
}

#[test]
fn render_rows_of_deleted_reviews_only() {
    let entries = vec![entry(1, "a", ReviewState::Deleted), entry(2, "b", ReviewState::Deleted)];
    assert_eq!(render_rows(&entries, "d", "a"), Vec::<String>::new());
    assert_eq!(render_rows(&Vec::new(), "d", "a"), Vec::<String>::new());
}

#[test]
fn render_rows_keeps_the_order_of_the_response() {
    let entries = vec![
        entry(30, "z", ReviewState::Closed),
        entry(10, "a", ReviewState::Closed),
        entry(20, "m", ReviewState::Closed),
    ];
    let rows = render_rows(&entries, "d", "a");
    assert!(rows[0].starts_with("| 1 | z | "));
    assert!(rows[1].starts_with("| 2 | a | "));
    assert!(rows[2].starts_with("| 3 | m | "));
}

#[test]
fn empty_input_list_renders_an_empty_table_body() {
    let document = render_template(&Vec::new(), &february(), 80, "example.com", "Jane");
    let head = "| --- | ----------------------------------------------- | ------------------- | ------------------------ | ---------------- | -------------------- |\n";
    let after = "\n\n### Total % of actual working time spent by creative time: 80%\n";
    assert!(document.contains(&format!("{}{}", head, after)));
    assert!(document.starts_with("\n---\ntitle: \"Formularz rejestracji czasu pracy twórczej\"\n"));
    assert!(document.ends_with("(i.e., excluding absences at work).\n"));
    assert!(document.contains("## Oświadczenie Pracownika"));
    assert!(document.contains("## Employee’s declaration"));
    let expected = TEMPLATE
        .replace("{prs}", "")
        .replace("{month}", "02.2024")
        .replace("{percent_creative}", "80")
        .replace("{last_day_of_month}", "29.02.2024");
    assert_eq!(document, expected);
}

#[test]
fn placeholders_are_all_replaced() {
    let entries = vec![
        entry(10, "first", ReviewState::Opened),
        entry(11, "second", ReviewState::Deleted),
        entry(12, "third | fourth", ReviewState::Closed),
    ];
    let document = render_template(&entries, &february(), 75, "example.com", "Jane Doe");
    for token in [ROWS_TOKEN, MONTH_TOKEN, PERCENT_TOKEN, LAST_DAY_TOKEN] {
        assert!(TEMPLATE.contains(token));
        assert!(!document.contains(token));
    }
    assert!(!document.contains('{'));
    assert_eq!(document.matches("29.02.2024").count(), 2 + 2);
    assert_eq!(document.matches("02.2024").count(), 2 + 2 + 1);
    assert!(document.contains("date: \"29.02.2024\"\n"));
    assert!(document.contains("\nWarszawa, 29.02.2024\n"));
    assert!(document.contains("Concerns the month of: 02.2024\n"));
    assert!(document.contains("creative time: 75%\n"));
    assert!(document.contains("wyniósł 75 procent."));
    assert!(document.contains("for 75 percent of the entire effective working time"));
}

#[test]
fn render_template_puts_the_rows_into_the_table() {
    let entries = vec![
        entry(10, "first", ReviewState::Opened),
        entry(11, "second", ReviewState::Deleted),
        entry(12, "third", ReviewState::Closed),
    ];
    let document = render_template(&entries, &february(), 50, "example.com", "Jane");
    let rows = "| 1 | first | Jane | [https://example.com/p/BAZEL/reviews/10](https://example.com/p/BAZEL/reviews/10) | Unfinished | 29.02.2024 |\n| 2 | third | Jane | [https://example.com/p/BAZEL/reviews/12](https://example.com/p/BAZEL/reviews/12) | Finished | 29.02.2024 |";
    assert!(document.contains(&format!("-- |\n{}\n\n### Total", rows)));
    let expected = TEMPLATE
        .replace("{prs}", rows)
        .replace("{month}", "02.2024")
        .replace("{percent_creative}", "50")
        .replace("{last_day_of_month}", "29.02.2024");
    assert_eq!(document, expected);
}

#[test]
fn render_template_shows_the_last_day_of_the_month() {
    let december = MonthSpec::new(2023, 12).unwrap();
    let document = render_template(&Vec::new(), &december, 100, "d", "a");
    assert!(document.contains("\nWarszawa, 31.12.2023\n"));
    assert!(document.contains("Concerns the month of: 12.2023\n"));
    let february_2023 = MonthSpec::new(2023, 2).unwrap();
    let document = render_template(&Vec::new(), &february_2023, 100, "d", "a");
    assert!(document.contains("\nWarszawa, 28.02.2023\n"));
}

#[test]
fn render_template_writes_a_negative_percentage_as_it_is() {
    let document = render_template(&Vec::new(), &february(), -5, "d", "a");
    assert!(document.contains("creative time: -5%\n"));
    let document = render_template(&Vec::new(), &february(), i32::MIN, "d", "a");
    assert!(document.contains("creative time: -2147483648%\n"));
}

#[test]
fn later_placeholders_are_replaced_in_the_rows_too() {
    let entries = vec![entry(1, "about {month} and {prs}", ReviewState::Opened)];
    let document = render_template(&entries, &february(), 50, "d", "a");
    assert!(document.contains("| 1 | about 02.2024 and {prs} | a | "));
}

#[test]
fn fill_template_replaces_in_the_order_rows_month_percent_day() {
    let document = fill_template("ROWS", "MONTH", "PERCENT", "DAY");
    let expected = TEMPLATE
        .replace("{prs}", "ROWS")
        .replace("{month}", "MONTH")
        .replace("{percent_creative}", "PERCENT")
        .replace("{last_day_of_month}", "DAY");
    assert_eq!(document, expected);
    assert_eq!(document.matches("ROWS").count(), 1);
    assert_eq!(document.matches("MONTH").count(), 1);
    assert_eq!(document.matches("PERCENT").count(), 3);
    assert_eq!(document.matches("DAY").count(), 2);
    let document = fill_template("{month}", "{percent_creative}", "{last_day_of_month}", "x");
    assert_eq!(document.matches("x").count() - TEMPLATE.matches("x").count(), 1 + 1 + 3 + 2);
}

fn char_range(text: &str, from: usize, to: usize) -> String {
    text.chars().skip(from).take(to - from).collect()
}

#[test]
fn template_holds_its_placeholders_where_the_library_says() {
    assert_eq!(TEMPLATE.chars().count(), 2001);
    assert_eq!(char_range(TEMPLATE, 812, 817), ROWS_TOKEN);
    assert_eq!(char_range(TEMPLATE, 102, 121), LAST_DAY_TOKEN);
    assert_eq!(char_range(TEMPLATE, 227, 246), LAST_DAY_TOKEN);
    assert_eq!(char_range(TEMPLATE, 516, 523), MONTH_TOKEN);
    assert_eq!(char_range(TEMPLATE, 878, 896), PERCENT_TOKEN);
    assert_eq!(char_range(TEMPLATE, 1435, 1453), PERCENT_TOKEN);
    assert_eq!(char_range(TEMPLATE, 1901, 1919), PERCENT_TOKEN);
    assert_eq!(TEMPLATE.matches('{').count(), 7);
    assert_eq!(TEMPLATE.matches(ROWS_TOKEN).count(), 1);
}

#[test]
fn document_keeps_the_fixed_text_of_the_template() {
    let entries = vec![
        entry(10, "first", ReviewState::Opened),
        entry(12, "about {month} and {prs}", ReviewState::Closed),
    ];
    let rows = render_rows(&entries, "example.com", "Jane").join("\n");
    let rows = rows.replace("{month}", "02.2024");
    let document = render_template(&entries, &february(), 75, "example.com", "Jane");
    let expected = [
        char_range(TEMPLATE, 0, 102),
        "29.02.2024".to_string(),
        char_range(TEMPLATE, 121, 227),
        "29.02.2024".to_string(),
        char_range(TEMPLATE, 246, 516),
        "02.2024".to_string(),
        char_range(TEMPLATE, 523, 812),
        rows,
        char_range(TEMPLATE, 817, 878),
        "75".to_string(),
        char_range(TEMPLATE, 896, 1435),
        "75".to_string(),
        char_range(TEMPLATE, 1453, 1901),
        "75".to_string(),
        char_range(TEMPLATE, 1919, 2001),
    ]
    .concat();
    assert_eq!(document, expected);
    assert!(document.contains(ROWS_TOKEN));
    assert!(!document.contains(MONTH_TOKEN));
    assert!(!document.contains(PERCENT_TOKEN));
    assert!(!document.contains(LAST_DAY_TOKEN));
}

#[test]
fn declaration_without_reviews_is_the_fixed_text_with_the_values() {
    let document = render_template(&Vec::new(), &february(), 80, "example.com", "Jane");
    let expected = [
        char_range(TEMPLATE, 0, 102),
        "29.02.2024".to_string(),
        char_range(TEMPLATE, 121, 227),
        "29.02.2024".to_string(),
        char_range(TEMPLATE, 246, 516),
        "02.2024".to_string(),
        char_range(TEMPLATE, 523, 812),
        char_range(TEMPLATE, 817, 878),
        "80".to_string(),
        char_range(TEMPLATE, 896, 1435),
        "80".to_string(),
        char_range(TEMPLATE, 1453, 1901),
        "80".to_string(),
        char_range(TEMPLATE, 1919, 2001),
    ]
    .concat();
    assert_eq!(document, expected);
}

#[test]
fn no_placeholder_is_left_where_no_field_holds_the_rows_token() {
    let entries = vec![
        entry(1, "{p|rs} and {month} and {pr", ReviewState::Opened),
        entry(2, "s} {percent_creative}{last_day_of_month}", ReviewState::Closed),
        entry(3, "{prs}", ReviewState::Deleted),
    ];
    let document = render_template(&entries, &february(), 75, "{prs", "prs}");
    for token in [ROWS_TOKEN, MONTH_TOKEN, PERCENT_TOKEN, LAST_DAY_TOKEN] {
        assert!(!document.contains(token));
    }
    assert!(document.contains("| 1 | {p\\|rs} and 02.2024 and {pr | prs} | "));
    assert!(document.contains("| 2 | s} 7529.02.2024 | prs} | [https://{prs/p/BAZEL/reviews/2]"));
}

#[test]
fn the_rows_token_is_left_where_a_field_holds_it() {
    let entries = vec![entry(1, "t", ReviewState::Opened)];
    let document = render_template(&entries, &february(), 75, "d", "Jane {prs}");
    assert!(document.contains(ROWS_TOKEN));
    let document = render_template(&entries, &february(), 75, "{prs}.example", "Jane");
    assert!(document.contains(ROWS_TOKEN));
}
