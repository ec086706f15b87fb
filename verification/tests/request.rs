use creative_report::calendar::MonthSpec;
use creative_report::request::{bearer, build_request, reviews_url, ACCEPT};

#[test]
fn reviews_url_asks_for_the_month() {
    let month = MonthSpec::new(2024, 2).unwrap();
    assert_eq!(
        reviews_url("example.com", "PRJ", "jane", &month),
        "https://example.com/api/http/projects/id:PRJ/code-reviews?state=&author=jane&from=2024-02-01&to=2024-02-29&$fields=data(review(title,createdAt,state,number,project))"
    );
}

#[test]
fn reviews_url_in_december() {
    let month = MonthSpec::new(2023, 12).unwrap();
    let url = reviews_url("d", "p", "a", &month);
    assert!(url.contains("&from=2023-12-01&to=2023-12-31&"));
}

#[test]
fn bearer_puts_the_word_before_the_token() {
    assert_eq!(bearer("abc123"), "Bearer abc123");
    assert_eq!(bearer(""), "Bearer ");
}

#[test]
fn build_request_has_address_and_headers() {
    let month = MonthSpec::new(2021, 9).unwrap();
    let request = build_request("example.com", "PRJ", "jane", &month, "t0k3n");
    assert_eq!(request.url, reviews_url("example.com", "PRJ", "jane", &month));
    assert!(request.url.starts_with("https://example.com/api/http/projects/id:PRJ/code-reviews?"));
    assert!(request.url.contains("&from=2021-09-01&to=2021-09-30&"));
    assert_eq!(request.authorization, "Bearer t0k3n");
    assert_eq!(request.accept, "application/json");
    assert_eq!(ACCEPT, "application/json");
}
