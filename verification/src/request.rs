//! The one request that asks the review service for an author's reviews of a
//! month.

use crate::calendar::{MonthModel, MonthSpec};
use vstd::prelude::*;
use vstd::string::StringExecFns;

verus! {

/// What a request asks the service to answer with.
pub const ACCEPT: &'static str = "application/json";

/// A GET request: its address and the values of its two headers.
#[derive(Clone, Debug, PartialEq, Eq)]
pub struct ReviewRequest {
    pub url: String,
    /// The value of the header `Authorization`.
    pub authorization: String,
    /// The value of the header `Accept`.
    pub accept: String,
}

/// The address that lists the reviews of `project` that `author` created from
/// the first to the last day of `month`, each with its title, time of
/// creation, state, number and project.
pub open spec fn reviews_url_text(
    domain: Seq<char>,
    project: Seq<char>,
    author: Seq<char>,
    month: MonthModel,
) -> Seq<char> {
    "https://"@ + domain + "/api/http/projects/id:"@ + project + "/code-reviews?state=&author="@
        + author + "&from="@ + month.first_day().iso_text() + "&to="@ + month.last_day().iso_text()
        + "&$fields=data(review(title,createdAt,state,number,project))"@
}

/// The value of the header that carries `token`.
pub open spec fn bearer_text(token: Seq<char>) -> Seq<char> {
    "Bearer "@ + token
}

/// The address of the request for `month`.
pub fn reviews_url(domain: &str, project: &str, author: &str, month: &MonthSpec) -> (url: String)
    ensures
        url@ == reviews_url_text(domain@, project@, author@, month@),
{
    let from = month.start_date().iso();
    let to = month.end_date().iso();
    let mut url = String::from_str("https://");
    url.append(domain);
    url.append("/api/http/projects/id:");
    url.append(project);
    url.append("/code-reviews?state=&author=");
    url.append(author);
    url.append("&from=");
    url.append(from.as_str());
    url.append("&to=");
    url.append(to.as_str());
    url.append("&$fields=data(review(title,createdAt,state,number,project))");
    url
}

/// The value of the header `Authorization` for `token`.
pub fn bearer(token: &str) -> (value: String)
    ensures
        value@ == bearer_text(token@),
{
    let mut value = String::from_str("Bearer ");
    value.append(token);
    value
}

/// The request for the reviews of `project` that `author` created in `month`.
pub fn build_request(
    domain: &str,
    project: &str,
    author: &str,
    month: &MonthSpec,
    token: &str,
) -> (request: ReviewRequest)
    ensures
        request.url@ == reviews_url_text(domain@, project@, author@, month@),
        request.authorization@ == bearer_text(token@),
        request.accept@ == ACCEPT@,
{
    ReviewRequest {
        url: reviews_url(domain, project, author, month),
        authorization: bearer(token),
        accept: String::from_str(ACCEPT),
    }
}

} // verus!
