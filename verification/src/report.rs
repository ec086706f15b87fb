//! A run from its inputs to the declaration: which month it concerns, what is
//! asked of the review service, and what is made of the answer.

use crate::calendar::{
    chrono_parsed_date, previous_month_of, Date, DateModel, MonthModel, MonthSpec,
};
use crate::render::{declaration_text, render_template};
use crate::request::{bearer_text, build_request, reviews_url_text, ReviewRequest, ACCEPT};
use crate::review::{
    decode_reviews, decoded_all, DecodeError, DecodeFault, Field, RawReview,
};
use crate::text::{decimal_text, push_natural};
use vstd::prelude::*;
use vstd::string::StringExecFns;

verus! {

/// What a run is configured with.
#[derive(Clone, Debug, PartialEq, Eq)]
pub struct Config {
    /// The host name of the review service.
    pub domain: String,
    pub project_id: String,
    /// The token that the service knows the caller by.
    pub token: String,
    /// The author whose reviews are asked for.
    pub user_id: String,
    /// The author's name as the declaration shows it.
    pub user_name: String,
    /// The share of working time spent on creative work, in percent.
    pub percent_creative: i32,
}

/// Why a run ends without a declaration.
#[derive(Clone, Copy, Debug, PartialEq, Eq)]
pub enum ReportError {
    /// The month given is not of the form `YYYY-MM`.
    MalformedMonth,
    /// No month was given, and the month of the date that the run was given
    /// for today is the first that can be held.
    NoEarlierMonth,
    /// No month was given, and the system clock shows no date from 1970 on
    /// that can be held.
    ClockOutOfRange,
    /// A review of the response could not be decoded.
    Decode(DecodeError),
}

/// The month that a run concerns: the one written in `argument`, and without
/// an argument the month before the one that `today` lies in.
pub open spec fn target_month_model(argument: Option<Seq<char>>, today: DateModel) -> Result<
    MonthModel,
    ReportError,
> {
    match argument {
        Some(text) => match chrono_parsed_date(text + "-01"@) {
            Some(date) => Ok(MonthModel { year: date.0, month: date.1 }),
            None => Err(ReportError::MalformedMonth),
        },
        None => if today.month().prev().valid() {
            Ok(today.month().prev())
        } else {
            Err(ReportError::NoEarlierMonth)
        },
    }
}

/// The text of an argument, where there is one.
pub open spec fn argument_text(argument: Option<&str>) -> Option<Seq<char>> {
    match argument {
        Some(text) => Some(text@),
        None => None,
    }
}

/// The month or the error of an outcome.
pub open spec fn outcome(r: Result<MonthSpec, ReportError>) -> Result<MonthModel, ReportError> {
    match r {
        Ok(month) => Ok(month@),
        Err(error) => Err(error),
    }
}

/// The month that a run concerns, `today` being the current date.
pub fn target_month_on(argument: Option<&str>, today: &Date) -> (r: Result<MonthSpec, ReportError>)
    ensures
        outcome(r) == target_month_model(argument_text(argument), today@),
        r matches Ok(month) ==> month.wf(),
{
    match argument {
        Some(text) => match MonthSpec::parse(text) {
            Some(month) => Ok(month),
            None => Err(ReportError::MalformedMonth),
        },
        None => match previous_month_of(today) {
            Some(month) => Ok(month),
            None => Err(ReportError::NoEarlierMonth),
        },
    }
}

/// The month that a run concerns. The clock is read only where no month is
/// given, and then the month is the one before the current month by that
/// clock, in UTC, or the error that the clock shows no date.
pub fn target_month(argument: Option<&str>) -> (r: Result<MonthSpec, ReportError>)
    ensures
        argument is Some ==> forall|today: DateModel|
            outcome(r) == #[trigger] target_month_model(argument_text(argument), today),
        argument is None ==> (r matches Ok(month) ==> exists|today: DateModel|
            {
                &&& today.valid()
                &&& today.year >= 1970
                &&& month@ == (#[trigger] today.month()).prev()
            }),
        argument is None ==> (r matches Err(error) ==> error == ReportError::ClockOutOfRange),
        r matches Ok(month) ==> month.wf(),
{
    match argument {
        Some(text) => match MonthSpec::parse(text) {
            Some(month) => Ok(month),
            None => Err(ReportError::MalformedMonth),
        },
        None => match Date::today() {
            Some(today) => target_month_on(None, &today),
            None => Err(ReportError::ClockOutOfRange),
        },
    }
}

/// The request that a run sends for `month`.
pub fn request_for(config: &Config, month: &MonthSpec) -> (request: ReviewRequest)
    ensures
        request.url@ == reviews_url_text(
            config.domain@,
            config.project_id@,
            config.user_id@,
            month@,
        ),
        request.authorization@ == bearer_text(config.token@),
        request.accept@ == ACCEPT@,
{
    build_request(
        config.domain.as_str(),
        config.project_id.as_str(),
        config.user_id.as_str(),
        month,
        config.token.as_str(),
    )
}

/// The declaration for `month` from the reviews that the service reported, or
/// the first of them that cannot be decoded.
pub fn declaration(config: &Config, month: &MonthSpec, reported: &Vec<RawReview>) -> (r: Result<
    String,
    ReportError,
>)
    ensures
        r is Ok <==> forall|i: int|
            0 <= i < reported@.len() ==> (#[trigger] reported@[i])@.fault() is None,
        r matches Ok(document) ==> document@ == declaration_text(
            decoded_all(reported@),
            month@,
            config.percent_creative as int,
            config.domain@,
            config.user_name@,
        ),
        r matches Err(error) ==> error matches ReportError::Decode(first) && {
            &&& first.index < reported@.len()
            &&& reported@[first.index as int]@.fault() == Some(first.fault)
            &&& forall|i: int| 0 <= i < first.index ==> (#[trigger] reported@[i])@.fault() is None
        },
{
    match decode_reviews(reported) {
        Ok(entries) => {
            let document = render_template(
                &entries,
                month,
                config.percent_creative,
                config.domain.as_str(),
                config.user_name.as_str(),
            );
            Ok(document)
        },
        Err(error) => Err(ReportError::Decode(error)),
    }
}

/// The name of a field in what the service reports.
pub open spec fn field_text(field: Field) -> Seq<char> {
    match field {
        Field::Number => "number"@,
        Field::Title => "title"@,
        Field::State => "state"@,
        Field::ProjectKey => "project.key"@,
        Field::CreatedAt => "createdAt"@,
    }
}

/// What a fault says of a review.
pub open spec fn fault_text(fault: DecodeFault) -> Seq<char> {
    match fault {
        DecodeFault::Missing(field) => "it lacks the field "@ + field_text(field),
        DecodeFault::UnknownState => "its state is none of Opened, Closed and Deleted"@,
        DecodeFault::InvalidTimestamp => "its time of creation is out of range"@,
    }
}

/// What an error says to the one who started the run.
pub open spec fn message_text(error: ReportError) -> Seq<char> {
    match error {
        ReportError::MalformedMonth => "Invalid date format, use YYYY-MM"@,
        ReportError::NoEarlierMonth => "there is no month before the current one"@,
        ReportError::ClockOutOfRange => "the system clock shows no date from 1970 on"@,
        ReportError::Decode(first) => "review "@ + decimal_text(first.index as int) + ": "@
            + fault_text(first.fault),
    }
}

/// The name of a field in what the service reports.
pub fn field_name(field: Field) -> (name: &'static str)
    ensures
        name@ == field_text(field),
{
    match field {
        Field::Number => "number",
        Field::Title => "title",
        Field::State => "state",
        Field::ProjectKey => "project.key",
        Field::CreatedAt => "createdAt",
    }
}

impl ReportError {
    /// What the error says to the one who started the run: which input or
    /// which review of the response is at fault.
    pub fn message(&self) -> (text: String)
        ensures
            text@ == message_text(*self),
    {
        match self {
            ReportError::MalformedMonth => String::from_str("Invalid date format, use YYYY-MM"),
            ReportError::NoEarlierMonth => String::from_str(
                "there is no month before the current one",
            ),
            ReportError::ClockOutOfRange => String::from_str(
                "the system clock shows no date from 1970 on",
            ),
            ReportError::Decode(first) => {
                let mut text = String::from_str("review ");
                push_natural(&mut text, first.index as u64);
                text.append(": ");
                match first.fault {
                    DecodeFault::Missing(field) => {
                        text.append("it lacks the field ");
                        text.append(field_name(field));
                    },
                    DecodeFault::UnknownState => text.append(
                        "its state is none of Opened, Closed and Deleted",
                    ),
                    DecodeFault::InvalidTimestamp => text.append(
                        "its time of creation is out of range",
                    ),
                }
                text
            },
        }
    }
}

} // verus!
