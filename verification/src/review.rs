//! Reviews as the review service reports them, and their decoding into typed
//! entries.

use crate::calendar::{instant, instant_in_range, InstantModel, Timestamp};
use crate::text::same_text;
use vstd::prelude::*;

verus! {

/// The state of a review.
#[derive(Clone, Copy, Debug, PartialEq, Eq)]
pub enum ReviewState {
    Opened,
    Closed,
    Deleted,
}

impl ReviewState {
    /// The word that the review service uses for the state.
    pub open spec fn token_text(self) -> Seq<char> {
        match self {
            ReviewState::Opened => "Opened"@,
            ReviewState::Closed => "Closed"@,
            ReviewState::Deleted => "Deleted"@,
        }
    }

    /// The state that a word of the review service stands for, if any. The
    /// three words are told apart by case.
    pub open spec fn of_token(token: Seq<char>) -> Option<ReviewState> {
        if token == "Opened"@ {
            Some(ReviewState::Opened)
        } else if token == "Closed"@ {
            Some(ReviewState::Closed)
        } else if token == "Deleted"@ {
            Some(ReviewState::Deleted)
        } else {
            None
        }
    }

    /// The state that `token` stands for; `None` for any other word.
    pub fn from_token(token: &str) -> (r: Option<ReviewState>)
        ensures
            r == Self::of_token(token@),
    {
        if same_text(token, "Opened") {
            Some(ReviewState::Opened)
        } else if same_text(token, "Closed") {
            Some(ReviewState::Closed)
        } else if same_text(token, "Deleted") {
            Some(ReviewState::Deleted)
        } else {
            None
        }
    }

    /// The word that the review service uses for the state.
    pub fn token(&self) -> (word: &'static str)
        ensures
            word@ == self.token_text(),
    {
        match self {
            ReviewState::Opened => "Opened",
            ReviewState::Closed => "Closed",
            ReviewState::Deleted => "Deleted",
        }
    }
}

/// Each state is the one that its own word stands for.
pub proof fn lemma_token_names_its_state(state: ReviewState)
    ensures
        ReviewState::of_token(state.token_text()) == Some(state),
{
    reveal_strlit("Opened");
    reveal_strlit("Closed");
    reveal_strlit("Deleted");
    match state {
        ReviewState::Opened => {},
        ReviewState::Closed => {
            assert("Closed"@[0] != "Opened"@[0]);
        },
        ReviewState::Deleted => {
            assert("Deleted"@.len() != "Opened"@.len());
        },
    }
}

/// The project that a review belongs to.
#[derive(Clone, Debug, PartialEq, Eq)]
pub struct ProjectRef {
    /// The project's short key, as it stands in addresses.
    pub key: String,
}

/// A review as the service reports it: each field as far as the service gave
/// it, the state and the time of creation not yet decoded.
#[derive(Clone, Debug, PartialEq, Eq)]
pub struct RawReview {
    pub number: Option<i32>,
    pub title: Option<String>,
    pub state: Option<String>,
    pub project_key: Option<String>,
    /// Milliseconds from the start of 1970 in UTC.
    pub created_at: Option<i64>,
}

pub struct RawReviewModel {
    pub number: Option<int>,
    pub title: Option<Seq<char>>,
    pub state: Option<Seq<char>>,
    pub project_key: Option<Seq<char>>,
    pub created_at: Option<int>,
}

/// What a string holds, where there is one.
pub open spec fn text_of(field: Option<String>) -> Option<Seq<char>> {
    match field {
        Some(text) => Some(text@),
        None => None,
    }
}

impl View for RawReview {
    type V = RawReviewModel;

    open spec fn view(&self) -> RawReviewModel {
        RawReviewModel {
            number: match self.number {
                Some(number) => Some(number as int),
                None => None,
            },
            title: text_of(self.title),
            state: text_of(self.state),
            project_key: text_of(self.project_key),
            created_at: match self.created_at {
                Some(millis) => Some(millis as int),
                None => None,
            },
        }
    }
}

/// A review with its state and its time of creation decoded.
#[derive(Clone, Debug, PartialEq, Eq)]
pub struct ReviewEntry {
    pub number: i32,
    pub title: String,
    pub state: ReviewState,
    pub project: ProjectRef,
    pub created_at: Timestamp,
}

pub struct ReviewModel {
    pub number: int,
    pub title: Seq<char>,
    pub state: ReviewState,
    pub project_key: Seq<char>,
    pub created_at: InstantModel,
}

impl View for ReviewEntry {
    type V = ReviewModel;

    open spec fn view(&self) -> ReviewModel {
        ReviewModel {
            number: self.number as int,
            title: self.title@,
            state: self.state,
            project_key: self.project.key@,
            created_at: self.created_at@,
        }
    }
}

/// The fields of a reported review, in the order in which they are looked at.
#[derive(Clone, Copy, Debug, PartialEq, Eq)]
pub enum Field {
    Number,
    Title,
    State,
    ProjectKey,
    CreatedAt,
}

/// What can be wrong with one reported review.
#[derive(Clone, Copy, Debug, PartialEq, Eq)]
pub enum DecodeFault {
    /// The review lacks a field.
    Missing(Field),
    /// The state is none of the three known words.
    UnknownState,
    /// The time of creation is no instant that can be held.
    InvalidTimestamp,
}

/// The first review of a response that could not be decoded, by its position
/// in the response, and what is wrong with it.
#[derive(Clone, Copy, Debug, PartialEq, Eq)]
pub struct DecodeError {
    pub index: usize,
    pub fault: DecodeFault,
}

impl RawReviewModel {
    /// What is wrong with the review: the first fault found when number, title,
    /// state, project key and time of creation are looked at in this order.
    /// `None` where the review can be decoded.
    pub open spec fn fault(self) -> Option<DecodeFault> {
        if self.number is None {
            Some(DecodeFault::Missing(Field::Number))
        } else if self.title is None {
            Some(DecodeFault::Missing(Field::Title))
        } else if self.state is None {
            Some(DecodeFault::Missing(Field::State))
        } else if ReviewState::of_token(self.state->0) is None {
            Some(DecodeFault::UnknownState)
        } else if self.project_key is None {
            Some(DecodeFault::Missing(Field::ProjectKey))
        } else if self.created_at is None {
            Some(DecodeFault::Missing(Field::CreatedAt))
        } else if !instant_in_range(self.created_at->0) {
            Some(DecodeFault::InvalidTimestamp)
        } else {
            None
        }
    }

    /// The entry that holds what this review reports.
    pub open spec fn decoded(self) -> ReviewModel
        recommends
            self.fault() is None,
    {
        ReviewModel {
            number: self.number->0,
            title: self.title->0,
            state: ReviewState::of_token(self.state->0)->0,
            project_key: self.project_key->0,
            created_at: instant(self.created_at->0),
        }
    }
}

/// What each of the entries holds.
pub open spec fn models(entries: Seq<ReviewEntry>) -> Seq<ReviewModel> {
    entries.map_values(|entry: ReviewEntry| entry@)
}

/// The entries that hold what the reviews report.
pub open spec fn decoded_all(reported: Seq<RawReview>) -> Seq<ReviewModel> {
    reported.map_values(|raw: RawReview| raw@.decoded())
}

/// Decodes one reported review: its state from the word for it, its time of
/// creation from milliseconds. Every field must be there.
pub fn decode_review(raw: &RawReview) -> (r: Result<ReviewEntry, DecodeFault>)
    ensures
        r is Ok <==> raw@.fault() is None,
        r matches Ok(entry) ==> entry@ == raw@.decoded(),
        r matches Err(fault) ==> raw@.fault() == Some(fault),
{
    let number = match raw.number {
        Some(number) => number,
        None => {
            return Err(DecodeFault::Missing(Field::Number));
        },
    };
    let title = match &raw.title {
        Some(title) => title.clone(),
        None => {
            return Err(DecodeFault::Missing(Field::Title));
        },
    };
    let state = match &raw.state {
        Some(word) => match ReviewState::from_token(word.as_str()) {
            Some(state) => state,
            None => {
                return Err(DecodeFault::UnknownState);
            },
        },
        None => {
            return Err(DecodeFault::Missing(Field::State));
        },
    };
    let key = match &raw.project_key {
        Some(key) => key.clone(),
        None => {
            return Err(DecodeFault::Missing(Field::ProjectKey));
        },
    };
    let created_at = match raw.created_at {
        Some(millis) => match Timestamp::from_millis(millis) {
            Some(created_at) => created_at,
            None => {
                return Err(DecodeFault::InvalidTimestamp);
            },
        },
        None => {
            return Err(DecodeFault::Missing(Field::CreatedAt));
        },
    };
    Ok(ReviewEntry { number, title, state, project: ProjectRef { key }, created_at })
}

/// Decodes the reviews of one response, in their order. The first review that
/// cannot be decoded fails the whole response.
pub fn decode_reviews(raws: &Vec<RawReview>) -> (r: Result<Vec<ReviewEntry>, DecodeError>)
    ensures
        r is Ok <==> forall|i: int| 0 <= i < raws@.len() ==> (#[trigger] raws@[i])@.fault() is None,
        r matches Ok(entries) ==> models(entries@) == decoded_all(raws@),
        r matches Err(error) ==> {
            &&& error.index < raws@.len()
            &&& raws@[error.index as int]@.fault() == Some(error.fault)
            &&& forall|i: int| 0 <= i < error.index ==> (#[trigger] raws@[i])@.fault() is None
        },
{
    let mut entries: Vec<ReviewEntry> = Vec::new();
    let mut i: usize = 0;
    while i < raws.len()
        invariant
            i <= raws.len(),
            entries@.len() == i,
            forall|j: int| 0 <= j < i ==> (#[trigger] raws@[j])@.fault() is None,
            forall|j: int| 0 <= j < i ==> (#[trigger] entries@[j])@ == raws@[j]@.decoded(),
        decreases raws.len() - i,
    {
        match decode_review(&raws[i]) {
            Ok(entry) => {
                entries.push(entry);
            },
            Err(fault) => {
                return Err(DecodeError { index: i, fault });
            },
        }
        i += 1;
    }
    assert(models(entries@) =~= decoded_all(raws@));
    Ok(entries)
}

} // verus!
