//! The processing status of a task and its stored text.

use vstd::prelude::*;
use crate::http::{ApiResult, HttpStatus};

verus! {

/// Where a task stands in its lifecycle. A task only ever moves forward:
/// submitted, then started, then completed.
#[derive(Clone, Copy, Debug, PartialEq, Eq, Structural)]
pub enum Status {
    Submitted,
    Started,
    Completed,
}

impl Status {
    /// The position of the status in the lifecycle order.
    pub open spec fn rank(self) -> nat {
        match self {
            Status::Submitted => 0,
            Status::Started => 1,
            Status::Completed => 2,
        }
    }

    /// The text under which the status is stored and shown.
    pub open spec fn text(self) -> Seq<char> {
        match self {
            Status::Submitted => "submitted"@,
            Status::Started => "started"@,
            Status::Completed => "completed"@,
        }
    }

    /// Whether `text` is the stored text of some status.
    pub open spec fn known(text: Seq<char>) -> bool {
        text == Status::Submitted.text() || text == Status::Started.text() || text
            == Status::Completed.text()
    }

    /// The status whose stored text is `text`; meaningful where `known(text)`.
    pub open spec fn of_text(text: Seq<char>) -> Status {
        if text == Status::Submitted.text() {
            Status::Submitted
        } else if text == Status::Started.text() {
            Status::Started
        } else {
            Status::Completed
        }
    }

    /// Reads a stored status text. An unknown text is a fault of the store, so
    /// it is answered with a server error.
    pub fn from_str(status: &str) -> (r: ApiResult<Status>)
        ensures
            r is Ok <==> Status::known(status@),
            r matches Ok(s) ==> s == Status::of_text(status@) && s.text() == status@,
            r matches Err(e) ==> e.code == 500,
    {
        proof {
            lemma_texts_differ();
        }
        let given = status.to_owned();
        if given == "submitted".to_owned() {
            Ok(Status::Submitted)
        } else if given == "started".to_owned() {
            Ok(Status::Started)
        } else if given == "completed".to_owned() {
            Ok(Status::Completed)
        } else {
            Err(HttpStatus::new(500))
        }
    }

    /// The stored text of the status.
    pub fn to_string(&self) -> (s: String)
        ensures
            s@ == self.text(),
    {
        match self {
            Status::Submitted => "submitted".to_owned(),
            Status::Started => "started".to_owned(),
            Status::Completed => "completed".to_owned(),
        }
    }

    /// The position of the status in the lifecycle order, as a number.
    pub fn position(&self) -> (n: u8)
        ensures
            n == self.rank(),
    {
        match self {
            Status::Submitted => 0,
            Status::Started => 1,
            Status::Completed => 2,
        }
    }
}

/// The three stored texts are pairwise different, so a text names at most one
/// status.
pub proof fn lemma_texts_differ()
    ensures
        Status::Submitted.text() != Status::Started.text(),
        Status::Submitted.text() != Status::Completed.text(),
        Status::Started.text() != Status::Completed.text(),
        forall|s: Status| #![auto] Status::known(s.text()) && Status::of_text(s.text()) == s,
{
    reveal_strlit("submitted");
    reveal_strlit("started");
    reveal_strlit("completed");
    assert("submitted"@.len() == 9);
    assert("started"@.len() == 7);
    assert("completed"@.len() == 9);
    assert("submitted"@[0] == 's');
    assert("completed"@[0] == 'c');
}

} // verus!
