//! The work channel: which queue a task is announced on, and what the
//! announcement holds. The payload of a message is the task's identifier as
//! text, in UTF-8, and nothing else.

use vstd::prelude::*;
use vstd::slice::slice_to_vec;
use vstd::utf8::{decode_utf8, encode_utf8, encode_utf8_decode_utf8, encode_utf8_valid_utf8, valid_utf8};
use crate::ids::{hyphenated, id_text, parse_id, parsed_uuid};

verus! {

/// The exchange that announcements go to: the default one.
pub const AMQP_EXCHANGE: &'static str = "";

/// The queue that announcements are routed to.
pub const AMQP_QUEUE_NAME: &'static str = "problem_submitted";

/// What is published for a submitted task.
#[derive(Debug)]
pub struct Publication {
    pub exchange: String,
    pub routing_key: String,
    pub payload: Vec<u8>,
}

/// Why a payload names no task.
#[derive(Clone, Copy, Debug, PartialEq, Eq, Structural)]
pub enum PayloadError {
    /// The bytes are not UTF-8.
    NotUtf8,
    /// The text is not an identifier.
    NotAnId,
}

impl PayloadError {
    /// The failure in words.
    pub open spec fn text(self) -> Seq<char> {
        match self {
            PayloadError::NotUtf8 => "the payload is not UTF-8"@,
            PayloadError::NotAnId => "the payload is not an identifier"@,
        }
    }

    /// The failure in words.
    pub fn message(&self) -> (message: String)
        ensures
            message@ == self.text(),
    {
        match self {
            PayloadError::NotUtf8 => "the payload is not UTF-8".to_owned(),
            PayloadError::NotAnId => "the payload is not an identifier".to_owned(),
        }
    }
}

/// The identifier that the payload `data` holds.
pub open spec fn payload_id(data: Seq<u8>) -> Result<u128, PayloadError> {
    if !valid_utf8(data) {
        Err(PayloadError::NotUtf8)
    } else {
        match parsed_uuid(decode_utf8(data)) {
            Some(id) => Ok(id),
            None => Err(PayloadError::NotAnId),
        }
    }
}

/// The bytes as text, from `std::str::from_utf8`: there is a text exactly if
/// the bytes are UTF-8, and its bytes are the given ones.
#[verifier::external_body]
fn utf8_text(data: &[u8]) -> (text: Option<&str>)
    ensures
        text is Some <==> valid_utf8(data@),
        text matches Some(s) ==> encode_utf8(s@) == data@,
{
    std::str::from_utf8(data).ok()
}

/// Reads the identifier of the task that a payload announces.
pub fn read_payload(data: &[u8]) -> (id: Result<u128, PayloadError>)
    ensures
        id == payload_id(data@),
{
    let text = match utf8_text(data) {
        Some(text) => text,
        None => {
            return Err(PayloadError::NotUtf8);
        },
    };
    proof {
        encode_utf8_decode_utf8(text@);
    }
    match parse_id(text) {
        Some(id) => Ok(id),
        None => Err(PayloadError::NotAnId),
    }
}

/// The announcement of the task `task_id`. A worker that reads its payload
/// finds the same identifier.
pub fn publish_problem(task_id: &u128) -> (publication: Publication)
    ensures
        publication.exchange@ == AMQP_EXCHANGE@,
        publication.routing_key@ == AMQP_QUEUE_NAME@,
        publication.payload@ == encode_utf8(hyphenated(*task_id)),
        payload_id(publication.payload@) == Ok::<u128, PayloadError>(*task_id),
{
    let id_str = id_text(*task_id);
    let payload = slice_to_vec(id_str.as_str().as_bytes());
    proof {
        encode_utf8_valid_utf8(id_str@);
        encode_utf8_decode_utf8(id_str@);
    }
    Publication {
        exchange: AMQP_EXCHANGE.to_owned(),
        routing_key: AMQP_QUEUE_NAME.to_owned(),
        payload,
    }
}

} // verus!
