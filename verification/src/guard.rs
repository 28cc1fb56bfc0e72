//! The decisions of the guard on what the store answers: whether an insert
//! made this submission the first one, and what a record that exists
//! already has saved.

use vstd::prelude::*;
use crate::response::{headers_view, CapturedResponse, ResponseView};

verus! {

/// What a submission does once its record was inserted, or was not.
#[derive(Clone, Copy, Debug, PartialEq, Eq, Structural)]
pub enum GuardStep {
    /// The insert made a new row: this submission is the first one. It
    /// keeps its scope open and does the work.
    StartProcessing,
    /// The row was there already: this submission lets go of its scope and
    /// reads what the first one saved.
    ReadSavedResponse,
}

/// A record that is there and has no response, though the scope that made
/// it is finalized: whoever opened that scope did not commit a response.
#[derive(Clone, Copy, Debug, PartialEq, Eq, Structural)]
pub struct EmptyRecord;

/// Decides from the number of rows that the insert-if-absent made.
pub fn after_insert(rows_inserted: u64) -> (step: GuardStep)
    ensures
        step == if rows_inserted > 0 {
            GuardStep::StartProcessing
        } else {
            GuardStep::ReadSavedResponse
        },
{
    if rows_inserted > 0 {
        GuardStep::StartProcessing
    } else {
        GuardStep::ReadSavedResponse
    }
}

/// The three response fields of a record hold a response: none is empty.
pub open spec fn populated(
    status: Option<u16>,
    headers: Option<Vec<(String, String)>>,
    body: Option<Vec<u8>>,
) -> bool {
    status.is_some() && headers.is_some() && body.is_some()
}

/// Puts the saved response together from the three response fields of a
/// record, each of which is empty until the response is saved. A record
/// with an empty field has no response to give.
pub fn saved_response(
    status: Option<u16>,
    headers: Option<Vec<(String, String)>>,
    body: Option<Vec<u8>>,
) -> (r: Result<CapturedResponse, EmptyRecord>)
    ensures
        r.is_ok() == populated(status, headers, body),
        match r {
            Ok(response) => response@ == (ResponseView {
                status: status.unwrap(),
                headers: headers_view(headers.unwrap()@),
                body: body.unwrap()@,
            }),
            Err(_) => true,
        },
{
    match status {
        None => Err(EmptyRecord),
        Some(status) => match headers {
            None => Err(EmptyRecord),
            Some(headers) => match body {
                None => Err(EmptyRecord),
                Some(body) => Ok(CapturedResponse { status, headers, body }),
            },
        },
    }
}

} // verus!
