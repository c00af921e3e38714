use vstd::prelude::*;

use crate::text::{contains_text, str_contains};

verus! {

/// Why a repository operation failed.
#[derive(Clone, Copy, Debug, PartialEq, Eq, Structural)]
pub enum NoteError {
    /// No record carries the requested id.
    NotFound,
    /// Another record already carries the requested title.
    DuplicateKey,
    /// The data store itself failed.
    Store,
}

/// The endpoints of the HTTP surface.
#[derive(Clone, Copy, Debug, PartialEq, Eq, Structural)]
pub enum ApiCall {
    List,
    Create,
    Get,
    Update,
    Delete,
    Health,
}

/// The status code each endpoint answers with: a create answers 201, a
/// delete 204 with no body, every other success 200; a missing id answers
/// 404, a taken title 409, and a store failure 500.
pub open spec fn spec_status_code(call: ApiCall, outcome: Result<(), NoteError>) -> u16 {
    match outcome {
        Result::Ok(_) => match call {
            ApiCall::Create => 201u16,
            ApiCall::Delete => 204u16,
            _ => 200u16,
        },
        Result::Err(e) => match e {
            NoteError::NotFound => 404u16,
            NoteError::DuplicateKey => 409u16,
            NoteError::Store => 500u16,
        },
    }
}

/// Maps an endpoint and the outcome of its repository call to the status
/// code of the response.
pub fn status_code(call: ApiCall, outcome: Result<(), NoteError>) -> (r: u16)
    ensures
        r == spec_status_code(call, outcome),
{
    match outcome {
        Ok(_) => match call {
            ApiCall::Create => 201,
            ApiCall::Delete => 204,
            _ => 200,
        },
        Err(e) => match e {
            NoteError::NotFound => 404,
            NoteError::DuplicateKey => 409,
            NoteError::Store => 500,
        },
    }
}

/// The failures whose envelope carries the label "error": a store failure
/// inside a write, that is a create or an update. Every other failure — a
/// missing id, a taken title, and a store failure while listing — carries
/// "fail".
pub open spec fn labelled_error(call: ApiCall, e: NoteError) -> bool {
    e == NoteError::Store && (call == ApiCall::Create || call == ApiCall::Update)
}

/// The envelope label of an error response on the given endpoint.
pub fn error_status_label(call: ApiCall, e: NoteError) -> (r: &'static str)
    ensures
        labelled_error(call, e) ==> r@ == "error"@,
        !labelled_error(call, e) ==> r@ == "fail"@,
{
    match e {
        NoteError::Store => match call {
            ApiCall::Create => "error",
            ApiCall::Update => "error",
            _ => "fail",
        },
        _ => "fail",
    }
}

/// Reads what a delete did from the rows it removed: zero rows means no
/// record carried the id, which is `NotFoundError`.
pub fn delete_outcome(rows_affected: u64) -> (r: Result<(), NoteError>)
    ensures
        r is Ok <==> rows_affected > 0,
        r matches Err(e) ==> e == NoteError::NotFound,
{
    if rows_affected == 0 {
        Err(NoteError::NotFound)
    } else {
        Ok(())
    }
}

/// The phrase the data store's duplicate-key failure carries.
pub open spec fn duplicate_marker() -> Seq<char> {
    "duplicate key value violates unique constraint"@
}

/// Reads a data store failure message: a uniqueness violation (recognised by
/// the store's fixed phrase) is a duplicate key, anything else a plain store
/// failure.
pub fn classify_store_error(msg: &str) -> (r: NoteError)
    ensures
        r == NoteError::DuplicateKey <==> contains_text(msg@, duplicate_marker()),
        r == NoteError::DuplicateKey || r == NoteError::Store,
{
    if str_contains(msg, "duplicate key value violates unique constraint") {
        NoteError::DuplicateKey
    } else {
        NoteError::Store
    }
}

/// The page size a list request resolves to: the given one, or 10.
pub open spec fn resolved_limit(limit: Option<usize>) -> usize {
    match limit {
        Option::Some(l) => l,
        Option::None => 10usize,
    }
}

/// The page a list request resolves to: the given one raised to at least 1,
/// or 1.
pub open spec fn resolved_page(page: Option<usize>) -> usize {
    match page {
        Option::Some(p) => if p >= 1 {
            p
        } else {
            1usize
        },
        Option::None => 1usize,
    }
}

/// How many records a list request skips: the pages before it, each a page
/// size long, saturated at the machine's limit.
pub open spec fn list_offset(page: Option<usize>, limit: Option<usize>) -> int {
    let raw = (resolved_page(page) - 1) * resolved_limit(limit);
    if raw > usize::MAX {
        usize::MAX as int
    } else {
        raw
    }
}

/// Resolves the query parameters of a list request to the page size and the
/// offset of the window it asks for.
pub fn list_window(page: Option<usize>, limit: Option<usize>) -> (r: (usize, usize))
    ensures
        r.0 == resolved_limit(limit),
        r.1 == list_offset(page, limit),
{
    let l: usize = match limit {
        Some(v) => v,
        None => 10,
    };
    let p: usize = match page {
        Some(v) => if v >= 1 {
            v
        } else {
            1
        },
        None => 1,
    };
    let off: usize = match (p - 1).checked_mul(l) {
        Some(o) => o,
        None => usize::MAX,
    };
    (l, off)
}

/// The fixed body of the health endpoint.
pub fn health_message() -> (r: &'static str)
    ensures
        r@ == "Simple CRUD API with Rust, SQLx, Postgres and Axum"@,
{
    "Simple CRUD API with Rust, SQLx, Postgres and Axum"
}

} // verus!
