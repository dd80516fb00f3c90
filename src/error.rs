//! Errors reported by the store layer.
use vstd::prelude::*;

verus! {

/// The kind of a failure, each with a stable code.
#[derive(PartialEq, Eq, Structural, Clone, Copy, Debug)]
pub enum ErrorKind {
    /// The storage engine failed on open, read, write, commit or removal.
    InternalError,
    /// A scan request with both or neither of `gte` and `gt`.
    InvalidIteratorOptions,
    /// A single-key lookup found nothing.
    NotFound,
    /// A transactional commit could not take its locks in time.
    LockTimeout,
    /// The handle was used after it was closed.
    Closed,
}

/// A failure: its kind and a message for people.
#[derive(Debug)]
pub struct HubError {
    pub kind: ErrorKind,
    pub message: String,
}

/// The stable code of each kind.
pub open spec fn kind_code(kind: ErrorKind) -> Seq<char> {
    match kind {
        ErrorKind::InternalError => "db.internal_error"@,
        ErrorKind::InvalidIteratorOptions => "db.invalid_iterator_options"@,
        ErrorKind::NotFound => "not_found"@,
        ErrorKind::LockTimeout => "db.lock_timeout"@,
        ErrorKind::Closed => "db.closed"@,
    }
}

impl HubError {
    pub fn new(kind: ErrorKind, message: String) -> (r: HubError)
        ensures
            r.kind == kind,
            r.message@ == message@,
    {
        HubError { kind, message }
    }

    /// The stable code of this error's kind.
    pub fn code(&self) -> (r: String)
        ensures
            r@ == kind_code(self.kind),
    {
        proof {
            reveal_strlit("db.internal_error");
            reveal_strlit("db.invalid_iterator_options");
            reveal_strlit("not_found");
            reveal_strlit("db.lock_timeout");
            reveal_strlit("db.closed");
        }
        match self.kind {
            ErrorKind::InternalError => "db.internal_error".to_owned(),
            ErrorKind::InvalidIteratorOptions => "db.invalid_iterator_options".to_owned(),
            ErrorKind::NotFound => "not_found".to_owned(),
            ErrorKind::LockTimeout => "db.lock_timeout".to_owned(),
            ErrorKind::Closed => "db.closed".to_owned(),
        }
    }
}

} // verus!
