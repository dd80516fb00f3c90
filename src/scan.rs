//! The decisions of a bounded scan. The caller owns the storage cursor: it
//! moves the cursor as told, hands over the key under it, and reports what the
//! visitor answered.
use vstd::prelude::*;
use crate::bounds::IteratorOptions;
use crate::error::HubError;
use crate::keys::key_eq;

verus! {

/// A move of the storage cursor.
#[derive(PartialEq, Eq, Structural, Clone, Copy, Debug)]
pub enum CursorMove {
    SeekToFirst,
    SeekToLast,
    Next,
    Prev,
}

/// What to do after the visitor has seen an entry.
#[derive(PartialEq, Eq, Structural, Clone, Copy, Debug)]
pub enum ScanStep {
    /// Move the cursor and go on.
    Continue(CursorMove),
    /// The visitor asked to stop; the scan ends without error.
    Stop,
}

/// A scan in progress over a resolved window.
pub struct ScanCursor {
    pub options: IteratorOptions,
    /// No entry has been seen yet.
    pub at_start: bool,
}

impl ScanCursor {
    pub fn new(options: IteratorOptions) -> (r: ScanCursor)
        ensures
            r.options == options,
            r.at_start,
    {
        ScanCursor { options, at_start: true }
    }

    /// Where the cursor starts: the last entry of the window for a reverse
    /// scan, the first otherwise.
    pub fn start(&self) -> (r: CursorMove)
        ensures
            r == (if self.options.reverse { CursorMove::SeekToLast } else { CursorMove::SeekToFirst }),
    {
        if self.options.reverse {
            CursorMove::SeekToLast
        } else {
            CursorMove::SeekToFirst
        }
    }

    /// The move that steps the cursor on in the scan's direction.
    pub fn advance(&self) -> (r: CursorMove)
        ensures
            r == (if self.options.reverse { CursorMove::Prev } else { CursorMove::Next }),
    {
        if self.options.reverse {
            CursorMove::Prev
        } else {
            CursorMove::Next
        }
    }

    /// Decides whether the entry under the cursor goes to the visitor. The
    /// engine's lower bound is inclusive, so with an exclusive lower bound an
    /// entry equal to it is passed over, and only at the very first position.
    pub fn should_visit(&mut self, key: &[u8]) -> (r: bool)
        ensures
            final(self).options == old(self).options,
            !final(self).at_start,
            r == !(old(self).at_start && old(self).options.exclusive_lower && key@
                == old(self).options.lower@),
    {
        let first = self.at_start;
        self.at_start = false;
        !(first && self.options.exclusive_lower && key_eq(key, self.options.lower.as_slice()))
    }

    /// Turns the visitor's answer into the next step: `Ok(true)` goes on,
    /// `Ok(false)` stops, and an error ends the scan with that error.
    pub fn after_visit(&self, answer: Result<bool, HubError>) -> (r: Result<ScanStep, HubError>)
        ensures
            answer is Err <==> r is Err,
            answer is Err ==> r->Err_0 == answer->Err_0,
            answer == Ok::<bool, HubError>(true) ==> r == Ok::<ScanStep, HubError>(
                ScanStep::Continue(if self.options.reverse { CursorMove::Prev } else { CursorMove::Next }),
            ),
            answer == Ok::<bool, HubError>(false) ==> r == Ok::<ScanStep, HubError>(ScanStep::Stop),
    {
        match answer {
            Ok(true) => Ok(ScanStep::Continue(self.advance())),
            Ok(false) => Ok(ScanStep::Stop),
            Err(e) => Err(e),
        }
    }
}

} // verus!
