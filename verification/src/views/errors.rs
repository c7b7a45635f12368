//! The one error that the operations of the views hand out.

use vstd::prelude::*;

verus! {

/// A failure of an operation, with what is known of it as text.
#[derive(Debug)]
pub struct GossipError {
    pub err: String,
}

impl GossipError {
    /// The error with the given text.
    pub fn new(err: &str) -> (error: GossipError)
        ensures
            error.err@ == err@,
    {
        GossipError { err: err.to_owned() }
    }

    /// The text of the error.
    pub fn message(&self) -> (text: String)
        ensures
            text == self.err,
    {
        self.err.clone()
    }
}

} // verus!
