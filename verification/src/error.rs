//! The library's error: a message for the worker to surface to DuckDB.

use vstd::prelude::*;

verus! {

/// A processing error, rendered to a string for the worker to surface to DuckDB.
#[derive(Debug)]
pub struct ImgError(pub String);

impl ImgError {
    /// The error's message.
    pub fn message(&self) -> (m: &str)
        ensures
            m@ == self.0@,
    {
        self.0.as_str()
    }
}

} // verus!
