//! The one way in which an operation on the store fails.

use vstd::prelude::*;

verus! {

/// Why an operation on the store failed.
#[derive(Debug, Clone, Copy, PartialEq, Eq, Structural)]
pub enum StoreError {
    /// No record of the collection carries the requested identifier.
    NotFound,
}

impl StoreError {
    /// The HTTP status under which the failure is reported: 404.
    pub fn status_code(&self) -> (code: u16)
        ensures
            code == 404,
    {
        404
    }

    /// The plain text that reports the failure.
    pub fn message(&self) -> (text: &'static str)
        ensures
            text@ == "Book not found"@,
    {
        "Book not found"
    }
}

/// The text that confirms a removal.
pub fn deleted_message() -> (text: &'static str)
    ensures
        text@ == "Book deleted successfully"@,
{
    "Book deleted successfully"
}

} // verus!
