//! The errors of the library.

use vstd::prelude::*;

verus! {

#[derive(Debug, PartialEq, Eq)]
pub enum Error {
    /// A text that names no value of the kind that was asked for. It holds
    /// the text.
    UnexpectedInput(String),
}

impl Clone for Error {
    fn clone(&self) -> (r: Self)
        ensures
            r.text() == self.text(),
    {
        match self {
            Error::UnexpectedInput(s) => Error::UnexpectedInput(s.clone()),
        }
    }
}

impl Error {
    /// The text that the error holds.
    pub open spec fn text(self) -> Seq<char> {
        match self {
            Error::UnexpectedInput(s) => s@,
        }
    }

    /// The text that the error holds.
    pub fn message(&self) -> (s: String)
        ensures
            s@ == self.text(),
    {
        match self {
            Error::UnexpectedInput(s) => s.clone(),
        }
    }
}

} // verus!
