//! The error of everything that fails with a message alone.
use vstd::prelude::*;

use crate::text::join3;

verus! {

/// A failure and the words in which it is reported.
#[derive(Clone, Debug, PartialEq, Eq)]
pub struct Error {
    text: String,
}

impl View for Error {
    type V = Seq<char>;

    closed spec fn view(&self) -> Seq<char> {
        self.text@
    }
}

impl Error {
    /// A failure reported in the given words.
    pub fn new(text: String) -> (r: Self)
        ensures
            r@ == text@,
    {
        Error { text }
    }

    /// A failure reported in the given words.
    pub fn of(text: &str) -> (r: Self)
        ensures
            r@ == text@,
    {
        Error { text: text.to_owned() }
    }

    /// A failure of a step, with what caused it behind a colon.
    pub fn caused(step: &str, cause: &str) -> (r: Self)
        ensures
            r@ == caused(step@, cause@),
    {
        Error { text: join3(step, ": ", cause) }
    }

    /// The words in which the failure is reported.
    pub fn message(&self) -> (r: &str)
        ensures
            r@ == self@,
    {
        self.text.as_str()
    }
}

/// A step that failed, with what caused it behind a colon.
pub open spec fn caused(step: Seq<char>, cause: Seq<char>) -> Seq<char> {
    step + ": "@ + cause
}

/// A result with its error taken by its words.
pub open spec fn outcome<T>(r: Result<T, Error>) -> Result<T, Seq<char>> {
    match r {
        Ok(value) => Ok(value),
        Err(error) => Err(error@),
    }
}

/// A text with its error taken by its words.
pub open spec fn text_outcome(r: Result<String, Error>) -> Result<Seq<char>, Seq<char>> {
    match r {
        Ok(text) => Ok(text@),
        Err(error) => Err(error@),
    }
}

} // verus!
