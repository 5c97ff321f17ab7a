//! The error of a tool call.

use vstd::prelude::*;

verus! {

/// Why a tool call failed, in words for the caller.
#[derive(Debug)]
pub struct Error {
    pub text: String,
}

impl View for Error {
    type V = Seq<char>;

    open spec fn view(&self) -> Seq<char> {
        self.text@
    }
}

impl Error {
    /// An error with the given text.
    pub fn message(text: String) -> (error: Error)
        ensures
            error@ == text@,
    {
        Error { text }
    }

    /// The text of the error.
    pub fn to_text(&self) -> (text: String)
        ensures
            text@ == self@,
    {
        self.text.clone()
    }
}

/// A result as plain values: the bytes, or the text of the error.
pub open spec fn outcome(result: Result<Vec<u8>, Error>) -> Result<Seq<u8>, Seq<char>> {
    match result {
        Ok(bytes) => Ok(bytes@),
        Err(error) => Err(error@),
    }
}

/// A result keeps its bytes, and an error its text, whatever they are.
pub proof fn law_outcome_keeps_everything(result: Result<Vec<u8>, Error>)
    ensures
        result matches Ok(bytes) ==> outcome(result) == Ok::<Seq<u8>, Seq<char>>(bytes@),
        result matches Err(error) ==> outcome(result) == Err::<Seq<u8>, Seq<char>>(error.text@),
{
}


} // verus!
