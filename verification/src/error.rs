//! The error that travels with responses.

use vstd::prelude::*;

use crate::text::concat2;

verus! {

/// An error that is told in words.
#[derive(Debug)]
pub struct PagodaError {
    message: String,
}

/// The name under which annotated responses carry a [`PagodaError`].
pub type DynamoError = PagodaError;

impl View for PagodaError {
    type V = Seq<char>;

    closed spec fn view(&self) -> Seq<char> {
        self.message@
    }
}

impl PagodaError {
    /// An error with the given message.
    pub fn msg(message: String) -> (error: Self)
        ensures
            error@ == message@,
    {
        PagodaError { message }
    }

    /// The message.
    pub fn message(&self) -> (message: &str)
        ensures
            message@ == self@,
    {
        self.message.as_str()
    }

    /// The error in words: its category, which is not known, and its message.
    pub fn to_string(&self) -> (text: String)
        ensures
            text@ == "Unknown: "@ + self@,
    {
        concat2("Unknown: ", self.message.as_str())
    }
}

impl Clone for PagodaError {
    fn clone(&self) -> (copy: Self)
        ensures
            copy == *self,
    {
        PagodaError { message: self.message.clone() }
    }
}

/// An error tells its message, also as a copy, and in words behind the category, which is not known.
pub proof fn law_error_tells_its_message(
    message: String,
    error: PagodaError,
    told: &str,
    text: String,
)
    requires
        call_ensures(PagodaError::msg, (message,), error),
        call_ensures(PagodaError::message, (&error,), told),
        call_ensures(PagodaError::to_string, (&error,), text),
    ensures
        told@ == message@,
        text@ == "Unknown: "@ + message@,
{
}

} // verus!
