//! What a value that can stand for an error says about it.

use vstd::prelude::*;

use crate::error::PagodaError;

verus! {

/// A value that stands either for a success or for an error.
pub trait MaybeError: Sized {
    /// The message of the error, if the value stands for one.
    open spec fn spec_err(&self) -> Option<Seq<char>> {
        arbitrary()
    }

    /// The value that stands for `err`.
    fn from_err(err: PagodaError) -> (value: Self)
        ensures
            value.spec_err() == Some(err@),
    ;

    /// The error, if the value stands for one.
    fn err(&self) -> (err: Option<PagodaError>)
        ensures
            match err {
                Some(error) => self.spec_err() == Some(error@),
                None => self.spec_err() is None,
            },
    ;

    /// Whether the value stands for a success.
    fn is_ok(&self) -> (ok: bool)
        ensures
            ok == (self.spec_err() is None),
    {
        self.err().is_none()
    }

    /// Whether the value stands for an error.
    fn is_err(&self) -> (is_err: bool)
        ensures
            is_err == (self.spec_err() is Some),
    {
        self.err().is_some()
    }
}

} // verus!
