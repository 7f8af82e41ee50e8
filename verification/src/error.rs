//! Error of the fallible conversions between node values.
use vstd::prelude::*;

verus! {

/// Error of a `TryFrom` conversion on node values; holds the reason.
#[derive(Debug)]
pub enum Error {
    TryFrom(String),
}

/// `r` is the conversion error with message `message`.
pub open spec fn fails_with<T>(r: Result<T, Error>, message: Seq<char>) -> bool {
    match r {
        Err(Error::TryFrom(m)) => m@ == message,
        _ => false,
    }
}

} // verus!
