//! Mathematical values of the library's types, for contracts.
use vstd::prelude::*;
use crate::diagnostic::{Diag, Diagnostic};

verus! {

/// A type with a mathematical value.
pub trait Model {
    type V;

    spec fn mv(&self) -> Self::V;
}

pub open spec fn res_mv<T: Model>(r: Result<T, Diagnostic>) -> Result<T::V, Diag> {
    match r {
        Ok(v) => Ok(v.mv()),
        Err(e) => Err(e.model()),
    }
}

pub open spec fn opt_mv<T: Model>(o: Option<T>) -> Option<T::V> {
    match o {
        Some(v) => Some(v.mv()),
        None => None,
    }
}

} // verus!
