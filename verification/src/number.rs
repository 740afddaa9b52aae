//! Conversion of values to unsigned integers.
use crate::json_model::spec_as_usize;
use crate::json_model::Json;
use crate::strutil::atou;
use crate::strutil::spec_atou;
use vstd::prelude::*;

verus! {

/// Conversion of a value to `usize`.
pub trait ToUsize {
    /// The number this value denotes, if any.
    spec fn spec_to_usize(&self) -> Option<usize>;

    fn to_usize(&self) -> (r: Option<usize>)
        ensures
            r == self.spec_to_usize(),
    ;
}

impl ToUsize for String {
    open spec fn spec_to_usize(&self) -> Option<usize> {
        spec_atou(self@)
    }

    fn to_usize(&self) -> (r: Option<usize>) {
        atou(self.as_str())
    }
}

impl ToUsize for str {
    open spec fn spec_to_usize(&self) -> Option<usize> {
        spec_atou(self@)
    }

    fn to_usize(&self) -> (r: Option<usize>) {
        atou(self)
    }
}

impl ToUsize for usize {
    open spec fn spec_to_usize(&self) -> Option<usize> {
        Some(*self)
    }

    fn to_usize(&self) -> (r: Option<usize>) {
        Some(*self)
    }
}

impl ToUsize for Json {
    /// A number is taken as it is; a string is parsed as decimal digits.
    open spec fn spec_to_usize(&self) -> Option<usize> {
        match *self {
            Json::Int(_) => spec_as_usize(*self),
            Json::Str(s) => spec_atou(s@),
            _ => None,
        }
    }

    fn to_usize(&self) -> (r: Option<usize>) {
        match self {
            Json::Int(_) => self.as_usize(),
            Json::Str(s) => atou(s.as_str()),
            _ => None,
        }
    }
}

} // verus!
