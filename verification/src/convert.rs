//! Conversion of values to string slices.
use crate::json_model::Json;
use vstd::prelude::*;

verus! {

/// Conversion of a value to `&str`.
pub trait ToStr {
    /// The characters this value holds, if it holds text.
    spec fn spec_to_str(&self) -> Option<Seq<char>>;

    /// Convert to `&str`.
    fn to_str(&self) -> (r: Option<&str>)
        ensures
            match r {
                Some(s) => self.spec_to_str() == Some(s@),
                None => self.spec_to_str() is None,
            },
    ;
}

impl ToStr for String {
    open spec fn spec_to_str(&self) -> Option<Seq<char>> {
        Some(self@)
    }

    fn to_str(&self) -> (r: Option<&str>) {
        Some(self.as_str())
    }
}

impl ToStr for str {
    open spec fn spec_to_str(&self) -> Option<Seq<char>> {
        Some(self@)
    }

    fn to_str(&self) -> (r: Option<&str>) {
        Some(self)
    }
}

impl ToStr for &str {
    open spec fn spec_to_str(&self) -> Option<Seq<char>> {
        Some((*self)@)
    }

    fn to_str(&self) -> (r: Option<&str>) {
        Some(*self)
    }
}

impl ToStr for Json {
    open spec fn spec_to_str(&self) -> Option<Seq<char>> {
        match *self {
            Json::Str(s) => Some(s@),
            _ => None,
        }
    }

    fn to_str(&self) -> (r: Option<&str>) {
        self.as_str()
    }
}

} // verus!
