//! File-name sanitizing.
use crate::convert::ToStr;
use crate::strutil::chars_of;
use crate::strutil::string_from_chars;
use vstd::prelude::*;

verus! {

/// Whether a character is a control character (the Unicode `Cc` category).
pub open spec fn is_cntrl(c: char) -> bool {
    c as u32 <= 0x1F || (0x7F <= c as u32 && c as u32 <= 0x9F)
}

/// A character a file name may not hold is replaced by `_`: control
/// characters and `\ / : * ? " < > |`.
pub open spec fn filter_char(c: char) -> char {
    if is_cntrl(c) || c == '\\' || c == '/' || c == ':' || c == '*' || c == '?' || c == '"' || c
        == '<' || c == '>' || c == '|' {
        '_'
    } else {
        c
    }
}

/// The sanitized image of a file name.
pub open spec fn spec_filter_file_name(s: Seq<char>) -> Seq<char> {
    s.map_values(|c: char| filter_char(c))
}

/// Replace the characters a file name may not hold by `_`.
#[verifier::loop_isolation(false)]
pub fn filter_file_name<U: ToStr>(f: &U) -> (r: Option<String>)
    ensures
        match r {
            Some(out) => f.spec_to_str() matches Some(s) && out@ == spec_filter_file_name(s),
            None => f.spec_to_str() is None,
        },
{
    let s = match f.to_str() {
        Some(s) => s,
        None => {
            return None;
        },
    };
    let v = chars_of(s);
    let mut out: Vec<char> = Vec::new();
    let mut i: usize = 0;
    while i < v.len()
        invariant
            0 <= i <= v@.len(),
            out@ =~= v@.subrange(0, i as int).map_values(|c: char| filter_char(c)),
        decreases v@.len() - i,
    {
        let c = v[i];
        let u = c as u32;
        let bad = u <= 0x1F || (0x7F <= u && u <= 0x9F) || c == '\\' || c == '/' || c == ':' || c
            == '*' || c == '?' || c == '"' || c == '<' || c == '>' || c == '|';
        out.push(if bad {
            '_'
        } else {
            c
        });
        proof {
            assert(v@.subrange(0, i + 1).map_values(|c: char| filter_char(c)) =~= v@.subrange(
                0,
                i as int,
            ).map_values(|c: char| filter_char(c)).push(filter_char(v@[i as int])));
        }
        i += 1;
    }
    proof {
        assert(v@.subrange(0, v@.len() as int) =~= v@);
    }
    Some(string_from_chars(&out))
}

} // verus!
