//! Byte sizes given with multiple-byte units, such as `345B`, `300K` or
//! `78MiB`: decimal digits, an optional unit letter with an optional `i` for
//! the binary scale, and an optional `b`, all case-insensitive.
use crate::json_model::Json;
use crate::part::digits_end;
use crate::strutil::chars_of;
use crate::strutil::spec_atou;
use vstd::prelude::*;

verus! {

/// The decimal scale of a unit letter (already folded to lower case):
/// 1 for `k` up to 8 for `y`, 0 for any other character.
pub open spec fn unit_exp(c: char) -> int {
    if c == 'k' {
        1
    } else if c == 'm' {
        2
    } else if c == 'g' {
        3
    } else if c == 't' {
        4
    } else if c == 'p' {
        5
    } else if c == 'e' {
        6
    } else if c == 'z' {
        7
    } else if c == 'y' {
        8
    } else {
        0
    }
}

/// ASCII lower case of one character.
pub open spec fn lower_char(c: char) -> char {
    if 'A' as u32 <= c as u32 && c as u32 <= 'Z' as u32 {
        ((c as u8) + 32) as char
    } else {
        c
    }
}

/// The multiplier of a unit: powers of 1000, or of 1024 when the unit
/// carries an `i`.
pub open spec fn unit_multiplier(exp: int, binary: bool) -> int {
    if binary {
        if exp == 1 {
            1024
        } else if exp == 2 {
            1048576
        } else if exp == 3 {
            1073741824
        } else if exp == 4 {
            1099511627776
        } else if exp == 5 {
            1125899906842624
        } else if exp == 6 {
            1152921504606846976
        } else if exp == 7 {
            1180591620717411303424
        } else {
            1208925819614629174706176
        }
    } else {
        if exp == 1 {
            1000
        } else if exp == 2 {
            1000000
        } else if exp == 3 {
            1000000000
        } else if exp == 4 {
            1000000000000
        } else if exp == 5 {
            1000000000000000
        } else if exp == 6 {
            1000000000000000000
        } else if exp == 7 {
            1000000000000000000000
        } else {
            1000000000000000000000000
        }
    }
}

/// Whether the characters after the digits form a valid unit suffix, and
/// its multiplier: empty or `b` mean 1; a unit letter, optionally followed
/// by `i` and optionally by `b`, means the corresponding power of 1000, or
/// of 1024 with the `i`.
pub open spec fn spec_suffix_multiplier(rest: Seq<char>) -> Option<int> {
    if rest.len() == 0 {
        Some(1)
    } else if rest.len() == 1 && lower_char(rest[0]) == 'b' {
        Some(1)
    } else if unit_exp(lower_char(rest[0])) > 0 {
        let e = unit_exp(lower_char(rest[0]));
        if rest.len() == 1 {
            Some(unit_multiplier(e, false))
        } else if rest.len() == 2 && lower_char(rest[1]) == 'i' {
            Some(unit_multiplier(e, true))
        } else if rest.len() == 2 && lower_char(rest[1]) == 'b' {
            Some(unit_multiplier(e, false))
        } else if rest.len() == 3 && lower_char(rest[1]) == 'i' && lower_char(rest[2]) == 'b' {
            Some(unit_multiplier(e, true))
        } else {
            None
        }
    } else {
        None
    }
}

/// The byte count a size string denotes: its digits scaled by its unit.
/// Digits that overflow, or a scaled value that does not fit `usize`, give
/// `None`.
pub open spec fn spec_parse_size(s: Seq<char>) -> Option<usize> {
    let b = digits_end(s, 0);
    if b == 0 {
        None
    } else {
        match spec_atou(s.subrange(0, b)) {
            None => None,
            Some(n) => match spec_suffix_multiplier(s.subrange(b, s.len() as int)) {
                None => None,
                Some(m) => if n * m <= usize::MAX {
                    Some((n * m) as usize)
                } else {
                    None
                },
            },
        }
    }
}

/// ASCII lower case of one character.
pub fn lower_char_exec(c: char) -> (r: char)
    ensures
        r == lower_char(c),
{
    let u = c as u32;
    if 65 <= u && u <= 90 {
        ((c as u8) + 32) as char
    } else {
        c
    }
}

/// Convert a size with multiple-byte units to a byte count.
#[verifier::loop_isolation(false)]
pub fn parse_size(s: &str) -> (r: Option<usize>)
    ensures
        r == spec_parse_size(s@),
{
    let v = chars_of(s);
    let b = crate::part::scan_digits(&v, 0);
    if b == 0 {
        return None;
    }
    let n = match crate::part::atou_range(&v, 0, b) {
        Some(n) => n,
        None => {
            return None;
        },
    };
    let ghost rest = v@.subrange(b as int, v@.len() as int);
    let rest_len = v.len() - b;
    let m: u128 = if rest_len == 0 {
        1
    } else {
        let c0 = lower_char_exec(v[b]);
        if rest_len == 1 && c0 == 'b' {
            1
        } else {
            let e = match c0 {
                'k' => 1usize,
                'm' => 2,
                'g' => 3,
                't' => 4,
                'p' => 5,
                'e' => 6,
                'z' => 7,
                'y' => 8,
                _ => 0,
            };
            if e == 0 {
                return None;
            }
            if rest_len == 1 {
                multiplier_exec(e, false)
            } else {
                let c1 = lower_char_exec(v[b + 1]);
                if rest_len == 2 && c1 == 'i' {
                    multiplier_exec(e, true)
                } else if rest_len == 2 && c1 == 'b' {
                    multiplier_exec(e, false)
                } else if rest_len == 3 && c1 == 'i' && lower_char_exec(v[b + 2]) == 'b' {
                    multiplier_exec(e, true)
                } else {
                    return None;
                }
            }
        }
    };
    proof {
        assert(rest.len() > 0 ==> rest[0] == v@[b as int]);
        assert(rest.len() > 1 ==> rest[1] == v@[b + 1]);
        assert(rest.len() > 2 ==> rest[2] == v@[b + 2]);
    }
    if n == 0 {
        return Some(0);
    }
    if m > usize::MAX as u128 {
        proof {
            assert(n * (m as int) >= m) by (nonlinear_arith)
                requires
                    n >= 1,
                    m >= 0,
            ;
        }
        return None;
    }
    let total: u128 = (n as u128) * m;
    if total > usize::MAX as u128 {
        return None;
    }
    Some(total as usize)
}

/// The multiplier of a unit scale.
fn multiplier_exec(e: usize, binary: bool) -> (r: u128)
    requires
        1 <= e <= 8,
    ensures
        r == unit_multiplier(e as int, binary),
{
    if binary {
        match e {
            1 => 1024,
            2 => 1048576,
            3 => 1073741824,
            4 => 1099511627776,
            5 => 1125899906842624,
            6 => 1152921504606846976,
            7 => 1180591620717411303424,
            _ => 1208925819614629174706176,
        }
    } else {
        match e {
            1 => 1000,
            2 => 1000000,
            3 => 1000000000,
            4 => 1000000000000,
            5 => 1000000000000000,
            6 => 1000000000000000000,
            7 => 1000000000000000000000,
            _ => 1000000000000000000000000,
        }
    }
}

/// Conversion of a value to a byte count.
pub trait ToSize {
    /// The byte count this value denotes, if any.
    spec fn spec_to_size(&self) -> Option<usize>;

    /// Convert multiple-byte units to bytes.
    fn to_size(&self) -> (r: Option<usize>)
        ensures
            r == self.spec_to_size(),
    ;
}

impl ToSize for String {
    open spec fn spec_to_size(&self) -> Option<usize> {
        spec_parse_size(self@)
    }

    fn to_size(&self) -> (r: Option<usize>) {
        parse_size(self.as_str())
    }
}

impl ToSize for str {
    open spec fn spec_to_size(&self) -> Option<usize> {
        spec_parse_size(self@)
    }

    fn to_size(&self) -> (r: Option<usize>) {
        parse_size(self)
    }
}

impl ToSize for usize {
    open spec fn spec_to_size(&self) -> Option<usize> {
        Some(*self)
    }

    fn to_size(&self) -> (r: Option<usize>) {
        Some(*self)
    }
}

impl ToSize for Json {
    open spec fn spec_to_size(&self) -> Option<usize> {
        match *self {
            Json::Int(_) => crate::json_model::spec_as_usize(*self),
            Json::Str(s) => spec_parse_size(s@),
            _ => None,
        }
    }

    fn to_size(&self) -> (r: Option<usize>) {
        match self {
            Json::Int(_) => self.as_usize(),
            Json::Str(s) => parse_size(s.as_str()),
            _ => None,
        }
    }
}

} // verus!
