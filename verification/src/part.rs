//! Part ranges: which parts of a multi-part video an operation applies to.
//!
//! A range string follows the grammar `' '* digits? ' '* ('-' ' '* digits?)?
//! ' '*`; `0` as a bound means "unbounded". A list is ranges joined by
//! commas, and the same ranges can also arrive as a JSON value: a single
//! number, a single list string, or an array mixing numbers and range
//! strings.
use crate::json_model::Json;
use crate::strutil::atou_chars;
use crate::strutil::chars_of;
use crate::strutil::is_digit;
use crate::strutil::spec_atou;
use vstd::prelude::*;

verus! {

/// A range of part numbers, inclusive on both ends.
/// A `start` or `end` of `0` means the minimum or the maximum part number.
#[derive(Debug, Clone, Copy, PartialEq, Eq, Structural)]
pub struct Part {
    pub start: usize,
    pub end: usize,
}

impl Part {
    /// What `new` accepts: two explicit bounds must be ordered.
    pub open spec fn spec_new(start: usize, end: usize) -> Option<Part> {
        if start != 0 && end != 0 && start > end {
            None
        } else {
            Some(Part { start, end })
        }
    }

    /// Create a range; `None` when both bounds are explicit and out of
    /// order.
    pub fn new(start: usize, end: usize) -> (r: Option<Part>)
        ensures
            r == Self::spec_new(start, end),
    {
        if start != 0 && end != 0 && start > end {
            return None;
        }
        Some(Part { start, end })
    }

    /// Parse a range from a string, as `spec_parse_range`.
    pub fn parse_from_str(s: &str) -> (r: Option<Part>)
        ensures
            r == spec_parse_range(s@),
    {
        let v = chars_of(s);
        parse_range_chars(&v)
    }
}

/// The first index at or after `i` that does not hold a space.
pub open spec fn skip_sp(s: Seq<char>, i: int) -> int
    decreases s.len() - i,
    when 0 <= i <= s.len()
{
    if i < s.len() && s[i] == ' ' {
        skip_sp(s, i + 1)
    } else {
        i
    }
}

/// The first index at or after `i` that does not hold a digit.
pub open spec fn digits_end(s: Seq<char>, i: int) -> int
    decreases s.len() - i,
    when 0 <= i <= s.len()
{
    if i < s.len() && is_digit(s[i]) {
        digits_end(s, i + 1)
    } else {
        i
    }
}

/// The range a string denotes: optional start digits, an optional dash with
/// optional end digits, spaces allowed around each token.
/// Digits alone give a closed single-part range; a missing bound next to a
/// dash is `0` (unbounded); a string without digits or dash, digits that
/// overflow `usize`, or explicit bounds out of order give `None`.
pub open spec fn spec_parse_range(s: Seq<char>) -> Option<Part> {
    let a = skip_sp(s, 0);
    let b = digits_end(s, a);
    let c = skip_sp(s, b);
    if c < s.len() && s[c] == '-' {
        let d = skip_sp(s, c + 1);
        let e = digits_end(s, d);
        let f = skip_sp(s, e);
        if f == s.len() {
            let st = if b > a {
                spec_atou(s.subrange(a, b))
            } else {
                Some(0usize)
            };
            let ed = if e > d {
                spec_atou(s.subrange(d, e))
            } else {
                Some(0usize)
            };
            if st is Some && ed is Some {
                Part::spec_new(st->Some_0, ed->Some_0)
            } else {
                None
            }
        } else {
            None
        }
    } else if c == s.len() && b > a {
        match spec_atou(s.subrange(a, b)) {
            Some(n) => Part::spec_new(n, n),
            None => None,
        }
    } else {
        None
    }
}

/// Advance past spaces.
#[verifier::loop_isolation(false)]
pub fn skip_spaces(v: &Vec<char>, i: usize) -> (r: usize)
    requires
        i <= v@.len(),
    ensures
        i <= r <= v@.len(),
        r == skip_sp(v@, i as int),
{
    let mut j = i;
    while j < v.len() && v[j] == ' '
        invariant
            i <= j <= v@.len(),
            skip_sp(v@, i as int) == skip_sp(v@, j as int),
        decreases v@.len() - j,
    {
        j += 1;
    }
    j
}

/// Advance past decimal digits.
#[verifier::loop_isolation(false)]
pub fn scan_digits(v: &Vec<char>, i: usize) -> (r: usize)
    requires
        i <= v@.len(),
    ensures
        i <= r <= v@.len(),
        r == digits_end(v@, i as int),
{
    let mut j = i;
    while j < v.len() && 48 <= v[j] as u32 && v[j] as u32 <= 57
        invariant
            i <= j <= v@.len(),
            digits_end(v@, i as int) == digits_end(v@, j as int),
        decreases v@.len() - j,
    {
        j += 1;
    }
    j
}

/// Parse the digit run `[a, b)` as a `usize`.
#[verifier::loop_isolation(false)]
pub fn atou_range(v: &Vec<char>, a: usize, b: usize) -> (r: Option<usize>)
    requires
        a <= b <= v@.len(),
    ensures
        r == spec_atou(v@.subrange(a as int, b as int)),
{
    let mut seg: Vec<char> = Vec::new();
    let mut i = a;
    while i < b
        invariant
            a <= i <= b,
            seg@ == v@.subrange(a as int, i as int),
        decreases b - i,
    {
        seg.push(v[i]);
        proof {
            assert(v@.subrange(a as int, i + 1) == v@.subrange(a as int, i as int).push(
                v@[i as int],
            ));
        }
        i += 1;
    }
    atou_chars(&seg)
}

/// Parse one range out of a character vector.
#[verifier::loop_isolation(false)]
pub fn parse_range_chars(v: &Vec<char>) -> (r: Option<Part>)
    ensures
        r == spec_parse_range(v@),
{
    let a = skip_spaces(v, 0);
    let b = scan_digits(v, a);
    let c = skip_spaces(v, b);
    if c < v.len() && v[c] == '-' {
        let d = skip_spaces(v, c + 1);
        let e = scan_digits(v, d);
        let f = skip_spaces(v, e);
        if f != v.len() {
            return None;
        }
        let st = if b > a {
            match atou_range(v, a, b) {
                Some(n) => n,
                None => {
                    return None;
                },
            }
        } else {
            0
        };
        let ed = if e > d {
            match atou_range(v, d, e) {
                Some(n) => n,
                None => {
                    return None;
                },
            }
        } else {
            0
        };
        Part::new(st, ed)
    } else if c == v.len() && b > a {
        match atou_range(v, a, b) {
            Some(n) => Part::new(n, n),
            None => None,
        }
    } else {
        None
    }
}

/// An ordered list of part ranges.
#[derive(Debug, Clone, PartialEq)]
pub struct PartList {
    pub list: Vec<Part>,
}

/// The first index at or after `i` that holds a comma, or the length.
pub open spec fn comma_end(s: Seq<char>, i: int) -> int
    decreases s.len() - i,
    when 0 <= i <= s.len()
{
    if i < s.len() && s[i] != ',' {
        comma_end(s, i + 1)
    } else {
        i
    }
}

/// `comma_end` stays within the bounds of the string.
pub proof fn lemma_comma_end_bounds(s: Seq<char>, i: int)
    requires
        0 <= i <= s.len(),
    ensures
        i <= comma_end(s, i) <= s.len(),
    decreases s.len() - i,
{
    if i < s.len() && s[i] != ',' {
        lemma_comma_end_bounds(s, i + 1);
    }
}

/// The ranges denoted by the comma-separated segments of `s` from `i` on;
/// `None` as soon as one segment fails to parse.
pub open spec fn spec_parse_segments(s: Seq<char>, i: int) -> Option<Seq<Part>>
    decreases s.len() - i,
    when 0 <= i <= s.len()
    via spec_parse_segments_decreases
{
    let j = comma_end(s, i);
    match spec_parse_range(s.subrange(i, j)) {
        None => None,
        Some(p) => if j == s.len() {
            Some(seq![p])
        } else {
            match spec_parse_segments(s, j + 1) {
                Some(rest) => Some(seq![p] + rest),
                None => None,
            }
        },
    }
}

#[via_fn]
proof fn spec_parse_segments_decreases(s: Seq<char>, i: int) {
    lemma_comma_end_bounds(s, i);
}

/// The ranges a JSON array element denotes: a number is a single part, a
/// string is one range.
pub open spec fn spec_parse_json_elem(j: Json) -> Option<Part> {
    match j {
        Json::Int(n) => if 0 <= n <= usize::MAX {
            Part::spec_new(n as usize, n as usize)
        } else {
            None
        },
        Json::Str(s) => spec_parse_range(s@),
        _ => None,
    }
}

/// The ranges denoted by the array elements from `i` on; `None` as soon as
/// one element is invalid.
pub open spec fn spec_parse_json_arr(items: Seq<Json>, i: int) -> Option<Seq<Part>>
    decreases items.len() - i,
    when 0 <= i <= items.len()
{
    if i == items.len() {
        Some(Seq::empty())
    } else {
        match spec_parse_json_elem(items[i]) {
            None => None,
            Some(p) => match spec_parse_json_arr(items, i + 1) {
                Some(rest) => Some(seq![p] + rest),
                None => None,
            },
        }
    }
}

/// The ranges a JSON value denotes: a list string, a single number, or an
/// array of numbers and range strings; an empty aggregate fails.
pub open spec fn spec_parse_json(j: Json) -> Option<Seq<Part>> {
    match j {
        Json::Str(s) => spec_parse_segments(s@, 0),
        Json::Int(n) => if 0 <= n <= usize::MAX {
            match Part::spec_new(n as usize, n as usize) {
                Some(p) => Some(seq![p]),
                None => None,
            }
        } else {
            None
        },
        Json::Arr(items) => match spec_parse_json_arr(items@, 0) {
            Some(ps) => if ps.len() > 0 {
                Some(ps)
            } else {
                None
            },
            None => None,
        },
        _ => None,
    }
}

impl PartList {
    /// Create a blank list.
    pub fn new() -> (r: PartList)
        ensures
            r.list@ =~= Seq::<Part>::empty(),
    {
        PartList { list: Vec::new() }
    }

    /// Parse a comma-separated list of ranges; every segment must parse and
    /// the list is then non-empty.
    #[verifier::loop_isolation(false)]
    pub fn parse_from_str(s: &str) -> (r: Option<PartList>)
        ensures
            match r {
                Some(pl) => spec_parse_segments(s@, 0) == Some(pl.list@),
                None => spec_parse_segments(s@, 0) is None,
            },
    {
        let v = chars_of(s);
        let mut out: Vec<Part> = Vec::new();
        let mut i: usize = 0;
        loop
            invariant
                0 <= i <= v@.len(),
                i != 0 ==> v@[i - 1] == ',',
                match spec_parse_segments(v@, 0) {
                    Some(all) => {
                        &&& spec_parse_segments(v@, i as int) is Some
                        &&& all =~= out@ + spec_parse_segments(v@, i as int)->Some_0
                    },
                    None => spec_parse_segments(v@, i as int) is None,
                },
            decreases v@.len() - i,
        {
            let mut j = i;
            while j < v.len() && v[j] != ','
                invariant
                    i <= j <= v@.len(),
                    comma_end(v@, i as int) == comma_end(v@, j as int),
                decreases v@.len() - j,
            {
                j += 1;
            }
            let mut seg: Vec<char> = Vec::new();
            let mut k = i;
            while k < j
                invariant
                    i <= k <= j <= v@.len(),
                    seg@ == v@.subrange(i as int, k as int),
                decreases j - k,
            {
                seg.push(v[k]);
                proof {
                    assert(v@.subrange(i as int, k + 1) == v@.subrange(i as int, k as int).push(
                        v@[k as int],
                    ));
                }
                k += 1;
            }
            let p = match parse_range_chars(&seg) {
                Some(p) => p,
                None => {
                    return None;
                },
            };
            out.push(p);
            if j == v.len() {
                proof {
                    if spec_parse_segments(v@, 0) is Some {
                        assert(spec_parse_segments(v@, 0)->Some_0 =~= out@);
                    }
                }
                return Some(PartList { list: out });
            }
            proof {
                if spec_parse_segments(v@, 0) is Some {
                    assert(seq![p] + spec_parse_segments(v@, j + 1)->Some_0 == spec_parse_segments(
                        v@,
                        i as int,
                    )->Some_0);
                }
            }
            i = j + 1;
        }
    }

    /// Parse ranges out of a JSON value, as `spec_parse_json`.
    #[verifier::loop_isolation(false)]
    pub fn parse_from_json(v: &Json) -> (r: Option<PartList>)
        ensures
            match r {
                Some(pl) => spec_parse_json(*v) == Some(pl.list@),
                None => spec_parse_json(*v) is None,
            },
    {
        match v {
            Json::Str(s) => PartList::parse_from_str(s.as_str()),
            Json::Int(_) => {
                let n = match v.as_usize() {
                    Some(n) => n,
                    None => {
                        return None;
                    },
                };
                match Part::new(n, n) {
                    Some(p) => {
                        let mut out: Vec<Part> = Vec::new();
                        out.push(p);
                        proof {
                            assert(out@ =~= seq![p]);
                        }
                        Some(PartList { list: out })
                    },
                    None => None,
                }
            },
            Json::Arr(items) => {
                let mut out: Vec<Part> = Vec::new();
                let mut i: usize = 0;
                while i < items.len()
                    invariant
                        0 <= i <= items@.len(),
                        match spec_parse_json_arr(items@, 0) {
                            Some(all) => {
                                &&& spec_parse_json_arr(items@, i as int) is Some
                                &&& all =~= out@ + spec_parse_json_arr(items@, i as int)->Some_0
                            },
                            None => spec_parse_json_arr(items@, i as int) is None,
                        },
                    decreases items@.len() - i,
                {
                    let p = match parse_json_elem(&items[i]) {
                        Some(p) => p,
                        None => {
                            return None;
                        },
                    };
                    out.push(p);
                    proof {
                        if spec_parse_json_arr(items@, 0) is Some {
                            assert(seq![p] + spec_parse_json_arr(items@, i + 1)->Some_0
                                == spec_parse_json_arr(items@, i as int)->Some_0);
                        }
                    }
                    i += 1;
                }
                if out.len() > 0 {
                    proof {
                        if spec_parse_json_arr(items@, 0) is Some {
                            assert(spec_parse_json_arr(items@, 0)->Some_0 =~= out@);
                        }
                    }
                    Some(PartList { list: out })
                } else {
                    None
                }
            },
            _ => None,
        }
    }
}

/// Parse one array element: a number is a single part, a string one range.
fn parse_json_elem(j: &Json) -> (r: Option<Part>)
    ensures
        r == spec_parse_json_elem(*j),
{
    match j {
        Json::Int(_) => {
            match j.as_usize() {
                Some(n) => Part::new(n, n),
                None => None,
            }
        },
        Json::Str(s) => Part::parse_from_str(s.as_str()),
        _ => None,
    }
}

impl From<Vec<Part>> for PartList {
    /// Wrap a vector of ranges.
    fn from(list: Vec<Part>) -> (r: PartList) {
        PartList { list }
    }
}

impl vstd::std_specs::convert::FromSpecImpl<Vec<Part>> for PartList {
    open spec fn obeys_from_spec() -> bool {
        true
    }

    open spec fn from_spec(list: Vec<Part>) -> PartList {
        PartList { list }
    }
}

} // verus!
