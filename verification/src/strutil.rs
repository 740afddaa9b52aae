//! Character-level string utilities.
//!
//! All parsing in this crate works on `Vec<char>` so that every step is
//! verified; `String` values only cross the boundary through the two trusted
//! conversions below.
use vstd::prelude::*;

verus! {

/// Relies on str::chars: yields exactly the characters of the string, in order.
#[verifier::external_body]
pub fn chars_of(s: &str) -> (r: Vec<char>)
    ensures
        r@ == s@,
{
    s.chars().collect()
}

/// Relies on String's FromIterator impl: collecting characters builds the
/// string made of exactly those characters, in order.
#[verifier::external_body]
pub fn string_from_chars(v: &Vec<char>) -> (r: String)
    ensures
        r@ == v@,
{
    v.iter().collect()
}

/// Relies on str's PartialEq: two string slices are equal exactly when
/// their character sequences are.
#[verifier::external_body]
pub fn str_eq(a: &str, b: &str) -> (r: bool)
    ensures
        r == (a@ == b@),
{
    a == b
}

pub open spec fn is_digit(c: char) -> bool {
    '0' as u32 <= c as u32 && c as u32 <= '9' as u32
}

pub open spec fn digit_val(c: char) -> int {
    c as u32 - '0' as u32
}

pub open spec fn all_digits(s: Seq<char>) -> bool {
    forall|i: int| 0 <= i < s.len() ==> is_digit(#[trigger] s[i])
}

/// The numeric value of a digit string, most significant digit first.
pub open spec fn digits_value(s: Seq<char>) -> int
    decreases s.len(),
{
    if s.len() == 0 {
        0
    } else {
        digits_value(s.drop_last()) * 10 + digit_val(s.last())
    }
}

/// On digit strings the value is nonnegative and never shrinks as more
/// digits are appended.
proof fn lemma_digits_value_prefix_le(s: Seq<char>, i: int, j: int)
    requires
        0 <= i <= j <= s.len(),
        all_digits(s.subrange(0, j)),
        digits_value(s.subrange(0, i)) >= 0,
    ensures
        digits_value(s.subrange(0, i)) <= digits_value(s.subrange(0, j)),
    decreases j - i,
{
    if i < j {
        let p = s.subrange(0, j);
        let q = s.subrange(0, j - 1);
        assert(all_digits(q)) by {
            assert(forall|k: int| 0 <= k < q.len() ==> q[k] == p[k]);
        }
        lemma_digits_value_prefix_le(s, i, j - 1);
        assert(p.drop_last() == q);
        assert(is_digit(p.last())) by {
            assert(p.last() == p[j - 1]);
        }
        let v = digits_value(q);
        assert(v * 10 + digit_val(p.last()) >= v) by (nonlinear_arith)
            requires
                v >= 0,
                digit_val(p.last()) >= 0,
        ;
    }
}

/// What `atou` accepts: an optional leading `'+'`, then one or more decimal
/// digits whose value fits in `usize`.
pub open spec fn spec_atou(s: Seq<char>) -> Option<usize> {
    let t = if s.len() > 0 && s[0] == '+' {
        s.subrange(1, s.len() as int)
    } else {
        s
    };
    if t.len() > 0 && all_digits(t) && digits_value(t) <= usize::MAX {
        Some(digits_value(t) as usize)
    } else {
        None
    }
}

/// Parse an unsigned decimal integer, entire input, overflow rejected.
pub fn atou_chars(s: &Vec<char>) -> (r: Option<usize>)
    ensures
        r == spec_atou(s@),
{
    let start: usize = if s.len() > 0 && s[0] == '+' {
        1
    } else {
        0
    };
    let ghost t = if s@.len() > 0 && s@[0] == '+' {
        s@.subrange(1, s@.len() as int)
    } else {
        s@
    };
    proof {
        assert(s@.subrange(0, s@.len() as int) =~= s@);
    }
    if s.len() == start {
        return None;
    }
    let mut acc: usize = 0;
    let mut i: usize = start;
    while i < s.len()
        invariant
            start <= i <= s@.len(),
            s@.len() > start,
            t == s@.subrange(start as int, s@.len() as int),
            t == (if s@.len() > 0 && s@[0] == '+' {
                s@.subrange(1, s@.len() as int)
            } else {
                s@
            }),
            all_digits(t.subrange(0, i - start)),
            acc == digits_value(t.subrange(0, i - start)),
        decreases s@.len() - i,
    {
        let c = s[i];
        let u = c as u32;
        if !(48 <= u && u <= 57) {
            proof {
                assert(t[i - start] == c);
                assert(!all_digits(t));
            }
            return None;
        }
        let d: usize = (u - 48) as usize;
        assert(d == digit_val(c));
        if acc > (usize::MAX - d) / 10 {
            proof {
                let p = t.subrange(0, i + 1 - start);
                assert(p.drop_last() == t.subrange(0, i - start));
                assert(p.last() == c);
                assert(digits_value(p) == acc * 10 + d);
                assert(acc * 10 + d > usize::MAX) by (nonlinear_arith)
                    requires
                        acc > (usize::MAX - d) / 10,
                        d <= 9,
                        acc <= usize::MAX,
                ;
                if all_digits(t) {
                    assert(t.subrange(0, t.len() as int) == t);
                    lemma_digits_value_prefix_le(t, i + 1 - start, t.len() as int);
                }
            }
            return None;
        }
        proof {
            let p = t.subrange(0, i + 1 - start);
            assert(p.drop_last() == t.subrange(0, i - start));
            assert(p.last() == c);
            assert(acc * 10 + d <= usize::MAX) by (nonlinear_arith)
                requires
                    acc <= (usize::MAX - d) / 10,
                    d <= 9,
            ;
        }
        acc = acc * 10 + d;
        i += 1;
    }
    proof {
        assert(t.subrange(0, t.len() as int) == t);
    }
    Some(acc)
}

/// Copy the characters of `[a, b)`.
#[verifier::loop_isolation(false)]
pub fn copy_range(v: &Vec<char>, a: usize, b: usize) -> (r: Vec<char>)
    requires
        a <= b <= v@.len(),
    ensures
        r@ == v@.subrange(a as int, b as int),
{
    let mut out: Vec<char> = Vec::new();
    let mut i = a;
    while i < b
        invariant
            a <= i <= b,
            out@ == v@.subrange(a as int, i as int),
        decreases b - i,
    {
        out.push(v[i]);
        proof {
            assert(v@.subrange(a as int, i + 1) == v@.subrange(a as int, i as int).push(
                v@[i as int],
            ));
        }
        i += 1;
    }
    out
}

/// Whether a string starts with the given character.
pub fn starts_with_char(s: &str, c: char) -> (r: bool)
    ensures
        r == (s@.len() > 0 && s@[0] == c),
{
    let v = chars_of(s);
    v.len() > 0 && v[0] == c
}

/// The character of one decimal digit.
pub open spec fn digit_char(d: int) -> char {
    ((48 + d) as u8) as char
}

/// The decimal rendering of a nonnegative number, most significant digit
/// first.
pub open spec fn spec_usize_digits(n: int) -> Seq<char>
    decreases n,
    when n >= 0
{
    if n < 10 {
        seq![digit_char(n)]
    } else {
        spec_usize_digits(n / 10).push(digit_char(n % 10))
    }
}

/// Render a number in decimal.
#[verifier::loop_isolation(false)]
pub fn usize_digits(n: usize) -> (r: Vec<char>)
    ensures
        r@ == spec_usize_digits(n as int),
{
    let mut out: Vec<char> = Vec::new();
    if n == 0 {
        out.push('0');
        proof {
            assert(digit_char(0) == '0');
            assert(out@ =~= spec_usize_digits(0));
        }
        return out;
    }
    let mut m = n;
    while m > 0
        invariant
            m >= 0,
            spec_usize_digits(n as int) =~= (if m == 0 {
                out@
            } else {
                spec_usize_digits(m as int) + out@
            }),
        decreases m,
    {
        let d = m % 10;
        let c = ((48 + d) as u8) as char;
        proof {
            assert(c == digit_char(m as int % 10));
        }
        let ghost out_before = out@;
        out.insert(0, c);
        proof {
            assert(out@ =~= seq![c] + out_before);
            if m >= 10 {
                assert(spec_usize_digits(m as int) =~= spec_usize_digits(m as int / 10) + seq![
                    digit_char(m as int % 10),
                ]);
            } else {
                assert(spec_usize_digits(m as int) =~= seq![digit_char(m as int)]);
            }
        }
        m = m / 10;
    }
    out
}

/// Parse an unsigned decimal integer out of a string.
pub fn atou(s: &str) -> (r: Option<usize>)
    ensures
        r == spec_atou(s@),
{
    let v = chars_of(s);
    atou_chars(&v)
}

} // verus!
