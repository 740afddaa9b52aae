//! The bidirectional codec between the numeric video id (`av`) and the
//! 12-character short code (`bv`).
//!
//! Encoding obfuscates the id with a fixed XOR key and an additive key, then
//! writes the result in base 58 into six designated positions of a fixed
//! template; decoding reads the six symbols back and undoes the obfuscation.
use vstd::prelude::*;

verus! {

/// XOR key applied to the numeric id before the base-58 expansion.
pub const XOR_KEY: u64 = 177451812;

/// Additive key applied after the XOR.
pub const ADD_KEY: u64 = 8728348608;

/// 58 to the sixth power: one more than the largest value the six base-58
/// symbols can carry.
pub const POW58_6: u64 = 38068692544;

/// A short-code decode failure.
#[derive(Clone, Copy, Debug, PartialEq, Eq, Structural)]
pub enum CodecError {
    /// The code is neither 11 nor 12 characters long.
    BadLength,
    /// One of the six symbol positions holds a character outside the alphabet.
    BadChar,
    /// The six symbols decode to a value below the additive key.
    BadValue,
}

/// 58 raised to `i`, for the six symbol positions.
pub open spec fn pow58(i: int) -> int {
    if i == 0 {
        1
    } else if i == 1 {
        58
    } else if i == 2 {
        3364
    } else if i == 3 {
        195112
    } else if i == 4 {
        11316496
    } else if i == 5 {
        656356768
    } else if i == 6 {
        38068692544
    } else {
        0
    }
}

/// The base-58 alphabet, by index.
pub open spec fn spec_alpha_char(i: int) -> char {
    if i == 0 {
        'f'
    } else if i == 1 {
        'Z'
    } else if i == 2 {
        'o'
    } else if i == 3 {
        'd'
    } else if i == 4 {
        'R'
    } else if i == 5 {
        '9'
    } else if i == 6 {
        'X'
    } else if i == 7 {
        'Q'
    } else if i == 8 {
        'D'
    } else if i == 9 {
        'S'
    } else if i == 10 {
        'U'
    } else if i == 11 {
        'm'
    } else if i == 12 {
        '2'
    } else if i == 13 {
        '1'
    } else if i == 14 {
        'y'
    } else if i == 15 {
        'C'
    } else if i == 16 {
        'k'
    } else if i == 17 {
        'r'
    } else if i == 18 {
        '6'
    } else if i == 19 {
        'z'
    } else if i == 20 {
        'B'
    } else if i == 21 {
        'q'
    } else if i == 22 {
        'i'
    } else if i == 23 {
        'v'
    } else if i == 24 {
        'e'
    } else if i == 25 {
        'Y'
    } else if i == 26 {
        'a'
    } else if i == 27 {
        'h'
    } else if i == 28 {
        '8'
    } else if i == 29 {
        'b'
    } else if i == 30 {
        't'
    } else if i == 31 {
        '4'
    } else if i == 32 {
        'x'
    } else if i == 33 {
        's'
    } else if i == 34 {
        'W'
    } else if i == 35 {
        'p'
    } else if i == 36 {
        'H'
    } else if i == 37 {
        'n'
    } else if i == 38 {
        'J'
    } else if i == 39 {
        'E'
    } else if i == 40 {
        '7'
    } else if i == 41 {
        'j'
    } else if i == 42 {
        'L'
    } else if i == 43 {
        '5'
    } else if i == 44 {
        'V'
    } else if i == 45 {
        'G'
    } else if i == 46 {
        '3'
    } else if i == 47 {
        'g'
    } else if i == 48 {
        'u'
    } else if i == 49 {
        'M'
    } else if i == 50 {
        'T'
    } else if i == 51 {
        'K'
    } else if i == 52 {
        'N'
    } else if i == 53 {
        'P'
    } else if i == 54 {
        'A'
    } else if i == 55 {
        'w'
    } else if i == 56 {
        'c'
    } else {
        'F'
    }
}

/// The inverse alphabet lookup: the index of a character, or `None` for a
/// character outside the alphabet.
pub open spec fn spec_alpha_index(c: char) -> Option<u64> {
    if c == 'f' {
        Some(0u64)
    } else if c == 'Z' {
        Some(1u64)
    } else if c == 'o' {
        Some(2u64)
    } else if c == 'd' {
        Some(3u64)
    } else if c == 'R' {
        Some(4u64)
    } else if c == '9' {
        Some(5u64)
    } else if c == 'X' {
        Some(6u64)
    } else if c == 'Q' {
        Some(7u64)
    } else if c == 'D' {
        Some(8u64)
    } else if c == 'S' {
        Some(9u64)
    } else if c == 'U' {
        Some(10u64)
    } else if c == 'm' {
        Some(11u64)
    } else if c == '2' {
        Some(12u64)
    } else if c == '1' {
        Some(13u64)
    } else if c == 'y' {
        Some(14u64)
    } else if c == 'C' {
        Some(15u64)
    } else if c == 'k' {
        Some(16u64)
    } else if c == 'r' {
        Some(17u64)
    } else if c == '6' {
        Some(18u64)
    } else if c == 'z' {
        Some(19u64)
    } else if c == 'B' {
        Some(20u64)
    } else if c == 'q' {
        Some(21u64)
    } else if c == 'i' {
        Some(22u64)
    } else if c == 'v' {
        Some(23u64)
    } else if c == 'e' {
        Some(24u64)
    } else if c == 'Y' {
        Some(25u64)
    } else if c == 'a' {
        Some(26u64)
    } else if c == 'h' {
        Some(27u64)
    } else if c == '8' {
        Some(28u64)
    } else if c == 'b' {
        Some(29u64)
    } else if c == 't' {
        Some(30u64)
    } else if c == '4' {
        Some(31u64)
    } else if c == 'x' {
        Some(32u64)
    } else if c == 's' {
        Some(33u64)
    } else if c == 'W' {
        Some(34u64)
    } else if c == 'p' {
        Some(35u64)
    } else if c == 'H' {
        Some(36u64)
    } else if c == 'n' {
        Some(37u64)
    } else if c == 'J' {
        Some(38u64)
    } else if c == 'E' {
        Some(39u64)
    } else if c == '7' {
        Some(40u64)
    } else if c == 'j' {
        Some(41u64)
    } else if c == 'L' {
        Some(42u64)
    } else if c == '5' {
        Some(43u64)
    } else if c == 'V' {
        Some(44u64)
    } else if c == 'G' {
        Some(45u64)
    } else if c == '3' {
        Some(46u64)
    } else if c == 'g' {
        Some(47u64)
    } else if c == 'u' {
        Some(48u64)
    } else if c == 'M' {
        Some(49u64)
    } else if c == 'T' {
        Some(50u64)
    } else if c == 'K' {
        Some(51u64)
    } else if c == 'N' {
        Some(52u64)
    } else if c == 'P' {
        Some(53u64)
    } else if c == 'A' {
        Some(54u64)
    } else if c == 'w' {
        Some(55u64)
    } else if c == 'c' {
        Some(56u64)
    } else if c == 'F' {
        Some(57u64)
    } else {
        None
    }
}

/// The `i`-th base-58 digit of `x`.
pub open spec fn spec_digit(x: int, i: int) -> int {
    (x / pow58(i)) % 58
}

/// The obfuscated value that the six symbols carry for a given id.
pub open spec fn obfuscated(av: usize) -> int {
    (((av as u64) ^ XOR_KEY) + ADD_KEY) as int
}

/// The ids the codec supports: those whose obfuscated value fits in six
/// base-58 symbols.
pub open spec fn encodable(av: usize) -> bool {
    obfuscated(av) < POW58_6
}

/// The short code for an id: the fixed template with the six base-58 digits
/// of the obfuscated value written at positions 11, 10, 3, 8, 4 and 6.
pub open spec fn spec_av_to_bv(av: usize) -> Seq<char> {
    let x = obfuscated(av);
    seq![
        'B',
        'V',
        '1',
        spec_alpha_char(spec_digit(x, 2)),
        spec_alpha_char(spec_digit(x, 4)),
        '4',
        spec_alpha_char(spec_digit(x, 5)),
        '1',
        spec_alpha_char(spec_digit(x, 3)),
        '7',
        spec_alpha_char(spec_digit(x, 1)),
        spec_alpha_char(spec_digit(x, 0)),
    ]
}

/// An 11-character truncated code has its leading `1` reinserted; anything
/// else is taken as it stands.
pub open spec fn canonical_bv(s: Seq<char>) -> Seq<char> {
    if s.len() == 11 {
        seq!['B', 'V', '1'] + s.subrange(2, 11)
    } else {
        s
    }
}

/// Whether all six symbol positions of a canonical code hold alphabet
/// characters.
pub open spec fn bv_symbols_ok(s: Seq<char>) -> bool {
    &&& spec_alpha_index(s[11]) is Some
    &&& spec_alpha_index(s[10]) is Some
    &&& spec_alpha_index(s[3]) is Some
    &&& spec_alpha_index(s[8]) is Some
    &&& spec_alpha_index(s[4]) is Some
    &&& spec_alpha_index(s[6]) is Some
}

/// The value carried by the six symbols of a canonical code.
pub open spec fn bv_sum(s: Seq<char>) -> int {
    spec_alpha_index(s[11])->Some_0 as int + spec_alpha_index(s[10])->Some_0 as int * 58
        + spec_alpha_index(s[3])->Some_0 as int * 3364 + spec_alpha_index(
        s[8],
    )->Some_0 as int * 195112 + spec_alpha_index(s[4])->Some_0 as int * 11316496
        + spec_alpha_index(s[6])->Some_0 as int * 656356768
}

/// The numeric id a short code decodes to, or the failure it is rejected
/// with.
pub open spec fn spec_bv_to_av(s: Seq<char>) -> Result<usize, CodecError> {
    let t = canonical_bv(s);
    if t.len() != 12 {
        Err(CodecError::BadLength)
    } else if !bv_symbols_ok(t) {
        Err(CodecError::BadChar)
    } else if bv_sum(t) < ADD_KEY {
        Err(CodecError::BadValue)
    } else if (((bv_sum(t) - ADD_KEY) as u64) ^ XOR_KEY) > usize::MAX {
        Err(CodecError::BadValue)
    } else {
        Ok(((((bv_sum(t) - ADD_KEY) as u64) ^ XOR_KEY) as usize))
    }
}

/// Alphabet lookup by index.
fn alpha_char(d: u64) -> (c: char)
    requires
        d < 58,
    ensures
        c == spec_alpha_char(d as int),
{
    match d {
        0 => 'f',
        1 => 'Z',
        2 => 'o',
        3 => 'd',
        4 => 'R',
        5 => '9',
        6 => 'X',
        7 => 'Q',
        8 => 'D',
        9 => 'S',
        10 => 'U',
        11 => 'm',
        12 => '2',
        13 => '1',
        14 => 'y',
        15 => 'C',
        16 => 'k',
        17 => 'r',
        18 => '6',
        19 => 'z',
        20 => 'B',
        21 => 'q',
        22 => 'i',
        23 => 'v',
        24 => 'e',
        25 => 'Y',
        26 => 'a',
        27 => 'h',
        28 => '8',
        29 => 'b',
        30 => 't',
        31 => '4',
        32 => 'x',
        33 => 's',
        34 => 'W',
        35 => 'p',
        36 => 'H',
        37 => 'n',
        38 => 'J',
        39 => 'E',
        40 => '7',
        41 => 'j',
        42 => 'L',
        43 => '5',
        44 => 'V',
        45 => 'G',
        46 => '3',
        47 => 'g',
        48 => 'u',
        49 => 'M',
        50 => 'T',
        51 => 'K',
        52 => 'N',
        53 => 'P',
        54 => 'A',
        55 => 'w',
        56 => 'c',
        57 => 'F',
        _ => ' ',
    }
}

/// Inverse alphabet lookup.
fn alpha_index(c: char) -> (r: Option<u64>)
    ensures
        r == spec_alpha_index(c),
        r is Some ==> r->Some_0 < 58,
{
    match c {
        'f' => Some(0),
        'Z' => Some(1),
        'o' => Some(2),
        'd' => Some(3),
        'R' => Some(4),
        '9' => Some(5),
        'X' => Some(6),
        'Q' => Some(7),
        'D' => Some(8),
        'S' => Some(9),
        'U' => Some(10),
        'm' => Some(11),
        '2' => Some(12),
        '1' => Some(13),
        'y' => Some(14),
        'C' => Some(15),
        'k' => Some(16),
        'r' => Some(17),
        '6' => Some(18),
        'z' => Some(19),
        'B' => Some(20),
        'q' => Some(21),
        'i' => Some(22),
        'v' => Some(23),
        'e' => Some(24),
        'Y' => Some(25),
        'a' => Some(26),
        'h' => Some(27),
        '8' => Some(28),
        'b' => Some(29),
        't' => Some(30),
        '4' => Some(31),
        'x' => Some(32),
        's' => Some(33),
        'W' => Some(34),
        'p' => Some(35),
        'H' => Some(36),
        'n' => Some(37),
        'J' => Some(38),
        'E' => Some(39),
        '7' => Some(40),
        'j' => Some(41),
        'L' => Some(42),
        '5' => Some(43),
        'V' => Some(44),
        'G' => Some(45),
        '3' => Some(46),
        'g' => Some(47),
        'u' => Some(48),
        'M' => Some(49),
        'T' => Some(50),
        'K' => Some(51),
        'N' => Some(52),
        'P' => Some(53),
        'A' => Some(54),
        'w' => Some(55),
        'c' => Some(56),
        'F' => Some(57),
        _ => None,
    }
}

/// Whether the codec supports an id.
pub fn encodable_check(av: usize) -> (r: bool)
    ensures
        r == encodable(av),
{
    ((av as u64) ^ XOR_KEY) < POW58_6 - ADD_KEY
}

/// Encode a numeric id as its 12-character short code.
pub fn av_to_bv(av: usize) -> (r: String)
    requires
        encodable(av),
    ensures
        r@ == spec_av_to_bv(av),
{
    let x: u64 = ((av as u64) ^ XOR_KEY) + ADD_KEY;
    let d0: u64 = x % 58;
    let d1: u64 = (x / 58) % 58;
    let d2: u64 = (x / 3364) % 58;
    let d3: u64 = (x / 195112) % 58;
    let d4: u64 = (x / 11316496) % 58;
    let d5: u64 = (x / 656356768) % 58;
    let mut cs: Vec<char> = Vec::new();
    cs.push('B');
    cs.push('V');
    cs.push('1');
    cs.push(alpha_char(d2));
    cs.push(alpha_char(d4));
    cs.push('4');
    cs.push(alpha_char(d5));
    cs.push('1');
    cs.push(alpha_char(d3));
    cs.push('7');
    cs.push(alpha_char(d1));
    cs.push(alpha_char(d0));
    proof {
        assert(cs@ =~= spec_av_to_bv(av));
    }
    crate::strutil::string_from_chars(&cs)
}

/// Decode a short code back to its numeric id.
pub fn bv_to_av(bv: String) -> (r: Result<usize, CodecError>)
    ensures
        r == spec_bv_to_av(bv@),
{
    let cs = crate::strutil::chars_of(bv.as_str());
    let t: Vec<char> = if cs.len() == 11 {
        let mut v: Vec<char> = Vec::new();
        v.push('B');
        v.push('V');
        v.push('1');
        let mut i: usize = 2;
        while i < 11
            invariant
                2 <= i <= 11,
                cs@.len() == 11,
                v@ == seq!['B', 'V', '1'] + cs@.subrange(2, i as int),
            decreases 11 - i,
        {
            v.push(cs[i]);
            proof {
                assert(cs@.subrange(2, i + 1) == cs@.subrange(2, i as int).push(cs@[i as int]));
            }
            i += 1;
        }
        v
    } else {
        cs
    };
    proof {
        assert(t@ == canonical_bv(bv@));
    }
    if t.len() != 12 {
        return Err(CodecError::BadLength);
    }
    let i0 = match alpha_index(t[11]) {
        Some(d) => d,
        None => {
            return Err(CodecError::BadChar);
        },
    };
    let i1 = match alpha_index(t[10]) {
        Some(d) => d,
        None => {
            return Err(CodecError::BadChar);
        },
    };
    let i2 = match alpha_index(t[3]) {
        Some(d) => d,
        None => {
            return Err(CodecError::BadChar);
        },
    };
    let i3 = match alpha_index(t[8]) {
        Some(d) => d,
        None => {
            return Err(CodecError::BadChar);
        },
    };
    let i4 = match alpha_index(t[4]) {
        Some(d) => d,
        None => {
            return Err(CodecError::BadChar);
        },
    };
    let i5 = match alpha_index(t[6]) {
        Some(d) => d,
        None => {
            return Err(CodecError::BadChar);
        },
    };
    let sum: u64 = i0 + i1 * 58 + i2 * 3364 + i3 * 195112 + i4 * 11316496 + i5 * 656356768;
    if sum < ADD_KEY {
        return Err(CodecError::BadValue);
    }
    let av: u64 = (sum - ADD_KEY) ^ XOR_KEY;
    if av > usize::MAX as u64 {
        return Err(CodecError::BadValue);
    }
    Ok(av as usize)
}

/// The six base-58 digits of a value below `POW58_6` recombine to that value.
proof fn lemma_base58_reconstruct(x: int)
    requires
        0 <= x < POW58_6,
    ensures
        spec_digit(x, 0) + spec_digit(x, 1) * 58 + spec_digit(x, 2) * 3364 + spec_digit(x, 3)
            * 195112 + spec_digit(x, 4) * 11316496 + spec_digit(x, 5) * 656356768 == x,
{
    let t1 = x / 58;
    let t2 = x / 3364;
    let t3 = x / 195112;
    let t4 = x / 11316496;
    let t5 = x / 656356768;
    let t6 = x / 38068692544;
    vstd::arithmetic::div_mod::lemma_div_denominator(x, 58, 58);
    vstd::arithmetic::div_mod::lemma_div_denominator(x, 3364, 58);
    vstd::arithmetic::div_mod::lemma_div_denominator(x, 195112, 58);
    vstd::arithmetic::div_mod::lemma_div_denominator(x, 11316496, 58);
    vstd::arithmetic::div_mod::lemma_div_denominator(x, 656356768, 58);
    assert(t1 / 58 == t2);
    assert(t2 / 58 == t3);
    assert(t3 / 58 == t4);
    assert(t4 / 58 == t5);
    assert(t5 / 58 == t6);
    vstd::arithmetic::div_mod::lemma_fundamental_div_mod(x, 58);
    vstd::arithmetic::div_mod::lemma_fundamental_div_mod(t1, 58);
    vstd::arithmetic::div_mod::lemma_fundamental_div_mod(t2, 58);
    vstd::arithmetic::div_mod::lemma_fundamental_div_mod(t3, 58);
    vstd::arithmetic::div_mod::lemma_fundamental_div_mod(t4, 58);
    vstd::arithmetic::div_mod::lemma_fundamental_div_mod(t5, 58);
    assert(t6 == 0) by {
        vstd::arithmetic::div_mod::lemma_basic_div(x, 38068692544);
    }
}

/// The alphabet lookup inverts the alphabet table.
proof fn lemma_alpha_inverse(d: int)
    requires
        0 <= d < 58,
    ensures
        spec_alpha_index(spec_alpha_char(d)) == Some(d as u64),
{
}

/// Law: decoding an encoded id yields the id back, for every id the codec
/// supports.
pub proof fn lemma_codec_round_trip(av: usize)
    requires
        encodable(av),
    ensures
        spec_bv_to_av(spec_av_to_bv(av)) == Ok::<usize, CodecError>(av),
{
    let x = obfuscated(av);
    let s = spec_av_to_bv(av);
    assert(s.len() == 12);
    assert(canonical_bv(s) == s);
    lemma_alpha_inverse(spec_digit(x, 0));
    lemma_alpha_inverse(spec_digit(x, 1));
    lemma_alpha_inverse(spec_digit(x, 2));
    lemma_alpha_inverse(spec_digit(x, 3));
    lemma_alpha_inverse(spec_digit(x, 4));
    lemma_alpha_inverse(spec_digit(x, 5));
    lemma_base58_reconstruct(x);
    assert(bv_sum(s) == x);
    let y = (bv_sum(s) - ADD_KEY) as u64;
    assert(y == (av as u64) ^ XOR_KEY);
    assert(((av as u64) ^ XOR_KEY) ^ XOR_KEY == av as u64) by (bit_vector);
}

} // verus!
