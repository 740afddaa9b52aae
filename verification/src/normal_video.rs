//! Resolution of a user-supplied URL to the video identity: a bare `avNNN`
//! or short-code token, a full site URL, or a short-link URL, each with an
//! optional explicit part number in the query.
use crate::codec::av_to_bv;
use crate::codec::bv_to_av;
use crate::codec::encodable;
use crate::codec::spec_av_to_bv;
use crate::codec::spec_bv_to_av;
use crate::part::digits_end;
use crate::size::lower_char;
use crate::size::lower_char_exec;
use crate::strutil::atou_chars;
use crate::strutil::chars_of;
use crate::strutil::spec_atou;
use crate::strutil::string_from_chars;
use vstd::prelude::*;

verus! {

/// The ghost image of a resolved URL.
pub struct UrlInfoModel {
    pub av: usize,
    pub bv: Seq<char>,
    pub part: Option<usize>,
}

/// Information from a video URL.
#[derive(Debug, PartialEq)]
pub struct UrlInfo {
    /// Numeric id.
    pub av: usize,
    /// Short code, as it appeared or as encoded from the numeric id.
    pub bv: String,
    /// Explicit part number.
    pub part: Option<usize>,
}

impl View for UrlInfo {
    type V = UrlInfoModel;

    open spec fn view(&self) -> UrlInfoModel {
        UrlInfoModel { av: self.av, bv: self.bv@, part: self.part }
    }
}

impl Clone for UrlInfo {
    fn clone(&self) -> (r: UrlInfo)
        ensures
            r@ == self@,
    {
        UrlInfo { av: self.av, bv: self.bv.clone(), part: self.part }
    }
}

impl UrlInfo {
    /// Create from the numeric id; `None` when the id is outside the range
    /// the codec supports.
    pub fn from_av(av: usize, part: Option<usize>) -> (r: Option<UrlInfo>)
        ensures
            r is Some <==> encodable(av),
            r matches Some(u) ==> u@ == (UrlInfoModel { av, bv: spec_av_to_bv(av), part }),
    {
        if !crate::codec::encodable_check(av) {
            return None;
        }
        Some(UrlInfo { av, bv: av_to_bv(av), part })
    }

    /// Create from a short code; `None` when the code does not decode.
    pub fn from_bv(bv: String, part: Option<usize>) -> (r: Option<UrlInfo>)
        ensures
            r is Some <==> spec_bv_to_av(bv@) is Ok,
            r matches Some(u) ==> u@ == (UrlInfoModel {
                av: spec_bv_to_av(bv@)->Ok_0,
                bv: bv@,
                part,
            }),
    {
        let ghost b = bv@;
        let av = match bv_to_av(bv.clone()) {
            Ok(av) => av,
            Err(_) => {
                return None;
            },
        };
        Some(UrlInfo { av, bv, part })
    }
}

/// A letter or digit, ASCII, either case.
pub open spec fn is_alnum(c: char) -> bool {
    ('a' as u32 <= lower_char(c) as u32 && lower_char(c) as u32 <= 'z' as u32) || ('0' as u32 <= c
        as u32 && c as u32 <= '9' as u32)
}

/// A character a host label may hold.
pub open spec fn is_label_char(c: char) -> bool {
    is_alnum(c) || c == '-'
}

/// Whether `pat` (all lower case) occurs at `i` of `s`, comparing case
/// insensitively.
pub open spec fn match_ci(s: Seq<char>, i: int, pat: Seq<char>) -> bool {
    &&& 0 <= i
    &&& i + pat.len() <= s.len()
    &&& forall|k: int| 0 <= k < pat.len() ==> lower_char(s[i + k]) == pat[k]
}

/// The first index at or after `i` that does not hold a letter or digit.
pub open spec fn alnum_end(s: Seq<char>, i: int) -> int
    decreases s.len() - i,
    when 0 <= i <= s.len()
{
    if i < s.len() && is_alnum(s[i]) {
        alnum_end(s, i + 1)
    } else {
        i
    }
}

/// The first index at or after `i` holding `c`, or the length.
pub open spec fn char_end(s: Seq<char>, i: int, c: char) -> int
    decreases s.len() - i,
    when 0 <= i <= s.len()
{
    if i < s.len() && s[i] != c {
        char_end(s, i + 1, c)
    } else {
        i
    }
}

/// `char_end` stays within bounds.
pub proof fn lemma_char_end_bounds(s: Seq<char>, i: int, c: char)
    requires
        0 <= i <= s.len(),
    ensures
        i <= char_end(s, i, c) <= s.len(),
    decreases s.len() - i,
{
    if i < s.len() && s[i] != c {
        lemma_char_end_bounds(s, i + 1, c);
    }
}

/// The explicit part text of a query: after the first `p=` (case
/// insensitive) that is followed by at least one character other than `&`,
/// the characters up to the next `&` or the end. `None` when the query
/// holds no such `p=`.
pub open spec fn spec_find_part(s: Seq<char>, i: int) -> Option<Seq<char>>
    decreases s.len() - i,
    when 0 <= i <= s.len()
    via spec_find_part_decreases
{
    if i + 2 >= s.len() {
        None
    } else if lower_char(s[i]) == 'p' && s[i + 1] == '=' && s[i + 2] != '&' {
        Some(s.subrange(i + 2, char_end(s, i + 2, '&')))
    } else {
        spec_find_part(s, i + 1)
    }
}

#[via_fn]
proof fn spec_find_part_decreases(s: Seq<char>, i: int) {
    if !(i + 2 >= s.len()) {
        lemma_char_end_bounds(s, i + 2, '&');
    }
}

/// The identity token and part text at position `i`: `av` digits or a
/// 9-10 character short-code body, then either the end or a query holding
/// an explicit part.
/// `None` when nothing well-formed stands there.
pub open spec fn spec_match_id(s: Seq<char>, i: int) -> Option<(
    Option<Seq<char>>,
    Option<Seq<char>>,
    Option<Seq<char>>,
)> {
    if 0 <= i && i + 2 <= s.len() && lower_char(s[i]) == 'a' && lower_char(s[i + 1]) == 'v' {
        let de = digits_end(s, i + 2);
        if de > i + 2 && de == s.len() {
            Some((Some(s.subrange(i + 2, de)), None, None))
        } else if de > i + 2 && de < s.len() && s[de] == '?' {
            match spec_find_part(s, de + 1) {
                Some(p) => Some((Some(s.subrange(i + 2, de)), None, Some(p))),
                None => None,
            }
        } else {
            None
        }
    } else if 0 <= i && i + 2 <= s.len() && lower_char(s[i]) == 'b' && lower_char(s[i + 1])
        == 'v' {
        let ae = alnum_end(s, i + 2);
        let n = ae - (i + 2);
        if (n == 9 || n == 10) && ae == s.len() {
            Some((None, Some(s.subrange(i, ae)), None))
        } else if (n == 9 || n == 10) && ae < s.len() && s[ae] == '?' {
            match spec_find_part(s, ae + 1) {
                Some(p) => Some((None, Some(s.subrange(i, ae)), Some(p))),
                None => None,
            }
        } else {
            None
        }
    } else {
        None
    }
}

/// Whether `[from, to)` is a run of dot-terminated host labels: possibly
/// empty, each label non-empty and made of letters, digits and dashes.
pub open spec fn valid_labels(s: Seq<char>, from: int, to: int) -> bool {
    &&& (from == to || s[to - 1] == '.')
    &&& forall|k: int| from <= k < to ==> is_label_char(#[trigger] s[k]) || s[k] == '.'
    &&& forall|k: int| from <= k < to && #[trigger] s[k] == '.' ==> k > from && s[k - 1] != '.'
}

/// Where the identity token starts in a site URL with the given host:
/// after an optional scheme, optional subdomain labels and the host itself
/// come either the `/video/` page path (with an optional leading `/s`),
/// when the host uses one, or a bare `/` with the token right after it.
/// `None` when the URL does not have this shape.
pub open spec fn spec_site_id_start(s: Seq<char>, host: Seq<char>, video_path: bool) -> Option<
    int,
> {
    let s0 = if match_ci(s, 0, "https://"@) {
        8int
    } else if match_ci(s, 0, "http://"@) {
        7int
    } else {
        0int
    };
    let q = char_end(s, s0, '/');
    if q < s.len() && q >= s0 + host.len() && match_ci(s, q - host.len(), host) && valid_labels(
        s,
        s0,
        q - host.len(),
    ) {
        if !video_path {
            Some(q + 1)
        } else if match_ci(s, q, "/s/video/"@) {
            Some(q + 9)
        } else if match_ci(s, q, "/video/"@) {
            Some(q + 7)
        } else {
            None
        }
    } else {
        None
    }
}

/// Whether the whole string is one bare identity token: `av` digits or a
/// short code, with nothing after it.
pub open spec fn spec_bare(s: Seq<char>) -> Option<(Option<Seq<char>>, Option<Seq<char>>)> {
    if s.len() >= 2 && lower_char(s[0]) == 'a' && lower_char(s[1]) == 'v' && digits_end(s, 2) > 2
        && digits_end(s, 2) == s.len() {
        Some((Some(s.subrange(2, s.len() as int)), None))
    } else if s.len() >= 2 && lower_char(s[0]) == 'b' && lower_char(s[1]) == 'v' && (alnum_end(
        s,
        2,
    ) == s.len()) && (s.len() == 11 || s.len() == 12) {
        Some((None, Some(s)))
    } else {
        None
    }
}

/// The identity token and part text a URL resolves to, under the three
/// recognized patterns: a bare token, a site URL, a short-link URL.
pub open spec fn spec_match_url(s: Seq<char>) -> Option<(
    Option<Seq<char>>,
    Option<Seq<char>>,
    Option<Seq<char>>,
)> {
    match spec_bare(s) {
        Some((av, bv)) => Some((av, bv, None)),
        None => match spec_site_id_start(s, "bilibili.com"@, true) {
            Some(i) => spec_match_id(s, i),
            None => match spec_site_id_start(s, "b23.tv"@, false) {
                Some(i) => spec_match_id(s, i),
                None => None,
            },
        },
    }
}

/// Case-insensitive comparison of a slice of `v` against a lower-case
/// pattern.
#[verifier::loop_isolation(false)]
fn match_ci_exec(v: &Vec<char>, i: usize, pat: &str) -> (r: bool)
    ensures
        r == match_ci(v@, i as int, pat@),
{
    let p = chars_of(pat);
    if i > v.len() || p.len() > v.len() - i {
        return false;
    }
    let mut k: usize = 0;
    while k < p.len()
        invariant
            0 <= k <= p@.len(),
            i + p@.len() <= v@.len(),
            forall|j: int| 0 <= j < k ==> lower_char(v@[i + j]) == p@[j],
        decreases p@.len() - k,
    {
        if lower_char_exec(v[i + k]) != p[k] {
            return false;
        }
        k += 1;
    }
    true
}

/// A letter or digit.
fn is_alnum_exec(c: char) -> (r: bool)
    ensures
        r == is_alnum(c),
{
    let l = lower_char_exec(c);
    let u = l as u32;
    let d = c as u32;
    (97 <= u && u <= 122) || (48 <= d && d <= 57)
}

/// Advance past letters and digits.
#[verifier::loop_isolation(false)]
fn scan_alnum(v: &Vec<char>, i: usize) -> (r: usize)
    requires
        i <= v@.len(),
    ensures
        i <= r <= v@.len(),
        r == alnum_end(v@, i as int),
{
    let mut j = i;
    while j < v.len() && is_alnum_exec(v[j])
        invariant
            i <= j <= v@.len(),
            alnum_end(v@, i as int) == alnum_end(v@, j as int),
        decreases v@.len() - j,
    {
        j += 1;
    }
    j
}

/// Advance to the next occurrence of a character.
#[verifier::loop_isolation(false)]
fn scan_to_char(v: &Vec<char>, i: usize, c: char) -> (r: usize)
    requires
        i <= v@.len(),
    ensures
        i <= r <= v@.len(),
        r == char_end(v@, i as int, c),
{
    let mut j = i;
    while j < v.len() && v[j] != c
        invariant
            i <= j <= v@.len(),
            char_end(v@, i as int, c) == char_end(v@, j as int, c),
        decreases v@.len() - j,
    {
        j += 1;
    }
    j
}

/// Find the explicit part text of a query.
#[verifier::loop_isolation(false)]
fn find_part_exec(v: &Vec<char>, i: usize) -> (r: Option<Vec<char>>)
    requires
        i <= v@.len(),
    ensures
        match r {
            Some(p) => spec_find_part(v@, i as int) == Some(p@),
            None => spec_find_part(v@, i as int) is None,
        },
{
    let mut j = i;
    while v.len() >= 3 && j < v.len() - 2
        invariant
            i <= j <= v@.len(),
            spec_find_part(v@, i as int) == spec_find_part(v@, j as int),
        decreases v@.len() - j,
    {
        if lower_char_exec(v[j]) == 'p' && v[j + 1] == '=' && v[j + 2] != '&' {
            let e = scan_to_char(v, j + 2, '&');
            return Some(crate::strutil::copy_range(v, j + 2, e));
        }
        j += 1;
    }
    None
}

/// Match the identity token and query at a position.
#[verifier::loop_isolation(false)]
fn match_id_exec(v: &Vec<char>, i: usize) -> (r: Option<
    (Option<Vec<char>>, Option<Vec<char>>, Option<Vec<char>>),
>)
    requires
        i <= v@.len(),
    ensures
        match r {
            Some((av, bv, part)) => spec_match_id(v@, i as int) matches Some((sav, sbv, spart))
                && (match (av, sav) {
                (Some(a), Some(sa)) => a@ == sa,
                (None, None) => true,
                _ => false,
            }) && (match (bv, sbv) {
                (Some(b), Some(sb)) => b@ == sb,
                (None, None) => true,
                _ => false,
            }) && (match (part, spart) {
                (Some(p), Some(sp)) => p@ == sp,
                (None, None) => true,
                _ => false,
            }),
            None => spec_match_id(v@, i as int) is None,
        },
{
    if v.len() < 2 || i > v.len() - 2 {
        return None;
    }
    let c0 = lower_char_exec(v[i]);
    let c1 = lower_char_exec(v[i + 1]);
    if c0 == 'a' && c1 == 'v' {
        let de = crate::part::scan_digits(v, i + 2);
        if de == i + 2 {
            return None;
        }
        if de == v.len() {
            return Some((Some(crate::strutil::copy_range(v, i + 2, de)), None, None));
        }
        if v[de] == '?' {
            match find_part_exec(v, de + 1) {
                Some(p) => {
                    return Some((Some(crate::strutil::copy_range(v, i + 2, de)), None, Some(p)));
                },
                None => {
                    return None;
                },
            }
        }
        None
    } else if c0 == 'b' && c1 == 'v' {
        let ae = scan_alnum(v, i + 2);
        let n = ae - (i + 2);
        if n != 9 && n != 10 {
            return None;
        }
        if ae == v.len() {
            return Some((None, Some(crate::strutil::copy_range(v, i, ae)), None));
        }
        if v[ae] == '?' {
            match find_part_exec(v, ae + 1) {
                Some(p) => {
                    return Some((None, Some(crate::strutil::copy_range(v, i, ae)), Some(p)));
                },
                None => {
                    return None;
                },
            }
        }
        None
    } else {
        None
    }
}

/// Where the identity token starts in a site URL with the given host.
#[verifier::loop_isolation(false)]
fn site_id_start_exec(v: &Vec<char>, host: &str, video_path: bool) -> (r: Option<usize>)
    ensures
        match r {
            Some(i) => spec_site_id_start(v@, host@, video_path) == Some(i as int) && i
                <= v@.len(),
            None => spec_site_id_start(v@, host@, video_path) is None,
        },
{
    let h = chars_of(host);
    let s0: usize = if match_ci_exec(v, 0, "https://") {
        8
    } else if match_ci_exec(v, 0, "http://") {
        7
    } else {
        0
    };
    if s0 > v.len() {
        return None;
    }
    let q = scan_to_char(v, s0, '/');
    if q >= v.len() || q < s0 || q - s0 < h.len() {
        return None;
    }
    if !match_ci_exec(v, q - h.len(), host) {
        return None;
    }
    let lbl_to = q - h.len();
    if !(lbl_to == s0 || v[lbl_to - 1] == '.') {
        return None;
    }
    let mut k = s0;
    while k < lbl_to
        invariant
            s0 <= k <= lbl_to <= v@.len(),
            forall|j: int|
                s0 <= j < k ==> is_label_char(#[trigger] v@[j]) || v@[j] == '.',
            forall|j: int|
                s0 <= j < k && #[trigger] v@[j] == '.' ==> j > s0 && v@[j - 1] != '.',
        decreases lbl_to - k,
    {
        let c = v[k];
        if !(is_alnum_exec(c) || c == '-' || c == '.') {
            return None;
        }
        if c == '.' && (k == s0 || v[k - 1] == '.') {
            return None;
        }
        k += 1;
    }
    if !video_path {
        return Some(q + 1);
    }
    if match_ci_exec(v, q, "/s/video/") {
        proof {
            reveal_strlit("/s/video/");
        }
        return Some(q + 9);
    }
    if match_ci_exec(v, q, "/video/") {
        proof {
            reveal_strlit("/video/");
            reveal_strlit("/s/video/");
        }
        return Some(q + 7);
    }
    None
}

/// The resolution a URL denotes: the numeric id and short code of the
/// video, with the explicit part number if one parses (an unparsable part
/// text is dropped, not an error). A URL that matches no pattern, an `av`
/// number that overflows or falls outside the supported range, and a short
/// code that does not decode all fail.
pub open spec fn spec_parse_url(s: Seq<char>) -> Option<UrlInfoModel> {
    match spec_match_url(s) {
        None => None,
        Some((av_digits, bv_token, part_text)) => {
            let part = match part_text {
                Some(p) => spec_atou(p),
                None => None,
            };
            match av_digits {
                Some(d) => match spec_atou(d) {
                    Some(av) => if encodable(av) {
                        Some(UrlInfoModel { av, bv: spec_av_to_bv(av), part })
                    } else {
                        None
                    },
                    None => None,
                },
                None => match spec_bv_to_av(bv_token->Some_0) {
                    Ok(av) => Some(UrlInfoModel { av, bv: bv_token->Some_0, part }),
                    Err(_) => None,
                },
            }
        },
    }
}

/// The provider of ordinary site videos: it resolves a URL to the video
/// identity and holds the page and part data the host has fetched.
pub struct BiliNormalVideoProvider {
    /// Basic information extracted from the page.
    pub videoinfo: Option<crate::json_model::Json>,
    /// Playback information extracted from the page.
    pub playinfo: Option<crate::json_model::Json>,
    /// The part list, from the page data or from the API.
    pub partinfo: Option<crate::part_info::PartInfoList>,
    /// The resolved input URL.
    pub url: Option<UrlInfo>,
}

impl BiliNormalVideoProvider {
    pub fn new() -> (r: BiliNormalVideoProvider)
        ensures
            r.videoinfo is None,
            r.playinfo is None,
            r.partinfo is None,
            r.url is None,
    {
        BiliNormalVideoProvider { videoinfo: None, playinfo: None, partinfo: None, url: None }
    }

    /// Resolve a URL to the video identity, as `spec_parse_url`.
    #[verifier::rlimit(100)]
    pub fn parse_url(url: &str) -> (r: Option<UrlInfo>)
        ensures
            match r {
                Some(u) => spec_parse_url(url@) == Some(u@),
                None => spec_parse_url(url@) is None,
            },
    {
        let v = chars_of(url);
        let m = if v.len() >= 2 && lower_char_exec(v[0]) == 'a' && lower_char_exec(v[1]) == 'v'
            && crate::part::scan_digits(&v, 2) > 2 && crate::part::scan_digits(&v, 2) == v.len() {
            Some((Some(crate::strutil::copy_range(&v, 2, v.len())), None, None))
        } else if v.len() >= 2 && lower_char_exec(v[0]) == 'b' && lower_char_exec(v[1]) == 'v'
            && scan_alnum(&v, 2) == v.len() && (v.len() == 11 || v.len() == 12) {
            Some((None, Some(crate::strutil::copy_range(&v, 0, v.len())), None))
        } else {
            proof {
                assert(spec_bare(v@) is None);
            }
            match site_id_start_exec(&v, "bilibili.com", true) {
                Some(i) => match_id_exec(&v, i),
                None => match site_id_start_exec(&v, "b23.tv", false) {
                    Some(i) => match_id_exec(&v, i),
                    None => None,
                },
            }
        };
        let (av_digits, bv_token, part_text) = match m {
            Some(t) => t,
            None => {
                return None;
            },
        };
        let part: Option<usize> = match &part_text {
            Some(p) => atou_chars(p),
            None => None,
        };
        match av_digits {
            Some(d) => {
                let av = match atou_chars(&d) {
                    Some(av) => av,
                    None => {
                        return None;
                    },
                };
                let res = UrlInfo::from_av(av, part);
                proof {
                    let m = spec_parse_url(url@);
                    if res is Some {
                        let u = res->Some_0;
                        assert(m matches Some(sm) && sm.av == u@.av && sm.bv == u@.bv && sm.part
                            == u@.part);
                    }
                }
                res
            },
            None => {
                let t = match bv_token {
                    Some(t) => t,
                    None => {
                        return None;
                    },
                };
                let bv = string_from_chars(&t);
                let res = UrlInfo::from_bv(bv, part);
                proof {
                    let m = spec_parse_url(url@);
                    if res is Some {
                        let u = res->Some_0;
                        assert(m matches Some(sm) && sm.av == u@.av && sm.bv == u@.bv && sm.part
                            == u@.part);
                    }
                }
                res
            },
        }
    }

    /// Whether a URL resolves under the known patterns.
    pub fn match_url(url: &str) -> (r: bool)
        ensures
            r == (spec_parse_url(url@) is Some),
    {
        Self::parse_url(url).is_some()
    }

    /// The number of parts the page data reports.
    pub fn part_count(&self) -> (r: Option<usize>)
        ensures
            r == (match self.videoinfo {
                Some(vi) => crate::json_model::spec_as_usize(
                    match crate::json_model::spec_get(vi, "videoData"@) {
                        Some(vd) => match crate::json_model::spec_get(vd, "videos"@) {
                            Some(c) => c,
                            None => crate::json_model::Json::Null,
                        },
                        None => crate::json_model::Json::Null,
                    },
                ),
                None => None::<usize>,
            }),
    {
        match &self.videoinfo {
            Some(vi) => {
                let vd = match vi.get("videoData") {
                    Some(vd) => vd,
                    None => {
                        return None;
                    },
                };
                let c = match vd.get("videos") {
                    Some(c) => c,
                    None => {
                        return None;
                    },
                };
                c.as_usize()
            },
            None => None,
        }
    }

    /// Build the metadata of one part from the page data. The part number
    /// defaults to the first; it must name an existing part.
    pub fn gen_video_metadata(&self, p: Option<usize>) -> (r: Option<crate::metadata::VideoMetadata>)
        requires
            self.partinfo matches Some(pl) && 1 <= (match p {
                Some(n) => n,
                None => 1usize,
            }) <= pl@.len(),
        ensures
            r is Some <==> self.videoinfo is Some,
            r matches Some(md) ==> {
                let vi = self.videoinfo->Some_0;
                let n = match p {
                    Some(n) => n,
                    None => 1usize,
                };
                let c = crate::json_model::spec_as_usize(
                    match crate::json_model::spec_get(vi, "videoData"@) {
                        Some(vd) => match crate::json_model::spec_get(vd, "videos"@) {
                            Some(x) => x,
                            None => crate::json_model::Json::Null,
                        },
                        None => crate::json_model::Json::Null,
                    },
                );
                let part = self.partinfo->Some_0@[n - 1].part;
                &&& (match vd_str(vi, "title"@) {
                    Some(t) => {
                        &&& (match md.title {
                            Some(mt) => mt@ == (if c is None || c == Some(1usize) {
                                t
                            } else {
                                t + " - "@ + part
                            }),
                            None => false,
                        })
                        &&& crate::getopt::view_opt_string(md.album) == Some(t)
                    },
                    None => md.title is None && md.album is None,
                })
                &&& crate::getopt::view_opt_string(md.description) == vd_str(vi, "desc"@)
                &&& crate::getopt::view_opt_string(md.author) == owner_name(vi)
                &&& crate::getopt::view_opt_string(md.album_artist) == owner_name(vi)
                &&& crate::getopt::view_opt_string(md.video_id) == vd_str(vi, "bvid"@)
                &&& md.date == (match vd_i64(vi, "pubdate"@) {
                    Some(ts) => Some(ts),
                    None => vd_i64(vi, "ctime"@),
                })
                &&& (match md.track {
                    Some(tr) => c matches Some(total) && n <= total && tr.spec_no() == n
                        && tr.spec_total() == total,
                    None => c is None || c->Some_0 < n,
                })
                &&& md.tags@.map_values(|s: String| s@) == spec_tag_names(
                    arr_members(crate::json_model::spec_get(vi, "tags"@)),
                    0,
                )
                &&& md.extra@.len() >= 1
                &&& md.extra@[0].0@ == "part"@
                &&& md.extra@[0].1@ == part
                &&& md.comment is None
            },
    {
        let vi = match &self.videoinfo {
            Some(vi) => vi,
            None => {
                return None;
            },
        };
        let mut md = crate::metadata::VideoMetadata::default();
        let n: usize = match p {
            Some(n) => n,
            None => 1,
        };
        let c = self.part_count();
        match c {
            Some(total) => {
                match crate::metadata::NoInTotal::new(n, total) {
                    Some(tr) => {
                        md.track = Some(tr);
                    },
                    None => {},
                }
            },
            None => {},
        }
        let pl = match &self.partinfo {
            Some(pl) => pl,
            None => {
                return None;
            },
        };
        let pa = &pl.list[n - 1];
        md.extra.push(("part".to_owned(), pa.part.clone()));
        let vd = vi.get("videoData");
        let title = get_opt_str(vd, "title");
        match &title {
            Some(t) => {
                let single = match c {
                    Some(total) => total == 1,
                    None => true,
                };
                if single {
                    md.title = Some(t.clone());
                } else {
                    let mut full = crate::strutil::chars_of(t.as_str());
                    let mut sep = crate::strutil::chars_of(" - ");
                    let mut rest = crate::strutil::chars_of(pa.part.as_str());
                    proof {
                        reveal_strlit(" - ");
                    }
                    full.append(&mut sep);
                    full.append(&mut rest);
                    md.title = Some(crate::strutil::string_from_chars(&full));
                }
                md.album = Some(t.clone());
            },
            None => {},
        }
        md.description = get_opt_str(vd, "desc");
        let owner = match vd {
            Some(v) => v.get("owner"),
            None => None,
        };
        let au = get_opt_str(owner, "name");
        match &au {
            Some(a) => {
                md.author = Some(a.clone());
                md.album_artist = Some(a.clone());
            },
            None => {},
        }
        let bv = get_opt_str(vd, "bvid");
        match &bv {
            Some(b) => {
                md.video_id = Some(b.clone());
                md.extra.push(("bvid".to_owned(), b.clone()));
            },
            None => {},
        }
        let pubdate = get_opt_i64(vd, "pubdate");
        let ctime = get_opt_i64(vd, "ctime");
        match pubdate {
            Some(ts) => {
                md.date = Some(ts);
                match utc_debug(ts) {
                    Some(s) => {
                        md.extra.push(("pubdate".to_owned(), s));
                    },
                    None => {},
                }
            },
            None => {
                md.date = ctime;
            },
        }
        match ctime {
            Some(ts) => {
                match utc_debug(ts) {
                    Some(s) => {
                        md.extra.push(("ctime".to_owned(), s));
                    },
                    None => {},
                }
            },
            None => {},
        }
        md.tags = collect_tags(vi.get("tags"));
        match get_opt_i64(vd, "aid") {
            Some(aid) => {
                if 0 <= aid && aid as u64 <= usize::MAX as u64 {
                    md.extra.push(("aid".to_owned(), format_av(aid as usize)));
                }
            },
            None => {},
        }
        Some(md)
    }

    /// Whether the fetched data of the first part marks the video as
    /// interactive: its `interaction` member is an object.
    pub fn is_interaction_video(cid_info: &crate::json_model::Json) -> (r: bool)
        ensures
            r == (crate::json_model::spec_get(*cid_info, "interaction"@) matches Some(i)
                && i is Obj),
    {
        match cid_info.get("interaction") {
            Some(i) => i.is_object(),
            None => false,
        }
    }
}

/// A string member of `videoData`.
pub open spec fn vd_str(vi: crate::json_model::Json, key: Seq<char>) -> Option<Seq<char>> {
    match crate::json_model::spec_get(vi, "videoData"@) {
        Some(vd) => match crate::json_model::spec_get(vd, key) {
            Some(crate::json_model::Json::Str(s)) => Some(s@),
            _ => None,
        },
        None => None,
    }
}

/// A numeric member of `videoData`.
pub open spec fn vd_i64(vi: crate::json_model::Json, key: Seq<char>) -> Option<i64> {
    match crate::json_model::spec_get(vi, "videoData"@) {
        Some(vd) => match crate::json_model::spec_get(vd, key) {
            Some(crate::json_model::Json::Int(n)) => Some(n),
            _ => None,
        },
        None => None,
    }
}

/// The owner's name in `videoData`.
pub open spec fn owner_name(vi: crate::json_model::Json) -> Option<Seq<char>> {
    match crate::json_model::spec_get(vi, "videoData"@) {
        Some(vd) => match crate::json_model::spec_get(vd, "owner"@) {
            Some(o) => match crate::json_model::spec_get(o, "name"@) {
                Some(crate::json_model::Json::Str(s)) => Some(s@),
                _ => None,
            },
            None => None,
        },
        None => None,
    }
}

/// The members of an optional array member, nothing otherwise.
pub open spec fn arr_members(v: Option<crate::json_model::Json>) -> Seq<crate::json_model::Json> {
    match v {
        Some(crate::json_model::Json::Arr(items)) => items@,
        _ => Seq::empty(),
    }
}

/// The `tag_name` strings of the tag entries from `i` on; entries without
/// one are skipped.
pub open spec fn spec_tag_names(items: Seq<crate::json_model::Json>, i: int) -> Seq<Seq<char>>
    decreases items.len() - i,
    when 0 <= i <= items.len()
{
    if i == items.len() {
        Seq::empty()
    } else {
        match crate::json_model::spec_get(items[i], "tag_name"@) {
            Some(crate::json_model::Json::Str(s)) => seq![s@] + spec_tag_names(items, i + 1),
            _ => spec_tag_names(items, i + 1),
        }
    }
}

/// A string member of an optional object, cloned out.
fn get_opt_str(v: Option<&crate::json_model::Json>, key: &str) -> (r: Option<String>)
    ensures
        crate::getopt::view_opt_string(r) == (match v {
            Some(o) => match crate::json_model::spec_get(*o, key@) {
                Some(crate::json_model::Json::Str(s)) => Some(s@),
                _ => None::<Seq<char>>,
            },
            None => None::<Seq<char>>,
        }),
{
    match v {
        Some(o) => match o.get(key) {
            Some(crate::json_model::Json::Str(s)) => Some(s.clone()),
            _ => None,
        },
        None => None,
    }
}

/// A numeric member of an optional object.
fn get_opt_i64(v: Option<&crate::json_model::Json>, key: &str) -> (r: Option<i64>)
    ensures
        r == (match v {
            Some(o) => match crate::json_model::spec_get(*o, key@) {
                Some(crate::json_model::Json::Int(n)) => Some(n),
                _ => None::<i64>,
            },
            None => None::<i64>,
        }),
{
    match v {
        Some(o) => match o.get(key) {
            Some(crate::json_model::Json::Int(n)) => Some(*n),
            _ => None,
        },
        None => None,
    }
}

/// Collect the tag names of the page data.
#[verifier::loop_isolation(false)]
fn collect_tags(tags: Option<&crate::json_model::Json>) -> (r: Vec<String>)
    ensures
        r@.map_values(|s: String| s@) == spec_tag_names(
            arr_members(
                match tags {
                    Some(t) => Some(*t),
                    None => None,
                },
            ),
            0,
        ),
{
    let mut out: Vec<String> = Vec::new();
    let items = match tags {
        Some(crate::json_model::Json::Arr(items)) => items,
        _ => {
            proof {
                assert(out@.map_values(|s: String| s@) =~= Seq::<Seq<char>>::empty());
            }
            return out;
        },
    };
    let mut i: usize = 0;
    while i < items.len()
        invariant
            0 <= i <= items@.len(),
            spec_tag_names(items@, 0) =~= out@.map_values(|s: String| s@) + spec_tag_names(
                items@,
                i as int,
            ),
        decreases items@.len() - i,
    {
        match items[i].get("tag_name") {
            Some(crate::json_model::Json::Str(s)) => {
                let ghost before = out@;
                let t = s.clone();
                let ghost tv = t@;
                out.push(t);
                proof {
                    assert(out@.map_values(|q: String| q@) =~= before.map_values(
                        |q: String| q@,
                    ).push(tv));
                    assert(seq![tv] + spec_tag_names(items@, i + 1) == spec_tag_names(
                        items@,
                        i as int,
                    ));
                    assert(before.map_values(|q: String| q@).push(tv) + spec_tag_names(
                        items@,
                        i + 1,
                    ) =~= before.map_values(|q: String| q@) + (seq![tv] + spec_tag_names(
                        items@,
                        i + 1,
                    )));
                }
            },
            _ => {},
        }
        i += 1;
    }
    out
}

/// The display form of a numeric id: `AV` and its decimal digits.
#[verifier::loop_isolation(false)]
fn format_av(aid: usize) -> (r: String)
    ensures
        r@ == "AV"@ + crate::strutil::spec_usize_digits(aid as int),
{
    let mut out: Vec<char> = chars_of("AV");
    let ghost prefix = out@;
    let digits = crate::strutil::usize_digits(aid);
    let mut k: usize = 0;
    while k < digits.len()
        invariant
            0 <= k <= digits@.len(),
            out@ =~= prefix + digits@.subrange(0, k as int),
        decreases digits@.len() - k,
    {
        out.push(digits[k]);
        proof {
            assert(out@ =~= prefix + digits@.subrange(0, k + 1));
        }
        k += 1;
    }
    proof {
        assert(digits@.subrange(0, digits@.len() as int) =~= digits@);
    }
    string_from_chars(&out)
}

/// The rendering chrono gives a UTC timestamp; the result depends on the
/// timestamp alone.
pub uninterp spec fn utc_debug_of(ts: i64) -> Seq<char>;

/// Relies on chrono's UTC timestamp construction and its Debug rendering;
/// a timestamp outside the range chrono supports yields nothing.
#[verifier::external_body]
fn utc_debug(ts: i64) -> (r: Option<String>)
    ensures
        r matches Some(s) ==> s@ == utc_debug_of(ts),
{
    match chrono::TimeZone::timestamp_opt(&chrono::Utc, ts, 0) {
        chrono::LocalResult::Single(t) => Some(format!("{:?}", t)),
        _ => None,
    }
}

} // verus!
