//! Cookies: one cookie's name, value, domain and path; a jar of cookies per
//! provider; and the collection of jars that the cookie file holds. Reading
//! and writing the file itself stays with the host program.
use crate::convert::ToStr;
use crate::json_model::spec_get;
use crate::json_model::Json;
use crate::size::lower_char;
use crate::strutil::chars_of;
use crate::strutil::str_eq;
use crate::strutil::string_from_chars;
use vstd::prelude::*;

verus! {

/// What a percent-encoded text decodes to, `None` when the decoded bytes
/// are not valid UTF-8; the result depends on the text alone.
pub uninterp spec fn url_decoded(s: Seq<char>) -> Option<Seq<char>>;

/// `url_decoded`, with the law the decoder's source plainly gives spelled
/// out: text without a `%` decodes to itself.
pub open spec fn spec_percent_decoded(s: Seq<char>) -> Option<Seq<char>> {
    if forall|i: int| 0 <= i < s.len() ==> s[i] != '%' {
        Some(s)
    } else {
        url_decoded(s)
    }
}

/// Relies on urlencoding::decode: percent sequences become bytes, anything
/// else is kept, text without a `%` is returned unchanged, and the result
/// depends on the text alone.
#[verifier::external_body]
fn url_decode(s: &str) -> (r: Option<String>)
    ensures
        match r {
            Some(t) => url_decoded(s@) == Some(t@) && ((forall|i: int|
                0 <= i < s@.len() ==> s@[i] != '%') ==> t@ == s@),
            None => url_decoded(s@) is None && !(forall|i: int|
                0 <= i < s@.len() ==> s@[i] != '%'),
        },
{
    match urlencoding::decode(s) {
        Ok(c) => Some(c.into_owned()),
        Err(_) => None,
    }
}

/// ASCII whitespace.
pub open spec fn is_ws(c: char) -> bool {
    c == ' ' || c == '\t' || c == '\n' || c == '\r'
}

/// The first index at or after `i` that holds no whitespace.
pub open spec fn ws_end(s: Seq<char>, i: int) -> int
    decreases s.len() - i,
    when 0 <= i <= s.len()
{
    if i < s.len() && is_ws(s[i]) {
        ws_end(s, i + 1)
    } else {
        i
    }
}

/// The last index at or before `i` after which only whitespace follows.
pub open spec fn ws_rend(s: Seq<char>, i: int) -> int
    decreases i,
    when 0 <= i <= s.len()
{
    if i > 0 && is_ws(s[i - 1]) {
        ws_rend(s, i - 1)
    } else {
        i
    }
}

/// The string with surrounding whitespace removed.
pub open spec fn spec_trim(s: Seq<char>) -> Seq<char> {
    let a = ws_end(s, 0);
    let b = ws_rend(s, s.len() as int);
    if a <= b {
        s.subrange(a, b)
    } else {
        Seq::empty()
    }
}

/// Remove surrounding whitespace.
#[verifier::loop_isolation(false)]
pub fn trim_chars(v: &Vec<char>) -> (r: Vec<char>)
    ensures
        r@ == spec_trim(v@),
{
    let mut a: usize = 0;
    while a < v.len() && (v[a] == ' ' || v[a] == '\t' || v[a] == '\n' || v[a] == '\r')
        invariant
            0 <= a <= v@.len(),
            ws_end(v@, 0) == ws_end(v@, a as int),
        decreases v@.len() - a,
    {
        a += 1;
    }
    let mut b: usize = v.len();
    while b > 0 && (v[b - 1] == ' ' || v[b - 1] == '\t' || v[b - 1] == '\n' || v[b - 1] == '\r')
        invariant
            0 <= b <= v@.len(),
            ws_rend(v@, v@.len() as int) == ws_rend(v@, b as int),
        decreases b,
    {
        b -= 1;
    }
    if a <= b {
        crate::strutil::copy_range(v, a, b)
    } else {
        Vec::new()
    }
}

/// Whether a JSON value is the object form of a cookie: `name` and
/// `value` strings, and `domain` and `path` strings present exactly when
/// the cookie carries them.
pub open spec fn cookie_json_matches(j: Json, c: CookieModel) -> bool {
    &&& j is Obj
    &&& (match spec_get(j, "name"@) {
        Some(Json::Str(s)) => s@ == c.name,
        _ => false,
    })
    &&& (match spec_get(j, "value"@) {
        Some(Json::Str(s)) => s@ == c.value,
        _ => false,
    })
    &&& (match c.domain {
        Some(d) => (match spec_get(j, "domain"@) {
            Some(Json::Str(s)) => s@ == d,
            _ => false,
        }),
        None => spec_get(j, "domain"@) is None,
    })
    &&& (match c.path {
        Some(p) => (match spec_get(j, "path"@) {
            Some(Json::Str(s)) => s@ == p,
            _ => false,
        }),
        None => spec_get(j, "path"@) is None,
    })
}

/// The ghost image of a cookie.
pub struct CookieModel {
    pub name: Seq<char>,
    pub value: Seq<char>,
    pub domain: Option<Seq<char>>,
    pub path: Option<Seq<char>>,
}

/// One cookie.
#[derive(Debug, PartialEq)]
pub struct Cookie {
    _name: String,
    _value: String,
    _domain: Option<String>,
    _path: Option<String>,
}

impl View for Cookie {
    type V = CookieModel;

    closed spec fn view(&self) -> CookieModel {
        CookieModel {
            name: self._name@,
            value: self._value@,
            domain: crate::getopt::view_opt_string(self._domain),
            path: crate::getopt::view_opt_string(self._path),
        }
    }
}

impl Cookie {
    /// A cookie with no domain or path yet.
    pub fn new(name: &str, value: &str) -> (r: Cookie)
        ensures
            r@ == (CookieModel { name: name@, value: value@, domain: None, path: None }),
    {
        Cookie { _name: name.to_owned(), _value: value.to_owned(), _domain: None, _path: None }
    }

    pub fn name(&self) -> (r: &str)
        ensures
            r@ == self@.name,
    {
        self._name.as_str()
    }

    pub fn value(&self) -> (r: &str)
        ensures
            r@ == self@.value,
    {
        self._value.as_str()
    }

    pub fn domain(&self) -> (r: Option<&str>)
        ensures
            match r {
                Some(d) => self@.domain == Some(d@),
                None => self@.domain is None,
            },
    {
        match &self._domain {
            Some(dm) => Some(dm.as_str()),
            None => None,
        }
    }

    pub fn set_domain(&mut self, domain: Option<&str>)
        ensures
            final(self)@ == (CookieModel {
                domain: match domain {
                    Some(d) => Some(d@),
                    None => None,
                },
                ..old(self)@
            }),
    {
        match domain {
            Some(dm) => {
                self._domain = Some(dm.to_owned());
            },
            None => {
                self._domain = None;
            },
        }
    }

    pub fn path(&self) -> (r: Option<&str>)
        ensures
            match r {
                Some(p) => self@.path == Some(p@),
                None => self@.path is None,
            },
    {
        match &self._path {
            Some(ph) => Some(ph.as_str()),
            None => None,
        }
    }

    pub fn set_path(&mut self, path: Option<&str>)
        ensures
            final(self)@ == (CookieModel {
                path: match path {
                    Some(p) => Some(p@),
                    None => None,
                },
                ..old(self)@
            }),
    {
        match path {
            Some(p) => {
                self._path = Some(p.to_owned());
            },
            None => {
                self._path = None;
            },
        }
    }

    /// Parse one `Set-Cookie` header value: the first `;`-separated segment
    /// gives the name and the percent-decoded value (only the text up to a
    /// second `=` counts); later `Domain=` and `Path=` attributes, compared
    /// case-insensitively, give the domain and the path, the last
    /// occurrence winning. An empty name, a missing `=`, or a value that
    /// does not percent-decode give `None`.
    pub fn from_set_cookie(c: &str) -> (r: Option<Cookie>)
        ensures
            match r {
                Some(ck) => spec_set_cookie(c@) == Some(ck@),
                None => spec_set_cookie(c@) is None,
            },
    {
        let v = chars_of(c);
        let semi = scan_to_semi(&v, 0);
        let f = trim_chars(&crate::strutil::copy_range(&v, 0, semi));
        let eq = scan_to_eq(&f, 0);
        if eq == f.len() {
            return None;
        }
        if eq == 0 {
            return None;
        }
        let eq2 = scan_to_eq(&f, eq + 1);
        let vtext = string_from_chars(&crate::strutil::copy_range(&f, eq + 1, eq2));
        let value = match url_decode(vtext.as_str()) {
            Some(val) => val,
            None => {
                return None;
            },
        };
        let key = string_from_chars(&crate::strutil::copy_range(&f, 0, eq));
        let mut ck = Cookie::new(key.as_str(), value.as_str());
        let (dom, path) = cookie_attrs(&v, semi);
        match &dom {
            Some(d) => ck.set_domain(Some(d.as_str())),
            None => {},
        }
        match &path {
            Some(p) => ck.set_path(Some(p.as_str())),
            None => {},
        }
        Some(ck)
    }

    /// Parse one line of a netscape cookie file: seven tab-separated
    /// fields; the first is the domain, the third the path, the last two
    /// the name and the value. A line without exactly seven fields gives
    /// `None`.
    pub fn from_netscape_cookie<U: ToStr>(c: &U) -> (r: Option<Cookie>)
        ensures
            match c.spec_to_str() {
                Some(s) => match r {
                    Some(ck) => spec_netscape_cookie(s) == Some(ck@),
                    None => spec_netscape_cookie(s) is None,
                },
                None => r is None,
            },
    {
        let s = match c.to_str() {
            Some(s) => s,
            None => {
                return None;
            },
        };
        let v0 = chars_of(s);
        let v = trim_chars(&v0);
        let fields = split_tabs(&v);
        if fields.len() != 7 {
            return None;
        }
        let name = string_from_chars(&fields[5]);
        let value = string_from_chars(&fields[6]);
        let mut ck = Cookie::new(name.as_str(), value.as_str());
        if fields[2].len() > 0 {
            let p = string_from_chars(&fields[2]);
            ck.set_path(Some(p.as_str()));
        }
        if fields[0].len() > 0 {
            let dm = string_from_chars(&fields[0]);
            ck.set_domain(Some(dm.as_str()));
        }
        Some(ck)
    }

    /// The cookie as a JSON object with `name` and `value`, and `domain`
    /// and `path` when set.
    pub fn to_json(&self) -> (r: Option<Json>)
        ensures
            r matches Some(j) && cookie_json_matches(j, self@),
    {
        let mut entries: Vec<(String, Json)> = Vec::new();
        entries.push(("name".to_owned(), Json::Str(self._name.clone())));
        entries.push(("value".to_owned(), Json::Str(self._value.clone())));
        match &self._domain {
            Some(d) => {
                entries.push(("domain".to_owned(), Json::Str(d.clone())));
            },
            None => {},
        }
        match &self._path {
            Some(p) => {
                entries.push(("path".to_owned(), Json::Str(p.clone())));
            },
            None => {},
        }
        let r = Json::Obj(entries);
        proof {
            reveal_strlit("name");
            reveal_strlit("value");
            reveal_strlit("domain");
            reveal_strlit("path");
            let es = r->Obj_0@;
            assert("name"@[0] == 'n' && "value"@[0] == 'v' && "domain"@[0] == 'd' && "path"@[0]
                == 'p');
            assert("name"@ != "path"@);
            crate::json_model::lemma_obj_get_at(es, "name"@, 0);
            crate::json_model::lemma_obj_get_at(es, "value"@, 1);
            if self@.domain is Some {
                crate::json_model::lemma_obj_get_at(es, "domain"@, 2);
                if self@.path is Some {
                    crate::json_model::lemma_obj_get_at(es, "path"@, 3);
                } else {
                    crate::json_model::lemma_obj_get_none(es, "path"@);
                }
            } else {
                crate::json_model::lemma_obj_get_none(es, "domain"@);
                if self@.path is Some {
                    crate::json_model::lemma_obj_get_at(es, "path"@, 2);
                } else {
                    crate::json_model::lemma_obj_get_none(es, "path"@);
                }
            }
        }
        Some(r)
    }
}

impl Clone for Cookie {
    fn clone(&self) -> (r: Cookie)
        ensures
            r@ == self@,
    {
        Cookie {
            _name: self._name.clone(),
            _value: self._value.clone(),
            _domain: match &self._domain {
                Some(d) => Some(d.clone()),
                None => None,
            },
            _path: match &self._path {
                Some(p) => Some(p.clone()),
                None => None,
            },
        }
    }
}

/// The first index at or after `i` holding `;`, or the length.
pub open spec fn semi_end(s: Seq<char>, i: int) -> int
    decreases s.len() - i,
    when 0 <= i <= s.len()
{
    if i < s.len() && s[i] != ';' {
        semi_end(s, i + 1)
    } else {
        i
    }
}

/// The first index at or after `i` holding `=`, or the length.
pub open spec fn eq_end(s: Seq<char>, i: int) -> int
    decreases s.len() - i,
    when 0 <= i <= s.len()
{
    if i < s.len() && s[i] != '=' {
        eq_end(s, i + 1)
    } else {
        i
    }
}

#[verifier::loop_isolation(false)]
fn scan_to_semi(v: &Vec<char>, i: usize) -> (r: usize)
    requires
        i <= v@.len(),
    ensures
        i <= r <= v@.len(),
        r == semi_end(v@, i as int),
{
    let mut j = i;
    while j < v.len() && v[j] != ';'
        invariant
            i <= j <= v@.len(),
            semi_end(v@, i as int) == semi_end(v@, j as int),
        decreases v@.len() - j,
    {
        j += 1;
    }
    j
}

#[verifier::loop_isolation(false)]
fn scan_to_eq(v: &Vec<char>, i: usize) -> (r: usize)
    requires
        i <= v@.len(),
    ensures
        i <= r <= v@.len(),
        r == eq_end(v@, i as int),
{
    let mut j = i;
    while j < v.len() && v[j] != '='
        invariant
            i <= j <= v@.len(),
            eq_end(v@, i as int) == eq_end(v@, j as int),
        decreases v@.len() - j,
    {
        j += 1;
    }
    j
}

/// `semi_end` stays within bounds.
pub proof fn lemma_semi_end_bounds(s: Seq<char>, i: int)
    requires
        0 <= i <= s.len(),
    ensures
        i <= semi_end(s, i) <= s.len(),
    decreases s.len() - i,
{
    if i < s.len() && s[i] != ';' {
        lemma_semi_end_bounds(s, i + 1);
    }
}

/// The `Domain=` and `Path=` attributes among the segments from `i` on
/// (`i` points at a `;` or the end); later occurrences win.
pub open spec fn spec_attrs(s: Seq<char>, i: int) -> (Option<Seq<char>>, Option<Seq<char>>)
    decreases s.len() - i,
    when 0 <= i <= s.len()
    via spec_attrs_decreases
{
    if i >= s.len() {
        (None, None)
    } else {
        let j = semi_end(s, i + 1);
        let seg = spec_trim(s.subrange(i + 1, j));
        let eq = eq_end(seg, 0);
        let rest = spec_attrs(s, j);
        if eq < seg.len() {
            let k = seg.subrange(0, eq).map_values(|c: char| lower_char(c));
            let val = seg.subrange(eq + 1, eq_end(seg, eq + 1));
            if k == "domain"@ {
                (
                    match rest.0 {
                        Some(d) => Some(d),
                        None => Some(val),
                    },
                    rest.1,
                )
            } else if k == "path"@ {
                (
                    rest.0,
                    match rest.1 {
                        Some(p) => Some(p),
                        None => Some(val),
                    },
                )
            } else {
                rest
            }
        } else {
            rest
        }
    }
}

#[via_fn]
proof fn spec_attrs_decreases(s: Seq<char>, i: int) {
    if i < s.len() {
        lemma_semi_end_bounds(s, i + 1);
    }
}

/// Collect the `Domain=` and `Path=` attributes of the segments after the
/// first, the last occurrence winning.
#[verifier::loop_isolation(false)]
fn cookie_attrs(v: &Vec<char>, start: usize) -> (r: (Option<String>, Option<String>))
    requires
        start <= v@.len(),
    ensures
        (match r.0 {
            Some(d) => spec_attrs(v@, start as int).0 == Some(d@),
            None => spec_attrs(v@, start as int).0 is None,
        }),
        (match r.1 {
            Some(p) => spec_attrs(v@, start as int).1 == Some(p@),
            None => spec_attrs(v@, start as int).1 is None,
        }),
    decreases v@.len() - start,
{
    if start >= v.len() {
        return (None, None);
    }
    let j = scan_to_semi(v, start + 1);
    let seg = trim_chars(&crate::strutil::copy_range(v, start + 1, j));
    let eq = scan_to_eq(&seg, 0);
    let rest = cookie_attrs(v, j);
    if eq < seg.len() {
        let mut key: Vec<char> = Vec::new();
        let mut t: usize = 0;
        while t < eq
            invariant
                0 <= t <= eq <= seg@.len(),
                key@ =~= seg@.subrange(0, t as int).map_values(|c: char| lower_char(c)),
            decreases eq - t,
        {
            key.push(crate::size::lower_char_exec(seg[t]));
            proof {
                assert(seg@.subrange(0, t + 1).map_values(|c: char| lower_char(c)) =~= seg@
                    .subrange(0, t as int).map_values(|c: char| lower_char(c)).push(
                    lower_char(seg@[t as int]),
                ));
            }
            t += 1;
        }
        proof {
            assert(seg@.subrange(0, eq as int).map_values(|c: char| lower_char(c)) =~= key@);
        }
        let eq2 = scan_to_eq(&seg, eq + 1);
        let val = string_from_chars(&crate::strutil::copy_range(&seg, eq + 1, eq2));
        let keys = string_from_chars(&key);
        proof {
            reveal_strlit("domain");
            reveal_strlit("path");
        }
        if str_eq(keys.as_str(), "domain") {
            let d = match rest.0 {
                Some(d) => Some(d),
                None => Some(val),
            };
            return (d, rest.1);
        }
        if str_eq(keys.as_str(), "path") {
            let p = match rest.1 {
                Some(p) => Some(p),
                None => Some(val),
            };
            return (rest.0, p);
        }
        rest
    } else {
        rest
    }
}

/// The cookie a `Set-Cookie` header value denotes.
pub open spec fn spec_set_cookie(s: Seq<char>) -> Option<CookieModel> {
    let f = spec_trim(s.subrange(0, semi_end(s, 0)));
    let eq = eq_end(f, 0);
    if eq == f.len() || eq == 0 {
        None
    } else {
        let vtext = f.subrange(eq + 1, eq_end(f, eq + 1));
        match spec_percent_decoded(vtext) {
            None => None,
            Some(value) => {
                let attrs = spec_attrs(s, semi_end(s, 0));
                Some(
                    CookieModel {
                        name: f.subrange(0, eq),
                        value,
                        domain: attrs.0,
                        path: attrs.1,
                    },
                )
            },
        }
    }
}

/// The fields of a line split on tabs.
pub open spec fn spec_tab_fields(s: Seq<char>, i: int) -> Seq<Seq<char>>
    decreases s.len() - i,
    when 0 <= i <= s.len()
    via spec_tab_fields_decreases
{
    let j = tab_end(s, i);
    if j == s.len() {
        seq![s.subrange(i, j)]
    } else {
        seq![s.subrange(i, j)] + spec_tab_fields(s, j + 1)
    }
}

/// The first index at or after `i` holding a tab, or the length.
pub open spec fn tab_end(s: Seq<char>, i: int) -> int
    decreases s.len() - i,
    when 0 <= i <= s.len()
{
    if i < s.len() && s[i] != '\t' {
        tab_end(s, i + 1)
    } else {
        i
    }
}

/// `tab_end` stays within bounds.
pub proof fn lemma_tab_end_bounds(s: Seq<char>, i: int)
    requires
        0 <= i <= s.len(),
    ensures
        i <= tab_end(s, i) <= s.len(),
    decreases s.len() - i,
{
    if i < s.len() && s[i] != '\t' {
        lemma_tab_end_bounds(s, i + 1);
    }
}

#[via_fn]
proof fn spec_tab_fields_decreases(s: Seq<char>, i: int) {
    lemma_tab_end_bounds(s, i);
}

/// Split a line on tabs.
#[verifier::loop_isolation(false)]
fn split_tabs(v: &Vec<char>) -> (r: Vec<Vec<char>>)
    ensures
        r@.map_values(|f: Vec<char>| f@) == spec_tab_fields(v@, 0),
{
    let mut out: Vec<Vec<char>> = Vec::new();
    let mut i: usize = 0;
    loop
        invariant
            0 <= i <= v@.len(),
            i != 0 ==> v@[i - 1] == '\t',
            spec_tab_fields(v@, 0) =~= out@.map_values(|f: Vec<char>| f@) + spec_tab_fields(
                v@,
                i as int,
            ),
        decreases v@.len() - i,
    {
        let mut j = i;
        while j < v.len() && v[j] != '\t'
            invariant
                i <= j <= v@.len(),
                tab_end(v@, i as int) == tab_end(v@, j as int),
            decreases v@.len() - j,
        {
            j += 1;
        }
        let f = crate::strutil::copy_range(v, i, j);
        let ghost out_before = out@;
        out.push(f);
        proof {
            assert(out@.map_values(|f: Vec<char>| f@) =~= out_before.map_values(
                |f: Vec<char>| f@,
            ).push(v@.subrange(i as int, j as int)));
        }
        if j == v.len() {
            proof {
                assert(spec_tab_fields(v@, i as int) =~= seq![v@.subrange(i as int, j as int)]);
                assert(spec_tab_fields(v@, 0) =~= out@.map_values(|f: Vec<char>| f@));
            }
            return out;
        }
        proof {
            assert(spec_tab_fields(v@, i as int) =~= seq![v@.subrange(i as int, j as int)]
                + spec_tab_fields(v@, j + 1));
        }
        i = j + 1;
    }
}

/// A jar after storing one cookie: the first cookie with the same name is
/// replaced in place, otherwise the cookie is appended; every other entry
/// is kept as it was.
pub open spec fn jar_set(cookies: Seq<CookieModel>, c: CookieModel) -> Seq<CookieModel>
    decreases cookies.len(),
{
    if cookies.len() == 0 {
        seq![c]
    } else if cookies[0].name == c.name {
        seq![c] + cookies.skip(1)
    } else {
        seq![cookies[0]] + jar_set(cookies.skip(1), c)
    }
}

/// When the first matching name stands at `at`, `jar_set` is an update in
/// place.
proof fn lemma_jar_set_is_update(cookies: Seq<CookieModel>, c: CookieModel, at: int)
    requires
        0 <= at < cookies.len(),
        cookies[at].name == c.name,
        forall|k: int| 0 <= k < at ==> (#[trigger] cookies[k]).name != c.name,
    ensures
        jar_set(cookies, c) =~= cookies.update(at, c),
    decreases at,
{
    if at == 0 {
        assert(jar_set(cookies, c) =~= cookies.update(0, c));
    } else {
        assert(cookies.skip(1)[at - 1] == cookies[at]);
        assert(forall|k: int|
            0 <= k < at - 1 ==> (#[trigger] cookies.skip(1)[k]) == cookies[k + 1]);
        lemma_jar_set_is_update(cookies.skip(1), c, at - 1);
        assert(jar_set(cookies, c) =~= seq![cookies[0]] + cookies.skip(1).update(at - 1, c));
        assert(seq![cookies[0]] + cookies.skip(1).update(at - 1, c) =~= cookies.update(at, c));
    }
}

/// When no name matches, `jar_set` appends.
proof fn lemma_jar_set_is_push(cookies: Seq<CookieModel>, c: CookieModel)
    requires
        forall|k: int| 0 <= k < cookies.len() ==> (#[trigger] cookies[k]).name != c.name,
    ensures
        jar_set(cookies, c) =~= cookies.push(c),
    decreases cookies.len(),
{
    if cookies.len() > 0 {
        assert(forall|k: int|
            0 <= k < cookies.len() - 1 ==> (#[trigger] cookies.skip(1)[k]) == cookies[k + 1]);
        lemma_jar_set_is_push(cookies.skip(1), c);
        assert(jar_set(cookies, c) =~= seq![cookies[0]] + cookies.skip(1).push(c));
        assert(seq![cookies[0]] + cookies.skip(1).push(c) =~= cookies.push(c));
    }
}

/// The cookie a JSON array element describes: an object with string
/// `name` and `value`, and `domain` and `path` taken when present, which
/// must then be strings.
pub open spec fn spec_cookie_of_json(j: Json) -> Option<CookieModel> {
    if !(j is Obj) {
        None
    } else if !(spec_get(j, "name"@) matches Some(Json::Str(_))) {
        None
    } else if !(spec_get(j, "value"@) matches Some(Json::Str(_))) {
        None
    } else if spec_get(j, "domain"@) matches Some(d) && !(d is Str) {
        None
    } else if spec_get(j, "path"@) matches Some(p) && !(p is Str) {
        None
    } else {
        Some(
            CookieModel {
                name: spec_get(j, "name"@)->Some_0->Str_0@,
                value: spec_get(j, "value"@)->Some_0->Str_0@,
                domain: match spec_get(j, "domain"@) {
                    Some(Json::Str(d)) => Some(d@),
                    _ => None,
                },
                path: match spec_get(j, "path"@) {
                    Some(Json::Str(p)) => Some(p@),
                    _ => None,
                },
            },
        )
    }
}

/// The jar described by the array elements from `i` on, accumulated over
/// `acc` with later same-name cookies overwriting earlier ones; the first
/// invalid element fails the whole list.
pub open spec fn spec_jar_from_list(items: Seq<Json>, i: int, acc: Seq<CookieModel>) -> Option<
    Seq<CookieModel>,
>
    decreases items.len() - i,
    when 0 <= i <= items.len()
{
    if i == items.len() {
        Some(acc)
    } else {
        match spec_cookie_of_json(items[i]) {
            None => None,
            Some(c) => spec_jar_from_list(items, i + 1, jar_set(acc, c)),
        }
    }
}

/// The jar a cookie-list value describes: the elements of an array, an
/// empty jar for any other value.
pub open spec fn spec_jar_of_list_value(l: Json) -> Option<Seq<CookieModel>> {
    match l {
        Json::Arr(items) => spec_jar_from_list(items@, 0, Seq::empty()),
        _ => Some(Seq::empty()),
    }
}

/// A jar of cookies, one per name, in insertion order.
#[derive(Debug, PartialEq)]
pub struct CookiesJar {
    /// The cookies, one entry per name.
    pub cookies: Vec<Cookie>,
    /// Extra values kept alongside the cookies in the file.
    pub extras: Vec<(String, Json)>,
}

impl View for CookiesJar {
    type V = Seq<CookieModel>;

    open spec fn view(&self) -> Seq<CookieModel> {
        self.cookies@.map_values(|c: Cookie| c@)
    }
}

impl CookiesJar {
    pub fn new() -> (r: CookiesJar)
        ensures
            r@ =~= Seq::<CookieModel>::empty(),
            r.extras@.len() == 0,
    {
        CookiesJar { cookies: Vec::new(), extras: Vec::new() }
    }

    /// Add a cookie; a cookie with the same name is replaced in place, and
    /// every other cookie and the extras are kept.
    #[verifier::loop_isolation(false)]
    pub fn add(&mut self, c: Cookie)
        ensures
            final(self)@ == jar_set(old(self)@, c@),
            final(self).extras == old(self).extras,
    {
        let mut i: usize = 0;
        while i < self.cookies.len()
            invariant
                0 <= i <= self.cookies@.len(),
                *self == *old(self),
                forall|k: int| 0 <= k < i ==> (#[trigger] self@[k]).name != c@.name,
            decreases self.cookies@.len() - i,
        {
            if str_eq(self.cookies[i].name(), c.name()) {
                let ghost cm = c@;
                let ghost before = self@;
                self.cookies.set(i, c);
                proof {
                    assert(self@ =~= before.update(i as int, cm));
                    lemma_jar_set_is_update(before, cm, i as int);
                }
                return ;
            }
            i += 1;
        }
        let ghost cm = c@;
        let ghost before = self@;
        self.cookies.push(c);
        proof {
            assert(self@ =~= before.push(cm));
            lemma_jar_set_is_push(before, cm);
        }
    }

    /// The cookies, in insertion order.
    pub fn iter(&self) -> (r: &Vec<Cookie>)
        ensures
            r@.map_values(|c: Cookie| c@) == self@,
    {
        &self.cookies
    }

    /// The jar as JSON: an array with one cookie object per cookie, in
    /// order; when there are extras, the array stands under `cookies` in an
    /// object that also carries the extras under `extras`.
    #[verifier::loop_isolation(false)]
    pub fn to_json(&self) -> (r: Option<Json>)
        ensures
            r is Some,
            self.extras@.len() == 0 ==> (r->Some_0 matches Json::Arr(items) && items@.len()
                == self@.len() && (forall|k: int|
                0 <= k < self@.len() ==> cookie_json_matches(#[trigger] items@[k], self@[k]))),
            self.extras@.len() > 0 ==> {
                &&& r->Some_0 is Obj
                &&& (match spec_get(r->Some_0, "cookies"@) {
                    Some(Json::Arr(items)) => items@.len() == self@.len() && (forall|k: int|
                        0 <= k < self@.len() ==> cookie_json_matches(
                            #[trigger] items@[k],
                            self@[k],
                        )),
                    _ => false,
                })
                &&& (match spec_get(r->Some_0, "extras"@) {
                    Some(Json::Obj(ex)) => ex@.len() == self.extras@.len() && (forall|k: int|
                        0 <= k < ex@.len() ==> (#[trigger] ex@[k]).0@ == self.extras@[k].0@
                            && crate::json_model::json_equiv(ex@[k].1, self.extras@[k].1)),
                    _ => false,
                })
            },
    {
        let mut arr: Vec<Json> = Vec::new();
        let mut i: usize = 0;
        while i < self.cookies.len()
            invariant
                0 <= i <= self.cookies@.len(),
                arr@.len() == i,
                forall|k: int| 0 <= k < i ==> cookie_json_matches(#[trigger] arr@[k], self@[k]),
            decreases self.cookies@.len() - i,
        {
            match self.cookies[i].to_json() {
                Some(o) => arr.push(o),
                None => {
                    return None;
                },
            }
            i += 1;
        }
        if self.extras.len() > 0 {
            let mut ex: Vec<(String, Json)> = Vec::new();
            let mut k: usize = 0;
            while k < self.extras.len()
                invariant
                    0 <= k <= self.extras@.len(),
                    ex@.len() == k,
                    forall|t: int|
                        0 <= t < k ==> (#[trigger] ex@[t]).0@ == self.extras@[t].0@
                            && crate::json_model::json_equiv(ex@[t].1, self.extras@[t].1),
                decreases self.extras@.len() - k,
            {
                let name = self.extras[k].0.clone();
                let val = self.extras[k].1.clone();
                ex.push((name, val));
                k += 1;
            }
            let mut obj: Vec<(String, Json)> = Vec::new();
            obj.push(("cookies".to_owned(), Json::Arr(arr)));
            obj.push(("extras".to_owned(), Json::Obj(ex)));
            let r = Json::Obj(obj);
            proof {
                reveal_strlit("cookies");
                reveal_strlit("extras");
                let es = r->Obj_0@;
                assert(es[0].0@ == "cookies"@);
                assert(es[1].0@ == "extras"@);
                crate::json_model::lemma_obj_get_at(es, "cookies"@, 0);
                crate::json_model::lemma_obj_get_at(es, "extras"@, 1);
            }
            Some(r)
        } else {
            Some(Json::Arr(arr))
        }
    }

    /// Parse a cookie list from a JSON array, as `spec_jar_of_list_value`:
    /// each element must be an object with string `name` and `value`, and
    /// optional string `domain` and `path`.
    #[verifier::loop_isolation(false)]
    fn from_json_internal(l: &Json) -> (r: Option<CookiesJar>)
        ensures
            match spec_jar_of_list_value(*l) {
                Some(ms) => r matches Some(jar) && jar@ == ms && jar.extras@.len() == 0,
                None => r is None,
            },
    {
        let mut jar = CookiesJar::new();
        let items = match l {
            Json::Arr(items) => items,
            _ => {
                return Some(jar);
            },
        };
        let mut i: usize = 0;
        while i < items.len()
            invariant
                0 <= i <= items@.len(),
                jar.extras@.len() == 0,
                spec_jar_from_list(items@, 0, Seq::empty()) == spec_jar_from_list(
                    items@,
                    i as int,
                    jar@,
                ),
            decreases items@.len() - i,
        {
            let co = &items[i];
            if !co.is_object() {
                return None;
            }
            let name = match co.get("name") {
                Some(v) => match v.as_str() {
                    Some(s) => s,
                    None => {
                        return None;
                    },
                },
                None => {
                    return None;
                },
            };
            let value = match co.get("value") {
                Some(v) => match v.as_str() {
                    Some(s) => s,
                    None => {
                        return None;
                    },
                },
                None => {
                    return None;
                },
            };
            let mut c = Cookie::new(name, value);
            match co.get("domain") {
                Some(v) => {
                    match v.as_str() {
                        Some(s) => c.set_domain(Some(s)),
                        None => {
                            return None;
                        },
                    }
                },
                None => {},
            }
            match co.get("path") {
                Some(v) => {
                    match v.as_str() {
                        Some(s) => c.set_path(Some(s)),
                        None => {
                            return None;
                        },
                    }
                },
                None => {},
            }
            proof {
                assert(spec_cookie_of_json(items@[i as int]) == Some(c@));
            }
            jar.add(c);
            i += 1;
        }
        Some(jar)
    }

    /// Load a jar from JSON: a plain array of cookies, or an object whose
    /// `cookies` member holds the list and whose `extras` member, when it
    /// is an object, is carried over; any other value, or a missing or
    /// null `cookies` member, fails.
    #[verifier::loop_isolation(false)]
    pub fn from_json(v: &Json) -> (r: Option<CookiesJar>)
        ensures
            match *v {
                Json::Arr(_) => match spec_jar_of_list_value(*v) {
                    Some(ms) => r matches Some(jar) && jar@ == ms && jar.extras@.len() == 0,
                    None => r is None,
                },
                Json::Obj(_) => match spec_get(*v, "cookies"@) {
                    None => r is None,
                    Some(li) => if li is Null {
                        r is None
                    } else {
                        match spec_jar_of_list_value(li) {
                            Some(ms) => match r {
                                Some(jar) => jar@ == ms && (match spec_get(*v, "extras"@) {
                                    Some(Json::Obj(ex)) => jar.extras@.len() == ex@.len() && (
                                    forall|k: int|
                                        0 <= k < ex@.len()
                                            ==> (#[trigger] jar.extras@[k]).0@ == ex@[k].0@
                                            && crate::json_model::json_equiv(
                                            jar.extras@[k].1,
                                            ex@[k].1,
                                        )),
                                    _ => jar.extras@.len() == 0,
                                }),
                                None => false,
                            },
                            None => r is None,
                        }
                    },
                },
                _ => r is None,
            },
    {
        if v.is_array() {
            Self::from_json_internal(v)
        } else if v.is_object() {
            let li = match v.get("cookies") {
                Some(li) => li,
                None => {
                    return None;
                },
            };
            if li.is_null() {
                return None;
            }
            let mut c = match Self::from_json_internal(li) {
                Some(c) => c,
                None => {
                    return None;
                },
            };
            let ghost base = c@;
            match v.get("extras") {
                Some(Json::Obj(entries)) => {
                    let mut k: usize = 0;
                    while k < entries.len()
                        invariant
                            0 <= k <= entries@.len(),
                            c@ == base,
                            c.extras@.len() == k,
                            forall|t: int|
                                0 <= t < k ==> (#[trigger] c.extras@[t]).0@ == entries@[t].0@
                                    && crate::json_model::json_equiv(
                                    c.extras@[t].1,
                                    entries@[t].1,
                                ),
                        decreases entries@.len() - k,
                    {
                        let name = entries[k].0.clone();
                        let val = entries[k].1.clone();
                        c.extras.push((name, val));
                        k += 1;
                    }
                },
                _ => {},
            }
            Some(c)
        } else {
            None
        }
    }

    /// Load a jar from the lines of a netscape cookie file, as
    /// `spec_netscape_jar`; lines whose trimmed text starts with `#` are
    /// comments.
    #[verifier::loop_isolation(false)]
    pub fn from_netscape_cookie<U: ToStr>(i: &U) -> (r: Option<CookiesJar>)
        ensures
            match i.spec_to_str() {
                None => r is None,
                Some(s) => match spec_netscape_jar(s, 0, Seq::empty()) {
                    Some(ms) => r matches Some(jar) && jar@ == ms && jar.extras@.len() == 0,
                    None => r is None,
                },
            },
    {
        let s = match i.to_str() {
            Some(s) => s,
            None => {
                return None;
            },
        };
        let v = chars_of(s);
        let mut jar = CookiesJar::new();
        let mut at: usize = 0;
        loop
            invariant
                0 <= at <= v@.len(),
                at != 0 ==> v@[at - 1] == '\n',
                jar.extras@.len() == 0,
                spec_netscape_jar(v@, 0, Seq::empty()) == spec_netscape_jar(v@, at as int, jar@),
            decreases v@.len() - at,
        {
            let mut j = at;
            while j < v.len() && v[j] != '\n'
                invariant
                    at <= j <= v@.len(),
                    nl_end(v@, at as int) == nl_end(v@, j as int),
                decreases v@.len() - j,
            {
                j += 1;
            }
            let line = trim_chars(&crate::strutil::copy_range(&v, at, j));
            let skip_line = line.len() > 0 && line[0] == '#';
            if !skip_line {
                let text = string_from_chars(&line);
                match Cookie::from_netscape_cookie(&text) {
                    Some(c) => jar.add(c),
                    None => {
                        return None;
                    },
                }
            }
            if j == v.len() {
                return Some(jar);
            }
            at = j + 1;
        }
    }
}

impl Clone for CookiesJar {
    fn clone(&self) -> (r: CookiesJar)
        ensures
            r@ == self@,
    {
        let mut cookies: Vec<Cookie> = Vec::new();
        let mut i: usize = 0;
        while i < self.cookies.len()
            invariant
                0 <= i <= self.cookies@.len(),
                cookies@.len() == i,
                forall|k: int| 0 <= k < i ==> (#[trigger] cookies@[k])@ == self.cookies@[k]@,
            decreases self.cookies@.len() - i,
        {
            cookies.push(self.cookies[i].clone());
            i += 1;
        }
        let mut extras: Vec<(String, Json)> = Vec::new();
        let mut k: usize = 0;
        while k < self.extras.len()
            invariant
                0 <= k <= self.extras@.len(),
            decreases self.extras@.len() - k,
        {
            let name = self.extras[k].0.clone();
            let val = self.extras[k].1.clone();
            extras.push((name, val));
            k += 1;
        }
        proof {
            assert(cookies@.map_values(|c: Cookie| c@) =~= self.cookies@.map_values(
                |c: Cookie| c@,
            ));
        }
        CookiesJar { cookies, extras }
    }
}

/// The first index at or after `i` holding a newline, or the length.
pub open spec fn nl_end(s: Seq<char>, i: int) -> int
    decreases s.len() - i,
    when 0 <= i <= s.len()
{
    if i < s.len() && s[i] != '\n' {
        nl_end(s, i + 1)
    } else {
        i
    }
}

/// `nl_end` stays within bounds.
pub proof fn lemma_nl_end_bounds(s: Seq<char>, i: int)
    requires
        0 <= i <= s.len(),
    ensures
        i <= nl_end(s, i) <= s.len(),
    decreases s.len() - i,
{
    if i < s.len() && s[i] != '\n' {
        lemma_nl_end_bounds(s, i + 1);
    }
}

/// The jar described by the lines of a netscape cookie file from `i` on,
/// accumulated over `acc`: each trimmed line that does not start with `#`
/// must be a cookie line, and a later cookie of the same name overwrites
/// an earlier one; one failing line fails the whole file.
pub open spec fn spec_netscape_jar(s: Seq<char>, i: int, acc: Seq<CookieModel>) -> Option<
    Seq<CookieModel>,
>
    decreases s.len() - i,
    when 0 <= i <= s.len()
    via spec_netscape_jar_decreases
{
    let j = nl_end(s, i);
    let t = spec_trim(s.subrange(i, j));
    let step = if t.len() > 0 && t[0] == '#' {
        Some(acc)
    } else {
        match spec_netscape_cookie(t) {
            Some(cm) => Some(jar_set(acc, cm)),
            None => None,
        }
    };
    match step {
        None => None,
        Some(acc2) => if j == s.len() {
            Some(acc2)
        } else {
            spec_netscape_jar(s, j + 1, acc2)
        },
    }
}

#[via_fn]
proof fn spec_netscape_jar_decreases(s: Seq<char>, i: int, acc: Seq<CookieModel>) {
    lemma_nl_end_bounds(s, i);
}

/// The collection of cookie jars that the cookie file holds, one per
/// provider name.
pub struct CookiesJson {
    /// The jars, one entry per provider name.
    pub cookies: Vec<(String, CookiesJar)>,
}

/// The jar stored under a provider name.
pub open spec fn spec_jars_get(
    jars: Seq<(Seq<char>, Seq<CookieModel>)>,
    key: Seq<char>,
) -> Option<Seq<CookieModel>>
    decreases jars.len(),
{
    if jars.len() == 0 {
        None
    } else if jars[0].0 == key {
        Some(jars[0].1)
    } else {
        spec_jars_get(jars.skip(1), key)
    }
}

impl View for CookiesJson {
    type V = Seq<(Seq<char>, Seq<CookieModel>)>;

    open spec fn view(&self) -> Seq<(Seq<char>, Seq<CookieModel>)> {
        self.cookies@.map_values(|p: (String, CookiesJar)| (p.0@, p.1@))
    }
}

impl CookiesJson {
    pub fn new() -> (r: CookiesJson)
        ensures
            r.cookies@.len() == 0,
    {
        CookiesJson { cookies: Vec::new() }
    }

    /// Store a jar under a provider name; a jar under the same name is
    /// replaced.
    #[verifier::loop_isolation(false)]
    pub fn add(&mut self, key: &str, jar: CookiesJar)
        ensures
            spec_jars_get(final(self)@, key@) == Some(jar@),
    {
        let ghost jm = jar@;
        let mut i: usize = 0;
        while i < self.cookies.len()
            invariant
                0 <= i <= self.cookies@.len(),
                *self == *old(self),
                forall|k: int| 0 <= k < i ==> (#[trigger] self@[k]).0 != key@,
            decreases self.cookies@.len() - i,
        {
            if str_eq(self.cookies[i].0.as_str(), key) {
                let name = key.to_owned();
                let ghost before = self@;
                self.cookies.set(i, (name, jar));
                proof {
                    assert(self@ =~= before.update(i as int, (key@, jm)));
                    assert(forall|k: int| 0 <= k < i ==> self@[k] == before[k]);
                    lemma_jars_get_at(self@, key@, i as int);
                }
                return ;
            }
            i += 1;
        }
        let name = key.to_owned();
        let ghost before = self@;
        self.cookies.push((name, jar));
        proof {
            assert(self@ =~= before.push((key@, jm)));
            assert(forall|k: int| 0 <= k < self@.len() - 1 ==> self@[k] == before[k]);
            lemma_jars_get_at(self@, key@, self@.len() - 1);
        }
    }

    /// The jar under a provider name.
    #[verifier::loop_isolation(false)]
    pub fn get(&self, key: &str) -> (r: Option<&CookiesJar>)
        ensures
            match r {
                Some(jar) => spec_jars_get(self@, key@) == Some(jar@),
                None => spec_jars_get(self@, key@) is None,
            },
    {
        proof {
            assert(self@.skip(0) =~= self@);
        }
        let mut i: usize = 0;
        while i < self.cookies.len()
            invariant
                0 <= i <= self.cookies@.len(),
                spec_jars_get(self@, key@) == spec_jars_get(self@.skip(i as int), key@),
            decreases self.cookies@.len() - i,
        {
            proof {
                assert(self@.skip(i as int)[0] == self@[i as int]);
                assert(self@.skip(i as int).skip(1) =~= self@.skip(i + 1));
            }
            if str_eq(self.cookies[i].0.as_str(), key) {
                return Some(&self.cookies[i].1);
            }
            i += 1;
        }
        None
    }

    /// Load the whole collection from the JSON object of a cookie file:
    /// one member per provider, each an array of cookies; a non-object
    /// file, an empty or repeated provider name, or a member that is not
    /// an array fails the read.
    #[verifier::loop_isolation(false)]
    pub fn from_json(v: &Json) -> (r: Option<CookiesJson>) {
        let entries = match v {
            Json::Obj(entries) => entries,
            _ => {
                return None;
            },
        };
        let mut out = CookiesJson::new();
        let mut i: usize = 0;
        while i < entries.len()
            invariant
                0 <= i <= entries@.len(),
            decreases entries@.len() - i,
        {
            let key = &entries[i].0;
            if key.as_str().is_empty() {
                return None;
            }
            if out.get(key.as_str()).is_some() {
                return None;
            }
            if !entries[i].1.is_array() {
                return None;
            }
            let jar = match CookiesJar::from_json(&entries[i].1) {
                Some(jar) => jar,
                None => {
                    return None;
                },
            };
            out.add(key.as_str(), jar);
            i += 1;
        }
        Some(out)
    }

    /// The collection as one JSON object, one member per jar.
    pub fn to_json(&self) -> (r: Option<Json>)
        ensures
            r matches Some(j) ==> j is Obj,
    {
        let mut entries: Vec<(String, Json)> = Vec::new();
        let mut i: usize = 0;
        while i < self.cookies.len()
            invariant
                0 <= i <= self.cookies@.len(),
            decreases self.cookies@.len() - i,
        {
            let val = match self.cookies[i].1.to_json() {
                Some(v) => v,
                None => {
                    return None;
                },
            };
            let name = self.cookies[i].0.clone();
            entries.push((name, val));
            i += 1;
        }
        Some(Json::Obj(entries))
    }

    /// The collection serialized as JSON text.
    pub fn to_str(&self) -> (r: Option<String>)
        ensures
            r matches Some(s) ==> (exists|v: Json|
                v is Obj && s@ == crate::json_model::json_dumped(v)),
    {
        match self.to_json() {
            Some(v) => Some(crate::json_model::dump_json(&v)),
            None => None,
        }
    }
}

impl Clone for CookiesJson {
    fn clone(&self) -> (r: CookiesJson) {
        let mut cookies: Vec<(String, CookiesJar)> = Vec::new();
        let mut i: usize = 0;
        while i < self.cookies.len()
            invariant
                0 <= i <= self.cookies@.len(),
            decreases self.cookies@.len() - i,
        {
            let name = self.cookies[i].0.clone();
            let jar = self.cookies[i].1.clone();
            cookies.push((name, jar));
            i += 1;
        }
        CookiesJson { cookies }
    }
}

/// `spec_jars_get` finds the entry at `at` when all earlier names differ.
proof fn lemma_jars_get_at(jars: Seq<(Seq<char>, Seq<CookieModel>)>, key: Seq<char>, at: int)
    requires
        0 <= at < jars.len(),
        jars[at].0 == key,
        forall|k: int| 0 <= k < at ==> (#[trigger] jars[k]).0 != key,
    ensures
        spec_jars_get(jars, key) == Some(jars[at].1),
    decreases at,
{
    if at > 0 {
        assert(jars.skip(1)[at - 1] == jars[at]);
        assert(forall|k: int| 0 <= k < at - 1 ==> (#[trigger] jars.skip(1)[k]).0 == jars[k + 1].0);
        lemma_jars_get_at(jars.skip(1), key, at - 1);
    }
}

/// The cookie a netscape cookie line denotes.
pub open spec fn spec_netscape_cookie(s: Seq<char>) -> Option<CookieModel> {
    let t = spec_trim(s);
    let fields = spec_tab_fields(t, 0);
    if fields.len() != 7 {
        None
    } else {
        Some(
            CookieModel {
                name: fields[5],
                value: fields[6],
                domain: if fields[0].len() > 0 {
                    Some(fields[0])
                } else {
                    None
                },
                path: if fields[2].len() > 0 {
                    Some(fields[2])
                } else {
                    None
                },
            },
        )
    }
}

} // verus!
