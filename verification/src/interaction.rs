//! The interactive-video parser: an interactive video's true part sequence
//! is a server-side decision graph, reconstructed by walking its edges.
//!
//! The traversal alternates between decisions (verified here) and HTTP
//! fetches (performed by the host): `edge_info_request` says what to fetch,
//! `handle_response` checks the reply envelope, `on_root` takes the fast
//! path over the root's inline story list when its length matches the
//! expected part count, and otherwise `next_edge` / `on_node` drive a
//! depth-first walk that visits every reachable edge exactly once, in
//! discovery order. `finish` validates the result against the expected
//! count.
use crate::getopt::spec_has_opt;
use crate::getopt::OptStore;
use crate::json_model::spec_as_bool;
use crate::json_model::spec_as_i64;
use crate::json_model::spec_as_usize;
use crate::json_model::spec_get;
use crate::json_model::Json;
use crate::normal_video::UrlInfo;
use crate::part_info::PartInfo;
use crate::part_info::PartInfoList;
use crate::part_info::PartInfoModel;
use crate::settings::spec_jar_get;
use crate::settings::spec_maps_get;
use crate::settings::SettingStore;
use vstd::prelude::*;

verus! {

/// The ghost image of one decision-graph edge.
pub struct EdgeInfoModel {
    pub cid: usize,
    pub condition: Seq<char>,
    pub id: usize,
    pub is_default: bool,
    pub native_action: Seq<char>,
    pub option: Seq<char>,
}

/// The information of one decision-graph edge.
#[derive(Debug, PartialEq)]
pub struct EdgeInfo {
    /// Content id of the target node.
    pub cid: usize,
    /// Display condition.
    pub condition: String,
    /// Edge id.
    pub id: usize,
    /// Whether this choice is the default.
    pub is_default: bool,
    /// The action token used to request the edge.
    pub native_action: String,
    /// Display option text.
    pub option: String,
}

impl View for EdgeInfo {
    type V = EdgeInfoModel;

    open spec fn view(&self) -> EdgeInfoModel {
        EdgeInfoModel {
            cid: self.cid,
            condition: self.condition@,
            id: self.id,
            is_default: self.is_default,
            native_action: self.native_action@,
            option: self.option@,
        }
    }
}

impl Clone for EdgeInfo {
    fn clone(&self) -> (r: EdgeInfo)
        ensures
            r@ == self@,
    {
        EdgeInfo {
            cid: self.cid,
            condition: self.condition.clone(),
            id: self.id,
            is_default: self.is_default,
            native_action: self.native_action.clone(),
            option: self.option.clone(),
        }
    }
}

impl Default for EdgeInfo {
    /// The zero value used before the fields are populated from a parsed
    /// response: ids at their maximum, strings empty, the flag off.
    fn default() -> (r: EdgeInfo)
        ensures
            r@ == (EdgeInfoModel {
                cid: usize::MAX,
                condition: Seq::<char>::empty(),
                id: usize::MAX,
                is_default: false,
                native_action: Seq::<char>::empty(),
                option: Seq::<char>::empty(),
            }),
    {
        let r = EdgeInfo {
            cid: usize::MAX,
            condition: String::new(),
            id: usize::MAX,
            is_default: false,
            native_action: String::new(),
            option: String::new(),
        };
        r
    }
}

/// Why a choice object is not a valid edge.
#[derive(Debug, Clone, Copy, PartialEq, Eq, Structural)]
pub enum EdgeInfoError {
    /// The choice has no usable `cid`.
    CidMissing,
    /// The choice has no usable `id`.
    EdgeIdMissing,
}

pub open spec fn opt_as_usize(v: Option<Json>) -> Option<usize> {
    match v {
        Some(x) => spec_as_usize(x),
        None => None,
    }
}

pub open spec fn opt_as_i64(v: Option<Json>) -> Option<i64> {
    match v {
        Some(x) => spec_as_i64(x),
        None => None,
    }
}

/// The characters of a string member, empty for anything else.
pub open spec fn str_or_empty(v: Option<Json>) -> Seq<char> {
    match v {
        Some(Json::Str(s)) => s@,
        _ => Seq::empty(),
    }
}

/// Whether a member is a number other than zero.
pub open spec fn num_nonzero(v: Option<Json>) -> bool {
    match v {
        Some(Json::Int(n)) => n != 0,
        _ => false,
    }
}

/// The edge a choice object describes: `cid` and `id` are mandatory
/// numbers; `condition`, `native_action` and `option` are taken when they
/// are strings, `is_default` when it is a number other than zero.
pub open spec fn spec_edge_info(j: Json) -> Result<EdgeInfoModel, EdgeInfoError> {
    match opt_as_usize(spec_get(j, "cid"@)) {
        None => Err(EdgeInfoError::CidMissing),
        Some(cid) => match opt_as_usize(spec_get(j, "id"@)) {
            None => Err(EdgeInfoError::EdgeIdMissing),
            Some(id) => Ok(
                EdgeInfoModel {
                    cid,
                    condition: str_or_empty(spec_get(j, "condition"@)),
                    id,
                    is_default: num_nonzero(spec_get(j, "is_default"@)),
                    native_action: str_or_empty(spec_get(j, "native_action"@)),
                    option: str_or_empty(spec_get(j, "option"@)),
                },
            ),
        },
    }
}

/// A number-or-nothing member.
fn get_as_usize(j: &Json, key: &str) -> (r: Option<usize>)
    ensures
        r == opt_as_usize(spec_get(*j, key@)),
{
    match j.get(key) {
        Some(v) => v.as_usize(),
        None => None,
    }
}

/// A string member's characters, empty for anything else.
fn get_str_or_empty(j: &Json, key: &str) -> (r: String)
    ensures
        r@ == str_or_empty(spec_get(*j, key@)),
{
    match j.get(key) {
        Some(v) => match v.as_str() {
            Some(s) => s.to_owned(),
            None => String::new(),
        },
        None => String::new(),
    }
}

impl TryFrom<&Json> for EdgeInfo {
    type Error = EdgeInfoError;

    /// Parse one choice object, as `spec_edge_info`.
    fn try_from(v: &Json) -> (r: Result<EdgeInfo, EdgeInfoError>)
        ensures
            match r {
                Ok(e) => spec_edge_info(*v) == Ok::<EdgeInfoModel, EdgeInfoError>(e@),
                Err(er) => spec_edge_info(*v) == Err::<EdgeInfoModel, EdgeInfoError>(er),
            },
    {
        let cid = match get_as_usize(v, "cid") {
            Some(c) => c,
            None => {
                return Err(EdgeInfoError::CidMissing);
            },
        };
        let id = match get_as_usize(v, "id") {
            Some(c) => c,
            None => {
                return Err(EdgeInfoError::EdgeIdMissing);
            },
        };
        let mut r = EdgeInfo::default();
        r.cid = cid;
        r.id = id;
        r.condition = get_str_or_empty(v, "condition");
        let isd = match v.get("is_default") {
            Some(x) => x.as_i64(),
            None => None,
        };
        match isd {
            Some(n) => {
                if n != 0 {
                    r.is_default = true;
                }
            },
            None => {},
        }
        r.native_action = get_str_or_empty(v, "native_action");
        r.option = get_str_or_empty(v, "option");
        Ok(r)
    }
}

impl vstd::std_specs::convert::TryFromSpecImpl<&Json> for EdgeInfo {
    open spec fn obeys_try_from_spec() -> bool {
        false
    }

    open spec fn try_from_spec(v: &Json) -> Result<EdgeInfo, EdgeInfoError> {
        arbitrary()
    }
}

/// Why a traversal fails.
#[derive(Debug, PartialEq)]
pub enum InteractionError {
    /// A choice object could not be parsed.
    Edge(EdgeInfoError),
    /// A fetched node has no string `title`.
    NodeTitleMissing,
    /// A fetched node has no numeric `edge_id`.
    NodeEdgeIdMissing,
    /// A fetched node's own story list has no entry with its edge id, or
    /// that entry has no usable `cid`.
    NodeStoryMismatch,
    /// The traversal produced a part count different from the expected one.
    Mismatch { expected: usize, got: usize },
}

/// The remote envelope is rejected.
#[derive(Debug, PartialEq)]
pub enum ApiError {
    /// The reply has no numeric `code`.
    NoCode,
    /// The reply reports a failure; its code and message are carried.
    Remote { code: i64, message: String },
}

/// The members of an array value, nothing for any other value.
pub open spec fn arr_or_empty(v: Option<Json>) -> Seq<Json> {
    match v {
        Some(Json::Arr(items)) => items@,
        _ => Seq::empty(),
    }
}

/// The `cid` of the first story entry whose `edge_id` equals `id`:
/// `None` when no entry matches, `Some(spec_as_usize(..))` of the matching
/// entry's `cid` otherwise.
pub open spec fn spec_story_cid(items: Seq<Json>, id: i64) -> Option<Option<usize>>
    decreases items.len(),
{
    if items.len() == 0 {
        None
    } else if opt_as_i64(spec_get(items[0], "edge_id"@)) == Some(id) {
        Some(opt_as_usize(spec_get(items[0], "cid"@)))
    } else {
        spec_story_cid(items.skip(1), id)
    }
}

/// The part a fetched node contributes, numbered `pn`: its title, and the
/// `cid` of its own story entry (the one with the node's edge id).
pub open spec fn spec_add_node(j: Json, pn: usize) -> Result<PartInfoModel, InteractionError> {
    match spec_get(j, "title"@) {
        Some(Json::Str(title)) => match opt_as_i64(spec_get(j, "edge_id"@)) {
            Some(id) => match spec_story_cid(arr_or_empty(spec_get(j, "story_list"@)), id) {
                Some(Some(cid)) => Ok(
                    PartInfoModel { cid, duration: None, page: pn, part: title@ },
                ),
                Some(None) => Err(InteractionError::NodeStoryMismatch),
                None => Err(InteractionError::NodeStoryMismatch),
            },
            None => Err(InteractionError::NodeEdgeIdMissing),
        },
        _ => Err(InteractionError::NodeTitleMissing),
    }
}

/// The edges of the choices from index `i` on; the first invalid choice
/// fails the whole list.
pub open spec fn spec_choice_edges(choices: Seq<Json>, i: int) -> Result<
    Seq<EdgeInfoModel>,
    EdgeInfoError,
>
    decreases choices.len() - i,
    when 0 <= i <= choices.len()
{
    if i == choices.len() {
        Ok(Seq::empty())
    } else {
        match spec_edge_info(choices[i]) {
            Err(e) => Err(e),
            Ok(m) => match spec_choice_edges(choices, i + 1) {
                Ok(rest) => Ok(seq![m] + rest),
                Err(e) => Err(e),
            },
        }
    }
}

/// The edges of all questions from index `i` on, question by question.
pub open spec fn spec_question_edges(questions: Seq<Json>, i: int) -> Result<
    Seq<EdgeInfoModel>,
    EdgeInfoError,
>
    decreases questions.len() - i,
    when 0 <= i <= questions.len()
{
    if i == questions.len() {
        Ok(Seq::empty())
    } else {
        match spec_choice_edges(arr_or_empty(spec_get(questions[i], "choices"@)), 0) {
            Err(e) => Err(e),
            Ok(head) => match spec_question_edges(questions, i + 1) {
                Ok(rest) => Ok(head + rest),
                Err(e) => Err(e),
            },
        }
    }
}

/// All choice edges of a fetched node, in document order.
pub open spec fn spec_node_edges(j: Json) -> Result<Seq<EdgeInfoModel>, EdgeInfoError> {
    spec_question_edges(
        arr_or_empty(
            match spec_get(j, "edges"@) {
                Some(e) => spec_get(e, "questions"@),
                None => None,
            },
        ),
        0,
    )
}

/// The parts of an inline story list from index `i` on: entries are taken
/// in order, entries with an already-seen `cid` are skipped, and the rest
/// are numbered consecutively from `pn`. An entry without a usable `cid`,
/// or a new entry without a string `title`, fails the whole list.
pub open spec fn spec_story_parts(items: Seq<Json>, i: int, seen: Seq<usize>, pn: int) -> Option<
    Seq<PartInfoModel>,
>
    decreases items.len() - i,
    when 0 <= i <= items.len()
{
    if i == items.len() {
        Some(Seq::empty())
    } else {
        match opt_as_usize(spec_get(items[i], "cid"@)) {
            None => None,
            Some(cid) => if seen.contains(cid) {
                spec_story_parts(items, i + 1, seen, pn)
            } else {
                match spec_get(items[i], "title"@) {
                    Some(Json::Str(title)) => match spec_story_parts(
                        items,
                        i + 1,
                        seen.push(cid),
                        pn + 1,
                    ) {
                        Some(rest) => Some(
                            seq![
                                PartInfoModel {
                                    cid,
                                    duration: None,
                                    page: pn as usize,
                                    part: title@,
                                },
                            ] + rest,
                        ),
                        None => None,
                    },
                    _ => None,
                }
            },
        }
    }
}

/// Check a reply envelope and hand its `data` out: a numeric `code` is
/// mandatory, zero means success, anything else carries the remote message.
pub fn handle_response(v: Json) -> (r: Result<Json, ApiError>)
    ensures
        match r {
            Ok(data) => opt_as_i64(spec_get(v, "code"@)) == Some(0i64) && data == (match spec_get(
                v,
                "data"@,
            ) {
                Some(d) => d,
                None => Json::Null,
            }),
            Err(ApiError::NoCode) => opt_as_i64(spec_get(v, "code"@)) is None,
            Err(ApiError::Remote { code, message }) => opt_as_i64(spec_get(v, "code"@)) == Some(
                code,
            ) && code != 0 && message@ == str_or_empty(spec_get(v, "message"@)),
        },
{
    let code = match v.get("code") {
        Some(c) => match c.as_i64() {
            Some(c) => c,
            None => {
                return Err(ApiError::NoCode);
            },
        },
        None => {
            return Err(ApiError::NoCode);
        },
    };
    if code != 0 {
        let message = get_str_or_empty(&v, "message");
        return Err(ApiError::Remote { code, message });
    }
    match take_member(v, "data") {
        Some(data) => Ok(data),
        None => Ok(Json::Null),
    }
}

/// Move the member under a key out of an object, when there is one.
#[verifier::loop_isolation(false)]
fn take_member(v: Json, key: &str) -> (r: Option<Json>)
    ensures
        r == spec_get(v, key@),
{
    let entries = match v {
        Json::Obj(entries) => entries,
        _ => {
            return None;
        },
    };
    let ghost all = entries@;
    proof {
        assert(all.skip(0) =~= all);
    }
    let mut i: usize = 0;
    let mut entries = entries;
    while i < entries.len()
        invariant
            0 <= i <= entries@.len(),
            entries@ == all,
            crate::json_model::spec_obj_get(all, key@) == crate::json_model::spec_obj_get(
                all.skip(i as int),
                key@,
            ),
        decreases entries@.len() - i,
    {
        proof {
            assert(all.skip(i as int)[0] == all[i as int]);
            assert(all.skip(i as int).skip(1) =~= all.skip(i + 1));
        }
        if crate::strutil::str_eq(entries[i].0.as_str(), key) {
            let pair = entries.remove(i);
            return Some(pair.1);
        }
        i += 1;
    }
    proof {
        assert(all.skip(i as int).len() == 0);
    }
    None
}

/// Whether the story-list fast path is disabled by an option or a setting.
pub closed spec fn spec_no_use_storylist(
    opt: Option<OptStore>,
    settings: Option<SettingStore>,
) -> bool {
    if opt matches Some(o) && spec_has_opt(o@.list, "no-use-storylist"@) {
        true
    } else {
        match settings {
            Some(se) => match spec_maps_get(se@.maps, "BiliNormalVideoProvider"@) {
                Some(jar) => match spec_jar_get(jar, "no-use-storylist"@) {
                    Some(v) => match spec_as_bool(v) {
                        Some(b) => b,
                        None => false,
                    },
                    None => false,
                },
                None => false,
            },
            None => false,
        }
    }
}

/// The first index at or after `i` of a pending edge whose id is not yet
/// visited, or the length when every remaining edge is visited.
pub open spec fn next_unvisited(p: Seq<EdgeInfoModel>, v: Seq<usize>, i: int) -> int
    decreases p.len() - i,
    when 0 <= i <= p.len()
{
    if i < p.len() && v.contains(p[i].id) {
        next_unvisited(p, v, i + 1)
    } else {
        i
    }
}

/// `next_unvisited` stays within bounds.
pub proof fn lemma_next_unvisited_bounds(p: Seq<EdgeInfoModel>, v: Seq<usize>, i: int)
    requires
        0 <= i <= p.len(),
    ensures
        i <= next_unvisited(p, v, i) <= p.len(),
    decreases p.len() - i,
{
    if i < p.len() && v.contains(p[i].id) {
        lemma_next_unvisited_bounds(p, v, i + 1);
    }
}

/// A parser that reconstructs the part list of an interactive video.
pub struct InteractionVideoParser {
    /// Graph version, needed by the edge-info endpoint.
    graph_version: usize,
    /// Session cookie value; without it some choices may not be returned.
    buvid3: Option<String>,
    /// Edge ids already visited, to walk each edge once.
    edge_list: Vec<usize>,
    /// The accumulating result.
    pub part_list: PartInfoList,
    /// The video identity.
    url: UrlInfo,
    /// The part count the page data reports, when known.
    part_count: Option<usize>,
    /// Options, consulted for the fast-path switch.
    opt: Option<OptStore>,
    /// Settings, consulted for the fast-path switch.
    settings: Option<SettingStore>,
    /// Depth-first worklist: the front holds the remaining choices of the
    /// most recently fetched node, followed by those of its ancestors.
    pending: Vec<EdgeInfo>,
    /// The edge handed out by `next_edge` and awaiting its node.
    current: Option<EdgeInfo>,
}

impl InteractionVideoParser {
    /// The accumulated parts.
    pub closed spec fn spec_parts(&self) -> Seq<PartInfoModel> {
        self.part_list@
    }

    pub closed spec fn spec_graph_version(&self) -> usize {
        self.graph_version
    }

    pub closed spec fn spec_buvid3(&self) -> Option<Seq<char>> {
        crate::getopt::view_opt_string(self.buvid3)
    }

    pub closed spec fn spec_visited(&self) -> Seq<usize> {
        self.edge_list@
    }

    pub closed spec fn spec_part_count(&self) -> Option<usize> {
        self.part_count
    }

    pub closed spec fn spec_url(&self) -> crate::normal_video::UrlInfoModel {
        self.url@
    }

    pub closed spec fn spec_pending(&self) -> Seq<EdgeInfoModel> {
        self.pending@.map_values(|e: EdgeInfo| e@)
    }

    pub closed spec fn spec_current(&self) -> Option<EdgeInfoModel> {
        match self.current {
            Some(e) => Some(e@),
            None => None,
        }
    }

    pub closed spec fn spec_no_use(&self) -> bool {
        spec_no_use_storylist(self.opt, self.settings)
    }

    /// A parser over the given identity, seeded with the flat part list
    /// already known.
    pub fn new(
        graph_version: usize,
        buvid3: Option<String>,
        part_list: PartInfoList,
        url: UrlInfo,
        part_count: Option<usize>,
        opt: Option<OptStore>,
        settings: Option<SettingStore>,
    ) -> (r: InteractionVideoParser)
        ensures
            r.spec_graph_version() == graph_version,
            r.spec_buvid3() == crate::getopt::view_opt_string(buvid3),
            r.spec_visited() =~= Seq::<usize>::empty(),
            r.spec_parts() == part_list@,
            r.spec_url() == url@,
            r.spec_part_count() == part_count,
            r.spec_pending() =~= Seq::<EdgeInfoModel>::empty(),
            r.spec_current() is None,
    {
        InteractionVideoParser {
            graph_version,
            buvid3,
            edge_list: Vec::new(),
            part_list,
            url,
            part_count,
            opt,
            settings,
            pending: Vec::new(),
            current: None,
        }
    }

    /// Whether the story-list fast path is disabled.
    pub fn no_use_storylist(&self) -> (r: bool)
        ensures
            r == self.spec_no_use(),
    {
        match &self.opt {
            Some(o) => {
                if o.has_option("no-use-storylist") {
                    return true;
                }
            },
            None => {},
        }
        match &self.settings {
            Some(se) => {
                match se.get_settings_as_bool("BiliNormalVideoProvider", "no-use-storylist") {
                    Some(b) => b,
                    None => false,
                }
            },
            None => false,
        }
    }

    /// The request parameters of one edge-info fetch: the short code, the
    /// graph version and fixed platform fields; the session cookie value
    /// when known; and, for a non-root fetch, the edge id and its action
    /// token.
    pub fn edge_info_request(&self, edge: Option<&EdgeInfo>) -> (r: Json)
        ensures
            r is Obj,
            spec_get(r, "bvid"@) matches Some(b) && b is Str && b->Str_0@ == self.spec_url().bv,
            spec_get(r, "graph_version"@) matches Some(g) && g is Int && g->Int_0
                == self.spec_graph_version() as i64,
            spec_get(r, "platform"@) matches Some(p) && p is Str && p->Str_0@ == "pc"@,
            spec_get(r, "portal"@) == Some(Json::Int(0)),
            spec_get(r, "screen"@) == Some(Json::Int(0)),
            edge matches Some(e) ==> (spec_get(r, "edge_id"@) matches Some(i) && i is Int
                && i->Int_0 == e.id as i64),
            edge matches Some(e) ==> (spec_get(r, "choice"@) matches Some(c) && c is Str
                && c->Str_0@ == e.native_action@),
            self.spec_buvid3() matches Some(b) ==> (spec_get(r, "buvid3"@) matches Some(bv)
                && bv is Str && bv->Str_0@ == b),
    {
        let mut entries: Vec<(String, Json)> = Vec::new();
        entries.push(("bvid".to_owned(), Json::Str(self.url.bv.clone())));
        #[verifier::truncate]
        let gv = self.graph_version as i64;
        entries.push(("graph_version".to_owned(), Json::Int(gv)));
        entries.push(("platform".to_owned(), Json::Str("pc".to_owned())));
        entries.push(("portal".to_owned(), Json::Int(0)));
        entries.push(("screen".to_owned(), Json::Int(0)));
        match &self.buvid3 {
            Some(b) => {
                entries.push(("buvid3".to_owned(), Json::Str(b.clone())));
            },
            None => {},
        }
        match edge {
            Some(e) => {
                #[verifier::truncate]
                let eid = e.id as i64;
                entries.push(("edge_id".to_owned(), Json::Int(eid)));
                entries.push(("choice".to_owned(), Json::Str(e.native_action.clone())));
            },
            None => {},
        }
        let r = Json::Obj(entries);
        proof {
            reveal_strlit("bvid");
            reveal_strlit("graph_version");
            reveal_strlit("platform");
            reveal_strlit("portal");
            reveal_strlit("screen");
            reveal_strlit("buvid3");
            reveal_strlit("edge_id");
            reveal_strlit("choice");
            let es = entries@;
            assert(es[0].0@ == "bvid"@);
            assert(es[1].0@ == "graph_version"@);
            assert(es[2].0@ == "platform"@);
            assert(es[3].0@ == "portal"@);
            assert(es[4].0@ == "screen"@);
            crate::json_model::lemma_obj_get_at(es, "bvid"@, 0);
            crate::json_model::lemma_obj_get_at(es, "graph_version"@, 1);
            let base: int = if self.buvid3 is Some {
                6
            } else {
                5
            };
            assert("buvid3"@[0] == 'b' && "portal"@[0] == 'p' && "screen"@[0] == 's'
                && "choice"@[0] == 'c');
            assert("buvid3"@ != "portal"@ && "buvid3"@ != "screen"@);
            assert("choice"@ != "portal"@ && "choice"@ != "screen"@ && "choice"@ != "buvid3"@);
            assert("portal"@ != "screen"@);
            crate::json_model::lemma_obj_get_at(es, "platform"@, 2);
            crate::json_model::lemma_obj_get_at(es, "portal"@, 3);
            crate::json_model::lemma_obj_get_at(es, "screen"@, 4);
            if self.buvid3 is Some {
                assert(es[5].0@ == "buvid3"@);
                crate::json_model::lemma_obj_get_at(es, "buvid3"@, 5);
            }
            if edge is Some {
                assert(es[base].0@ == "edge_id"@);
                assert(es[base + 1].0@ == "choice"@);
                crate::json_model::lemma_obj_get_at(es, "edge_id"@, base);
                crate::json_model::lemma_obj_get_at(es, "choice"@, base + 1);
            }
        }
        r
    }

    /// Build a part list from an inline story list, as `spec_story_parts`:
    /// entries deduplicated by content id, first seen wins, pages numbered
    /// sequentially.
    #[verifier::loop_isolation(false)]
    pub fn parse_list_from_story_list(&self, list: &Json) -> (r: Option<PartInfoList>)
        ensures
            match *list {
                Json::Arr(items) => match spec_story_parts(items@, 0, Seq::empty(), 1) {
                    Some(ms) => r matches Some(pl) && pl@ == ms,
                    None => r is None,
                },
                _ => r is None,
            },
    {
        let items = match list {
            Json::Arr(items) => items,
            _ => {
                return None;
            },
        };
        let mut out: Vec<PartInfo> = Vec::new();
        let mut cl: Vec<usize> = Vec::new();
        let mut i: usize = 0;
        while i < items.len()
            invariant
                0 <= i <= items@.len(),
                out@.len() <= i,
                match spec_story_parts(items@, i as int, cl@, out@.len() as int + 1) {
                    Some(rest) => spec_story_parts(items@, 0, Seq::empty(), 1) == Some(
                        out@.map_values(|p: PartInfo| p@) + rest,
                    ),
                    None => spec_story_parts(items@, 0, Seq::empty(), 1) is None,
                },
            decreases items@.len() - i,
        {
            let cid = match get_as_usize(&items[i], "cid") {
                Some(c) => c,
                None => {
                    return None;
                },
            };
            if !contains_usize(&cl, cid) {
                cl.push(cid);
                let title = match items[i].get("title") {
                    Some(t) => match t.as_str() {
                        Some(t) => t,
                        None => {
                            return None;
                        },
                    },
                    None => {
                        return None;
                    },
                };
                let pn = out.len() + 1;
                let p = PartInfo::new(cid, pn, title);
                let ghost out_before = out@;
                out.push(p);
                proof {
                    assert(out@ =~= out_before.push(p));
                    assert(out@.map_values(|q: PartInfo| q@) =~= out_before.map_values(
                        |q: PartInfo| q@,
                    ).push(p@));
                }
            }
            i += 1;
        }
        proof {
            if spec_story_parts(items@, 0, Seq::empty(), 1) is Some {
                assert(spec_story_parts(items@, 0, Seq::empty(), 1)->Some_0 =~= out@.map_values(
                    |p: PartInfo| p@,
                ));
            }
        }
        Some(PartInfoList { list: out })
    }

    /// Append the part a fetched node contributes, as `spec_add_node`.
    #[verifier::loop_isolation(false)]
    fn add_node(&mut self, data: &Json) -> (r: bool)
        requires
            old(self).spec_parts().len() < usize::MAX,
        ensures
            final(self).graph_version == old(self).graph_version,
            final(self).buvid3 == old(self).buvid3,
            final(self).edge_list == old(self).edge_list,
            final(self).url == old(self).url,
            final(self).part_count == old(self).part_count,
            final(self).opt == old(self).opt,
            final(self).settings == old(self).settings,
            final(self).pending == old(self).pending,
            final(self).current == old(self).current,
            match spec_add_node(*data, (old(self).spec_parts().len() + 1) as usize) {
                Ok(m) => r && final(self).spec_parts() == old(self).spec_parts().push(m),
                Err(_) => !r && final(self).spec_parts() == old(self).spec_parts(),
            },
    {
        let pn = self.part_list.list.len() + 1;
        let title = match data.get("title") {
            Some(t) => match t.as_str() {
                Some(t) => t,
                None => {
                    return false;
                },
            },
            None => {
                return false;
            },
        };
        let id = match data.get("edge_id") {
            Some(v) => match v.as_i64() {
                Some(id) => id,
                None => {
                    return false;
                },
            },
            None => {
                return false;
            },
        };
        let items = match data.get("story_list") {
            Some(Json::Arr(items)) => items,
            _ => {
                proof {
                    assert(arr_or_empty(spec_get(*data, "story_list"@)).skip(0)
                        =~= arr_or_empty(spec_get(*data, "story_list"@)));
                }
                return false;
            },
        };
        let ghost all = items@;
        proof {
            assert(all.skip(0) =~= all);
        }
        let mut k: usize = 0;
        while k < items.len()
            invariant
                0 <= k <= all.len(),
                items@ == all,
                *self == *old(self),
                spec_story_cid(all, id) == spec_story_cid(all.skip(k as int), id),
            decreases all.len() - k,
        {
            proof {
                assert(all.skip(k as int)[0] == all[k as int]);
                assert(all.skip(k as int).skip(1) =~= all.skip(k + 1));
            }
            let eid = match items[k].get("edge_id") {
                Some(v) => v.as_i64(),
                None => None,
            };
            let matched = match eid {
                Some(e) => e == id,
                None => false,
            };
            if matched {
                let cid = match get_as_usize(&items[k], "cid") {
                    Some(c) => c,
                    None => {
                        return false;
                    },
                };
                let p = PartInfo::new(cid, pn, title);
                self.part_list.list.push(p);
                proof {
                    assert(final(self).spec_parts() =~= old(self).spec_parts().push(p@));
                }
                return true;
            }
            k += 1;
        }
        proof {
            assert(all.skip(k as int).len() == 0);
        }
        false
    }

    /// Run the root step: when the expected part count is known, the fast
    /// path is enabled, and the root's inline story list parses to exactly
    /// that many parts, the story list becomes the result and the traversal
    /// is over (`Ok(true)`) — the fast path is taken whenever it is
    /// available; otherwise the root's choices are queued for the full walk
    /// (`Ok(false)`), and an unparsable choice fails.
    pub fn on_root(&mut self, data: &Json) -> (r: Result<bool, InteractionError>)
        ensures
            final(self).spec_graph_version() == old(self).spec_graph_version(),
            final(self).spec_buvid3() == old(self).spec_buvid3(),
            final(self).spec_visited() == old(self).spec_visited(),
            final(self).spec_part_count() == old(self).spec_part_count(),
            final(self).spec_current() == old(self).spec_current(),
            (old(self).spec_part_count() matches Some(c) && !old(self).spec_no_use() && (
            match spec_get(*data, "story_list"@) {
                Some(Json::Arr(items)) => spec_story_parts(items@, 0, Seq::empty(), 1)
                    matches Some(ms) && ms.len() == c,
                _ => false,
            })) ==> r == Ok::<bool, InteractionError>(true),
            match r {
                Ok(true) => {
                    &&& old(self).spec_part_count() matches Some(c)
                    &&& !old(self).spec_no_use()
                    &&& (match spec_get(*data, "story_list"@) {
                        Some(Json::Arr(items)) => spec_story_parts(items@, 0, Seq::empty(), 1)
                            matches Some(ms) && ms.len() == c && final(self).spec_parts() == ms,
                        _ => false,
                    })
                    &&& final(self).spec_pending() == old(self).spec_pending()
                },
                Ok(false) => {
                    &&& spec_node_edges(*data) matches Ok(es)
                    &&& final(self).spec_pending() == es + old(self).spec_pending()
                    &&& final(self).spec_parts() == old(self).spec_parts()
                },
                Err(InteractionError::Edge(e)) => {
                    &&& spec_node_edges(*data) == Err::<Seq<EdgeInfoModel>, EdgeInfoError>(e)
                    &&& final(self).spec_pending() == old(self).spec_pending()
                    &&& final(self).spec_parts() == old(self).spec_parts()
                },
                Err(_) => false,
            },
    {
        let mut use_fast = false;
        let count: usize = match self.part_count {
            Some(c) => {
                use_fast = true;
                c
            },
            None => 0,
        };
        if use_fast && !self.no_use_storylist() {
            let li = match data.get("story_list") {
                Some(v) => self.parse_list_from_story_list(v),
                None => None,
            };
            match li {
                Some(li) => {
                    if li.list.len() == count {
                        proof {
                            assert(li@.len() == li.list@.len());
                        }
                        self.part_list = li;
                        return Ok(true);
                    }
                },
                None => {},
            }
        }
        let es = match node_edges(data) {
            Ok(es) => es,
            Err(e) => {
                return Err(InteractionError::Edge(e));
            },
        };
        self.prepend_pending(es);
        Ok(false)
    }

    /// Put new choices at the front of the worklist, before the remaining
    /// choices of earlier nodes: the walk is depth first.
    #[verifier::loop_isolation(false)]
    fn prepend_pending(&mut self, es: Vec<EdgeInfo>)
        ensures
            final(self).spec_pending() == es@.map_values(|e: EdgeInfo| e@)
                + old(self).spec_pending(),
            final(self).graph_version == old(self).graph_version,
            final(self).buvid3 == old(self).buvid3,
            final(self).edge_list == old(self).edge_list,
            final(self).part_list == old(self).part_list,
            final(self).url == old(self).url,
            final(self).part_count == old(self).part_count,
            final(self).opt == old(self).opt,
            final(self).settings == old(self).settings,
            final(self).current == old(self).current,
    {
        let ghost es_models = es@.map_values(|e: EdgeInfo| e@);
        let ghost old_models = self.pending@.map_values(|e: EdgeInfo| e@);
        let mut np = es;
        let mut i: usize = 0;
        while i < self.pending.len()
            invariant
                0 <= i <= self.pending@.len(),
                *self == *old(self),
                old_models == self.pending@.map_values(|e: EdgeInfo| e@),
                np@.map_values(|e: EdgeInfo| e@) =~= es_models + old_models.subrange(
                    0,
                    i as int,
                ),
            decreases self.pending@.len() - i,
        {
            let e = self.pending[i].clone();
            let ghost np_before = np@;
            let ghost em = e@;
            np.push(e);
            proof {
                assert(np@.map_values(|q: EdgeInfo| q@) =~= np_before.map_values(
                    |q: EdgeInfo| q@,
                ).push(em));
                assert(em == old_models[i as int]);
                assert(np@.map_values(|q: EdgeInfo| q@) =~= es_models + old_models.subrange(
                    0,
                    i + 1,
                ));
            }
            i += 1;
        }
        proof {
            assert(old_models.subrange(0, old_models.len() as int) =~= old_models);
        }
        self.pending = np;
        proof {
            assert(final(self).spec_pending() =~= es_models + old_models);
        }
    }

    /// Hand out the next edge to fetch: the first pending choice whose
    /// edge id has not been visited; the skipped (already visited) choices
    /// before it leave the worklist. `None` means the walk is complete:
    /// every pending edge id was already visited.
    #[verifier::loop_isolation(false)]
    pub fn next_edge(&mut self) -> (r: Option<EdgeInfo>)
        requires
            old(self).spec_current() is None,
        ensures
            final(self).spec_graph_version() == old(self).spec_graph_version(),
            final(self).spec_buvid3() == old(self).spec_buvid3(),
            final(self).spec_visited() == old(self).spec_visited(),
            final(self).spec_parts() == old(self).spec_parts(),
            final(self).spec_part_count() == old(self).spec_part_count(),
            ({
                let p0 = old(self).spec_pending();
                let v = old(self).spec_visited();
                let k = next_unvisited(p0, v, 0);
                if k == p0.len() {
                    &&& r is None
                    &&& final(self).spec_pending().len() == 0
                    &&& final(self).spec_current() is None
                } else {
                    &&& r matches Some(e) && e@ == p0[k]
                    &&& !v.contains(p0[k].id)
                    &&& final(self).spec_current() == Some(p0[k])
                    &&& final(self).spec_pending() == p0.skip(k + 1)
                }
            }),
    {
        let ghost p0 = old(self).spec_pending();
        let ghost v = old(self).spec_visited();
        let ghost mut t: int = 0;
        proof {
            assert(self.spec_pending() =~= p0.skip(0));
        }
        loop
            invariant
                0 <= t <= p0.len(),
                self.spec_pending() =~= p0.skip(t),
                next_unvisited(p0, v, 0) == next_unvisited(p0, v, t),
                self.current is None,
                self.graph_version == old(self).graph_version,
                self.buvid3 == old(self).buvid3,
                self.edge_list == old(self).edge_list,
                self.part_list == old(self).part_list,
                self.url == old(self).url,
                self.part_count == old(self).part_count,
                self.opt == old(self).opt,
                self.settings == old(self).settings,
            decreases self.pending@.len(),
        {
            if self.pending.len() == 0 {
                proof {
                    assert(t == p0.len());
                    assert(next_unvisited(p0, v, t) == t);
                }
                return None;
            }
            let e = self.pending.remove(0);
            proof {
                assert(e@ == p0.skip(t)[0]);
                assert(p0.skip(t)[0] == p0[t]);
                assert(self.spec_pending() =~= p0.skip(t).skip(1));
                assert(p0.skip(t).skip(1) =~= p0.skip(t + 1));
            }
            if !contains_usize(&self.edge_list, e.id) {
                proof {
                    assert(next_unvisited(p0, v, t) == t);
                }
                let out = e.clone();
                self.current = Some(e);
                return Some(out);
            }
            proof {
                assert(next_unvisited(p0, v, t) == next_unvisited(p0, v, t + 1));
                t = t + 1;
            }
        }
    }

    /// Take the node fetched for the edge `next_edge` handed out: append
    /// its part, mark the edge visited, and queue its own choices in front
    /// (depth first). The step succeeds exactly when the node's part and
    /// its choices can both be read; a failed step leaves the traversal
    /// state untouched.
    pub fn on_node(&mut self, data: &Json) -> (r: Result<(), InteractionError>)
        requires
            old(self).spec_current() matches Some(cur),
            old(self).spec_parts().len() < usize::MAX,
        ensures
            final(self).spec_graph_version() == old(self).spec_graph_version(),
            final(self).spec_buvid3() == old(self).spec_buvid3(),
            final(self).spec_part_count() == old(self).spec_part_count(),
            match spec_node_edges(*data) {
                Err(e) => {
                    &&& r == Err::<(), InteractionError>(InteractionError::Edge(e))
                    &&& final(self).spec_parts() == old(self).spec_parts()
                    &&& final(self).spec_visited() == old(self).spec_visited()
                    &&& final(self).spec_pending() == old(self).spec_pending()
                    &&& final(self).spec_current() == old(self).spec_current()
                },
                Ok(es) => match spec_add_node(
                    *data,
                    (old(self).spec_parts().len() + 1) as usize,
                ) {
                    Err(e) => {
                        &&& r == Err::<(), InteractionError>(e)
                        &&& final(self).spec_parts() == old(self).spec_parts()
                        &&& final(self).spec_visited() == old(self).spec_visited()
                        &&& final(self).spec_pending() == old(self).spec_pending()
                        &&& final(self).spec_current() == old(self).spec_current()
                    },
                    Ok(m) => {
                        &&& r is Ok
                        &&& final(self).spec_parts() == old(self).spec_parts().push(m)
                        &&& final(self).spec_visited() == old(self).spec_visited().push(
                            old(self).spec_current()->Some_0.id,
                        )
                        &&& final(self).spec_pending() == es + old(self).spec_pending()
                        &&& final(self).spec_current() is None
                    },
                },
            },
    {
        let es = match node_edges(data) {
            Ok(es) => es,
            Err(e) => {
                return Err(InteractionError::Edge(e));
            },
        };
        if !self.add_node(data) {
            return Err(node_failure(data));
        }
        let cur = match &self.current {
            Some(c) => c.id,
            None => 0,
        };
        self.edge_list.push(cur);
        self.current = None;
        self.prepend_pending(es);
        Ok(())
    }

    /// Validate the finished walk: with a known expected count, the number
    /// of parts found must equal it.
    pub fn finish(&self) -> (r: Result<(), InteractionError>)
        ensures
            match self.spec_part_count() {
                Some(c) => {
                    &&& r is Ok <==> self.spec_parts().len() == c
                    &&& (r matches Err(InteractionError::Mismatch { expected, got }) ==> expected
                        == c && got == self.spec_parts().len())
                    &&& (r is Err ==> r matches Err(InteractionError::Mismatch { .. }))
                },
                None => r is Ok,
            },
    {
        match self.part_count {
            Some(c) => {
                if self.part_list.list.len() != c {
                    Err(InteractionError::Mismatch { expected: c, got: self.part_list.list.len() })
                } else {
                    Ok(())
                }
            },
            None => Ok(()),
        }
    }
}

/// The failure a node that `add_node` rejected is reported with.
fn node_failure(data: &Json) -> (r: InteractionError)
    ensures
        spec_add_node(*data, 1) matches Err(e) ==> r == e,
{
    match data.get("title") {
        Some(t) => {
            if t.as_str().is_none() {
                return InteractionError::NodeTitleMissing;
            }
        },
        None => {
            return InteractionError::NodeTitleMissing;
        },
    }
    let has_id = match data.get("edge_id") {
        Some(v) => v.as_i64().is_some(),
        None => false,
    };
    if !has_id {
        return InteractionError::NodeEdgeIdMissing;
    }
    InteractionError::NodeStoryMismatch
}

/// Whether a vector holds a value.
#[verifier::loop_isolation(false)]
fn contains_usize(v: &Vec<usize>, x: usize) -> (r: bool)
    ensures
        r == v@.contains(x),
{
    let mut i: usize = 0;
    while i < v.len()
        invariant
            0 <= i <= v@.len(),
            forall|k: int| 0 <= k < i ==> v@[k] != x,
        decreases v@.len() - i,
    {
        if v[i] == x {
            return true;
        }
        i += 1;
    }
    false
}

/// Parse every choice of one question, as `spec_choice_edges`.
#[verifier::loop_isolation(false)]
fn choice_edges(chs: &Vec<Json>) -> (r: Result<Vec<EdgeInfo>, EdgeInfoError>)
    ensures
        match r {
            Ok(es) => spec_choice_edges(chs@, 0) == Ok::<Seq<EdgeInfoModel>, EdgeInfoError>(
                es@.map_values(|e: EdgeInfo| e@),
            ),
            Err(e) => spec_choice_edges(chs@, 0) == Err::<Seq<EdgeInfoModel>, EdgeInfoError>(e),
        },
{
    let mut out: Vec<EdgeInfo> = Vec::new();
    let mut j: usize = 0;
    while j < chs.len()
        invariant
            0 <= j <= chs@.len(),
            spec_choice_edges(chs@, j as int) is Ok ==> (spec_choice_edges(chs@, 0) matches Ok(
                all,
            ) && all =~= out@.map_values(|e: EdgeInfo| e@) + spec_choice_edges(
                chs@,
                j as int,
            )->Ok_0),
            spec_choice_edges(chs@, j as int) matches Err(e) ==> spec_choice_edges(chs@, 0)
                == Err::<Seq<EdgeInfoModel>, EdgeInfoError>(e),
        decreases chs@.len() - j,
    {
        let e = match EdgeInfo::try_from(&chs[j]) {
            Ok(e) => e,
            Err(er) => {
                return Err(er);
            },
        };
        let ghost out_before = out@;
        let ghost em = e@;
        out.push(e);
        proof {
            assert(out@.map_values(|q: EdgeInfo| q@) =~= out_before.map_values(
                |q: EdgeInfo| q@,
            ).push(em));
            if spec_choice_edges(chs@, j + 1) is Ok {
                assert(seq![em] + spec_choice_edges(chs@, j + 1)->Ok_0 == spec_choice_edges(
                    chs@,
                    j as int,
                )->Ok_0);
                assert(out_before.map_values(|q: EdgeInfo| q@).push(em) + spec_choice_edges(
                    chs@,
                    j + 1,
                )->Ok_0 =~= out_before.map_values(|q: EdgeInfo| q@) + (seq![em]
                    + spec_choice_edges(chs@, j + 1)->Ok_0));
            }
        }
        j += 1;
    }
    proof {
        if spec_choice_edges(chs@, 0) is Ok {
            assert(spec_choice_edges(chs@, 0)->Ok_0 =~= out@.map_values(|e: EdgeInfo| e@));
        }
    }
    Ok(out)
}

/// Collect all choice edges of a fetched node, as `spec_node_edges`.
#[verifier::loop_isolation(false)]
fn node_edges(data: &Json) -> (r: Result<Vec<EdgeInfo>, EdgeInfoError>)
    ensures
        match r {
            Ok(es) => spec_node_edges(*data) == Ok::<Seq<EdgeInfoModel>, EdgeInfoError>(
                es@.map_values(|e: EdgeInfo| e@),
            ),
            Err(e) => spec_node_edges(*data) == Err::<Seq<EdgeInfoModel>, EdgeInfoError>(e),
        },
{
    let ghost qs = arr_or_empty(
        match spec_get(*data, "edges"@) {
            Some(e) => spec_get(e, "questions"@),
            None => None,
        },
    );
    let questions: Option<&Json> = match data.get("edges") {
        Some(e) => e.get("questions"),
        None => None,
    };
    let mut out: Vec<EdgeInfo> = Vec::new();
    let items = match questions {
        Some(Json::Arr(items)) => items,
        _ => {
            proof {
                assert(qs.len() == 0);
                assert(out@.map_values(|e: EdgeInfo| e@) =~= Seq::<EdgeInfoModel>::empty());
            }
            return Ok(out);
        },
    };
    proof {
        assert(items@ == qs);
    }
    let mut i: usize = 0;
    while i < items.len()
        invariant
            0 <= i <= qs.len(),
            items@ == qs,
            spec_question_edges(qs, i as int) is Ok ==> (spec_question_edges(qs, 0) matches Ok(
                all,
            ) && all =~= out@.map_values(|e: EdgeInfo| e@) + spec_question_edges(
                qs,
                i as int,
            )->Ok_0),
            spec_question_edges(qs, i as int) matches Err(e) ==> spec_question_edges(qs, 0)
                == Err::<Seq<EdgeInfoModel>, EdgeInfoError>(e),
        decreases qs.len() - i,
    {
        let ghost cs = arr_or_empty(spec_get(qs[i as int], "choices"@));
        let choices: Option<&Json> = items[i].get("choices");
        let head: Vec<EdgeInfo> = match choices {
            Some(Json::Arr(chs)) => {
                proof {
                    assert(chs@ == cs);
                }
                match choice_edges(chs) {
                    Ok(es) => es,
                    Err(e) => {
                        return Err(e);
                    },
                }
            },
            _ => {
                proof {
                    assert(cs.len() == 0);
                    assert(spec_choice_edges(cs, 0) == Ok::<Seq<EdgeInfoModel>, EdgeInfoError>(
                        Seq::<EdgeInfoModel>::empty(),
                    ));
                }
                Vec::new()
            },
        };
        let ghost out_before_models = out@.map_values(|e: EdgeInfo| e@);
        let ghost head_models = head@.map_values(|e: EdgeInfo| e@);
        proof {
            assert(head_models =~= spec_choice_edges(cs, 0)->Ok_0);
        }
        let mut k: usize = 0;
        while k < head.len()
            invariant
                0 <= k <= head@.len(),
                head_models == head@.map_values(|e: EdgeInfo| e@),
                out@.map_values(|e: EdgeInfo| e@) =~= out_before_models + head_models.subrange(
                    0,
                    k as int,
                ),
            decreases head@.len() - k,
        {
            let e = head[k].clone();
            let ghost out_prev = out@;
            let ghost em = e@;
            out.push(e);
            proof {
                assert(out@.map_values(|q: EdgeInfo| q@) =~= out_prev.map_values(
                    |q: EdgeInfo| q@,
                ).push(em));
                assert(em == head_models[k as int]);
                assert(out@.map_values(|q: EdgeInfo| q@) =~= out_before_models
                    + head_models.subrange(0, k + 1));
            }
            k += 1;
        }
        proof {
            assert(head_models.subrange(0, head_models.len() as int) =~= head_models);
            assert(out@.map_values(|e: EdgeInfo| e@) =~= out_before_models + head_models);
            if spec_question_edges(qs, i + 1) is Ok {
                assert(spec_question_edges(qs, i as int)->Ok_0 == head_models
                    + spec_question_edges(qs, i + 1)->Ok_0);
                assert(out_before_models + (head_models + spec_question_edges(qs, i + 1)->Ok_0)
                    =~= (out_before_models + head_models) + spec_question_edges(qs, i + 1)->Ok_0);
            }
        }
        i += 1;
    }
    proof {
        if spec_question_edges(qs, 0) is Ok {
            assert(spec_question_edges(qs, 0)->Ok_0 =~= out@.map_values(|e: EdgeInfo| e@));
        }
    }
    Ok(out)
}

} // verus!
