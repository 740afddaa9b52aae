//! The ordered part list of a video: one entry per playable part, built
//! from the page array of an API response or synthesized one node at a time
//! by the interactive-video parser.
use crate::json_model::spec_as_usize;
use crate::json_model::spec_get;
use crate::json_model::Json;
use crate::strutil::atou;
use crate::strutil::spec_atou;
use vstd::prelude::*;

verus! {

/// The information of one part.
#[derive(Debug, Clone, PartialEq)]
pub struct PartInfo {
    /// Content id: every part has a distinct one, used to request its data.
    pub cid: usize,
    /// Part duration in seconds.
    pub duration: Option<usize>,
    /// 1-based part number.
    pub page: usize,
    /// Part title.
    pub part: String,
}

/// The ghost image of a `PartInfo`, with the title as its characters.
pub struct PartInfoModel {
    pub cid: usize,
    pub duration: Option<usize>,
    pub page: usize,
    pub part: Seq<char>,
}

impl View for PartInfo {
    type V = PartInfoModel;

    open spec fn view(&self) -> PartInfoModel {
        PartInfoModel { cid: self.cid, duration: self.duration, page: self.page, part: self.part@ }
    }
}

impl PartInfo {
    /// A part with no duration yet.
    pub fn new(cid: usize, page: usize, part: &str) -> (r: Self)
        ensures
            r@ == (PartInfoModel { cid, duration: None::<usize>, page, part: part@ }),
    {
        Self { cid, duration: None, page, part: part.to_owned() }
    }
}

/// Why a part list cannot be built from a JSON value.
#[derive(Debug, Clone, Copy, PartialEq, Eq, Structural)]
pub enum PartInfoListError {
    /// The value is not an array.
    NotArray,
    /// An element of the array is not an object.
    ElementNotObject,
    /// An element has no `cid`, or an explicitly null one.
    CidMissing,
    /// An element's `cid` is neither a number nor a numeric string.
    CidInvalid,
    /// An element has no `part`, or an explicitly null one.
    PartMissing,
    /// An element's `part` is not a string.
    PartNotString,
    /// The array is empty.
    Empty,
}

/// A number, or a numeric string, coerced to `usize`.
pub open spec fn spec_coerce_usize(v: Option<Json>) -> Option<usize> {
    match v {
        None => None,
        Some(x) => if spec_as_usize(x) is Some {
            spec_as_usize(x)
        } else if x is Str {
            spec_atou(x->Str_0@)
        } else {
            None
        },
    }
}

/// The part an array element describes, with `pn` the 1-based default page
/// number: `cid` and `part` are mandatory, `page` and `duration` optional.
pub open spec fn spec_elem_info(j: Json, pn: usize) -> Result<PartInfoModel, PartInfoListError> {
    if !(j is Obj) {
        Err(PartInfoListError::ElementNotObject)
    } else {
        let cid_v = spec_get(j, "cid"@);
        if cid_v is None || cid_v->Some_0 is Null {
            Err(PartInfoListError::CidMissing)
        } else {
            match spec_coerce_usize(cid_v) {
                None => Err(PartInfoListError::CidInvalid),
                Some(cid) => {
                    let part_v = spec_get(j, "part"@);
                    if part_v is None || part_v->Some_0 is Null {
                        Err(PartInfoListError::PartMissing)
                    } else if !(part_v->Some_0 is Str) {
                        Err(PartInfoListError::PartNotString)
                    } else {
                        let page = match spec_coerce_usize(spec_get(j, "page"@)) {
                            Some(p) => p,
                            None => pn,
                        };
                        Ok(
                            PartInfoModel {
                                cid,
                                duration: spec_coerce_usize(spec_get(j, "duration"@)),
                                page,
                                part: part_v->Some_0->Str_0@,
                            },
                        )
                    }
                },
            }
        }
    }
}

/// The parts described by the elements from `i` on, numbered from `i + 1`;
/// the first invalid element fails the whole conversion.
pub open spec fn spec_elems_info(items: Seq<Json>, i: int) -> Result<
    Seq<PartInfoModel>,
    PartInfoListError,
>
    decreases items.len() - i,
    when 0 <= i <= items.len() <= usize::MAX
{
    if i == items.len() {
        Ok(Seq::empty())
    } else {
        match spec_elem_info(items[i], (i + 1) as usize) {
            Err(e) => Err(e),
            Ok(m) => match spec_elems_info(items, i + 1) {
                Ok(rest) => Ok(seq![m] + rest),
                Err(e) => Err(e),
            },
        }
    }
}

/// The part list a JSON value describes: a non-empty array of part objects.
pub open spec fn spec_part_info_list(j: Json) -> Result<Seq<PartInfoModel>, PartInfoListError> {
    match j {
        Json::Arr(items) => match spec_elems_info(items@, 0) {
            Ok(ms) => if ms.len() == 0 {
                Err(PartInfoListError::Empty)
            } else {
                Ok(ms)
            },
            Err(e) => Err(e),
        },
        _ => Err(PartInfoListError::NotArray),
    }
}

/// The ordered list of parts; the order is the playback order.
#[derive(Debug, Clone, PartialEq)]
pub struct PartInfoList {
    pub list: Vec<PartInfo>,
}

impl View for PartInfoList {
    type V = Seq<PartInfoModel>;

    open spec fn view(&self) -> Seq<PartInfoModel> {
        self.list@.map_values(|p: PartInfo| p@)
    }
}

impl PartInfoList {
    /// The content id of the first part, which seeds interactive-video
    /// detection.
    pub fn first_cid(&self) -> (r: Option<usize>)
        ensures
            self@.len() == 0 ==> r is None,
            self@.len() > 0 ==> r == Some(self@[0].cid),
    {
        if self.list.len() == 0 {
            None
        } else {
            Some(self.list[0].cid)
        }
    }
}

impl From<Vec<PartInfo>> for PartInfoList {
    /// Wrap a vector of parts.
    fn from(list: Vec<PartInfo>) -> (r: PartInfoList) {
        PartInfoList { list }
    }
}

impl vstd::std_specs::convert::FromSpecImpl<Vec<PartInfo>> for PartInfoList {
    open spec fn obeys_from_spec() -> bool {
        true
    }

    open spec fn from_spec(list: Vec<PartInfo>) -> PartInfoList {
        PartInfoList { list }
    }
}

/// Build the part an array element describes.
fn elem_info(j: &Json, pn: usize) -> (r: Result<PartInfo, PartInfoListError>)
    ensures
        match r {
            Ok(p) => spec_elem_info(*j, pn) == Ok::<PartInfoModel, PartInfoListError>(p@),
            Err(e) => spec_elem_info(*j, pn) == Err::<PartInfoModel, PartInfoListError>(e),
        },
{
    if !j.is_object() {
        return Err(PartInfoListError::ElementNotObject);
    }
    let cid_v = j.get("cid");
    let cid_j = match cid_v {
        None => {
            return Err(PartInfoListError::CidMissing);
        },
        Some(v) => v,
    };
    if cid_j.is_null() {
        return Err(PartInfoListError::CidMissing);
    }
    let cid = match coerce_usize(cid_j) {
        None => {
            return Err(PartInfoListError::CidInvalid);
        },
        Some(c) => c,
    };
    let part_j = match j.get("part") {
        None => {
            return Err(PartInfoListError::PartMissing);
        },
        Some(v) => v,
    };
    if part_j.is_null() {
        return Err(PartInfoListError::PartMissing);
    }
    let part = match part_j.as_str() {
        None => {
            return Err(PartInfoListError::PartNotString);
        },
        Some(s) => s,
    };
    let page = match coerce_usize_opt(j.get("page")) {
        Some(p) => p,
        None => pn,
    };
    let duration = coerce_usize_opt(j.get("duration"));
    let mut p = PartInfo::new(cid, page, part);
    p.duration = duration;
    Ok(p)
}

/// Coerce a number or numeric string to `usize`.
fn coerce_usize(j: &Json) -> (r: Option<usize>)
    ensures
        r == spec_coerce_usize(Some(*j)),
{
    match j.as_usize() {
        Some(n) => Some(n),
        None => match j.as_str() {
            Some(s) => atou(s),
            None => None,
        },
    }
}

fn coerce_usize_opt(v: Option<&Json>) -> (r: Option<usize>)
    ensures
        match v {
            Some(j) => r == spec_coerce_usize(Some(*j)),
            None => r is None,
        },
{
    match v {
        Some(j) => coerce_usize(j),
        None => None,
    }
}

impl TryFrom<&Json> for PartInfoList {
    type Error = PartInfoListError;

    /// Build the part list a JSON array describes; any invalid element, or
    /// an empty array, fails the whole conversion.
    #[verifier::loop_isolation(false)]
    fn try_from(value: &Json) -> (r: Result<Self, PartInfoListError>)
        ensures
            match r {
                Ok(pl) => spec_part_info_list(*value) == Ok::<Seq<PartInfoModel>, PartInfoListError>(
                    pl@,
                ),
                Err(e) => spec_part_info_list(*value) == Err::<
                    Seq<PartInfoModel>,
                    PartInfoListError,
                >(e),
            },
    {
        let items = match value {
            Json::Arr(items) => items,
            _ => {
                return Err(PartInfoListError::NotArray);
            },
        };
        let mut out: Vec<PartInfo> = Vec::new();
        let mut i: usize = 0;
        while i < items.len()
            invariant
                0 <= i <= items@.len(),
                out@.len() == i,
                spec_elems_info(items@, i as int) is Ok ==> (spec_elems_info(items@, 0)
                    matches Ok(all) && all =~= out@.map_values(|p: PartInfo| p@)
                    + spec_elems_info(items@, i as int)->Ok_0),
                spec_elems_info(items@, i as int) matches Err(e) ==> spec_elems_info(items@, 0)
                    == Err::<Seq<PartInfoModel>, PartInfoListError>(e),
            decreases items@.len() - i,
        {
            let pn = if i < usize::MAX {
                i + 1
            } else {
                i
            };
            let p = match elem_info(&items[i], pn) {
                Ok(p) => p,
                Err(e) => {
                    return Err(e);
                },
            };
            out.push(p);
            proof {
                if spec_elems_info(items@, i + 1) is Ok {
                    assert(seq![p@] + spec_elems_info(items@, i + 1)->Ok_0 == spec_elems_info(
                        items@,
                        i as int,
                    )->Ok_0);
                    assert(out@.map_values(|q: PartInfo| q@) =~= out@.subrange(0, i as int)
                        .map_values(|q: PartInfo| q@) + seq![p@]);
                }
            }
            i += 1;
        }
        if out.len() == 0 {
            return Err(PartInfoListError::Empty);
        }
        proof {
            if spec_elems_info(items@, 0) is Ok {
                assert(spec_elems_info(items@, 0)->Ok_0 =~= out@.map_values(|p: PartInfo| p@));
            }
        }
        Ok(PartInfoList { list: out })
    }
}

impl vstd::std_specs::convert::TryFromSpecImpl<&Json> for PartInfoList {
    open spec fn obeys_try_from_spec() -> bool {
        false
    }

    open spec fn try_from_spec(value: &Json) -> Result<Self, PartInfoListError> {
        arbitrary()
    }
}

} // verus!
