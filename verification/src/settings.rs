//! Persistent settings: typed descriptions of the known keys, per-provider
//! jars of values, and the store that validates a value before it is added.
//! Reading and writing the settings file stays with the host program.
use crate::json_model::json_equiv;
use crate::json_model::json_text_value;
use crate::json_model::parse_json;
use crate::json_model::Json;
use crate::strutil::str_eq;
use vstd::prelude::*;

verus! {

/// The JSON type a setting accepts.
#[derive(Clone, Copy, PartialEq, Eq, Structural)]
pub enum JsonValueType {
    Str,
    Number,
    Boolean,
    Object,
    Array,
    Multiple,
}

/// The validators a setting description can carry. The set is closed: each
/// variant names one validation rule of this crate.
#[derive(Clone, Copy, PartialEq, Eq, Structural)]
pub enum SettingDesCallback {
    /// A part-range list, as `PartList::parse_from_json` accepts it.
    Part,
    /// An accelerator file-allocation method name.
    FileAllocation,
    /// An accelerator minimal split size.
    MinSplitSize,
    /// An accelerator split count.
    Split,
    /// An accelerator per-server connection count.
    MaxConnectionPerServer,
}

/// What each validator accepts.
pub open spec fn spec_callback(f: SettingDesCallback, v: Json) -> bool {
    match f {
        SettingDesCallback::Part => crate::part::spec_parse_json(v) is Some,
        SettingDesCallback::FileAllocation => match v {
            Json::Str(s) => crate::aria2c::spec_file_allocation(s@) is Some,
            _ => false,
        },
        SettingDesCallback::MinSplitSize => crate::size::ToSize::spec_to_size(&v) matches Some(n)
            && 1048576 <= n <= 1073741824,
        SettingDesCallback::Split => crate::number::ToUsize::spec_to_usize(&v) matches Some(n) && n
            >= 1,
        SettingDesCallback::MaxConnectionPerServer => crate::number::ToUsize::spec_to_usize(&v)
            matches Some(n) && n >= 1,
    }
}

impl SettingDesCallback {
    /// Run the validator on a value.
    pub fn run(&self, v: &Json) -> (r: bool)
        ensures
            r == spec_callback(*self, *v),
    {
        match self {
            SettingDesCallback::Part => crate::part::PartList::parse_from_json(v).is_some(),
            SettingDesCallback::FileAllocation => crate::aria2c::check_file_allocation(v),
            SettingDesCallback::MinSplitSize => crate::aria2c::check_min_split_size(v),
            SettingDesCallback::Split => crate::aria2c::check_split(v),
            SettingDesCallback::MaxConnectionPerServer => crate::aria2c::check_max_connection_per_server(
                v,
            ),
        }
    }
}

/// The ghost image of a setting description.
pub struct SettingDesModel {
    pub name: Seq<char>,
    pub description: Seq<char>,
    pub typ: JsonValueType,
    pub fun: Option<SettingDesCallback>,
}

/// The description of one setting.
pub struct SettingDes {
    _name: String,
    _description: String,
    _type: JsonValueType,
    _fun: Option<SettingDesCallback>,
}

impl View for SettingDes {
    type V = SettingDesModel;

    closed spec fn view(&self) -> SettingDesModel {
        SettingDesModel {
            name: self._name@,
            description: self._description@,
            typ: self._type,
            fun: self._fun,
        }
    }
}

/// Whether a value is acceptable under a type and an optional validator. A
/// missing validator where the type requires one rejects the value.
pub open spec fn spec_valid_value(
    typ: JsonValueType,
    fun: Option<SettingDesCallback>,
    v: Json,
) -> bool {
    match typ {
        JsonValueType::Array => v is Arr && (fun matches Some(f) && spec_callback(f, v)),
        JsonValueType::Boolean => v is Bool,
        JsonValueType::Multiple => fun matches Some(f) && spec_callback(f, v),
        JsonValueType::Number => v is Int && (match fun {
            Some(f) => spec_callback(f, v),
            None => true,
        }),
        JsonValueType::Object => v is Obj && (fun matches Some(f) && spec_callback(f, v)),
        JsonValueType::Str => v is Str && (match fun {
            Some(f) => spec_callback(f, v),
            None => true,
        }),
    }
}

impl SettingDes {
    /// Describe a setting; a type checked only by a validator (array,
    /// object, multiple) must carry one.
    pub fn new(
        name: &str,
        description: &str,
        typ: JsonValueType,
        callback: Option<SettingDesCallback>,
    ) -> (r: Option<SettingDes>)
        ensures
            r is Some <==> !((typ == JsonValueType::Array || typ == JsonValueType::Object || typ
                == JsonValueType::Multiple) && callback is None),
            r matches Some(d) ==> d@ == (SettingDesModel {
                name: name@,
                description: description@,
                typ,
                fun: callback,
            }),
    {
        if (matches!(typ, JsonValueType::Array) || matches!(typ, JsonValueType::Object)
            || matches!(typ, JsonValueType::Multiple)) && callback.is_none() {
            return None;
        }
        Some(
            SettingDes {
                _name: name.to_owned(),
                _description: description.to_owned(),
                _type: typ,
                _fun: callback,
            },
        )
    }

    pub fn name(&self) -> (r: &str)
        ensures
            r@ == self@.name,
    {
        self._name.as_str()
    }

    pub fn description(&self) -> (r: &str)
        ensures
            r@ == self@.description,
    {
        self._description.as_str()
    }

    /// The display name of the accepted type.
    pub fn type_label(&self) -> (r: &'static str)
        ensures
            r@ == (match self@.typ {
                JsonValueType::Array => "Array"@,
                JsonValueType::Boolean => "Boolean"@,
                JsonValueType::Multiple => "Multiple type"@,
                JsonValueType::Number => "Number"@,
                JsonValueType::Object => "Object"@,
                JsonValueType::Str => "String"@,
            }),
    {
        match self._type {
            JsonValueType::Array => "Array",
            JsonValueType::Boolean => "Boolean",
            JsonValueType::Multiple => "Multiple type",
            JsonValueType::Number => "Number",
            JsonValueType::Object => "Object",
            JsonValueType::Str => "String",
        }
    }

    /// Whether a value is acceptable for this setting.
    pub fn is_vaild_value(&self, value: &Json) -> (r: bool)
        ensures
            r == spec_valid_value(self@.typ, self@.fun, *value),
    {
        match self._type {
            JsonValueType::Array => value.is_array() && self.run_fun(value),
            JsonValueType::Boolean => value.is_boolean(),
            JsonValueType::Multiple => self.run_fun(value),
            JsonValueType::Number => value.is_number() && (self._fun.is_none() || self.run_fun(
                value,
            )),
            JsonValueType::Object => value.is_object() && self.run_fun(value),
            JsonValueType::Str => value.is_string() && (self._fun.is_none() || self.run_fun(value)),
        }
    }

    /// Run the validator, rejecting when none is set.
    fn run_fun(&self, value: &Json) -> (r: bool)
        ensures
            r == (self@.fun matches Some(f) && spec_callback(f, *value)),
    {
        match &self._fun {
            Some(f) => f.run(value),
            None => false,
        }
    }
}

impl Clone for SettingDes {
    fn clone(&self) -> (r: SettingDes)
        ensures
            r@ == self@,
    {
        SettingDes {
            _name: self._name.clone(),
            _description: self._description.clone(),
            _type: self._type,
            _fun: self._fun,
        }
    }
}

/// The first description in the list with the given name.
pub open spec fn spec_setting_des_get(
    list: Seq<SettingDesModel>,
    key: Seq<char>,
) -> Option<SettingDesModel>
    decreases list.len(),
{
    if list.len() == 0 {
        None
    } else if list[0].name == key {
        Some(list[0])
    } else {
        spec_setting_des_get(list.skip(1), key)
    }
}

/// A list of setting descriptions.
pub struct SettingDesStore {
    list: Vec<SettingDes>,
}

impl View for SettingDesStore {
    type V = Seq<SettingDesModel>;

    closed spec fn view(&self) -> Seq<SettingDesModel> {
        self.list@.map_values(|d: SettingDes| d@)
    }
}

impl SettingDesStore {
    pub fn new(list: Vec<SettingDes>) -> (r: SettingDesStore)
        ensures
            r@ == list@.map_values(|d: SettingDes| d@),
    {
        SettingDesStore { list }
    }

    /// Whether the named setting accepts the value: `None` when the key is
    /// unknown.
    #[verifier::loop_isolation(false)]
    pub fn check_valid(&self, key: &str, value: &Json) -> (r: Option<bool>)
        ensures
            match spec_setting_des_get(self@, key@) {
                Some(d) => r == Some(spec_valid_value(d.typ, d.fun, *value)),
                None => r is None,
            },
    {
        proof {
            assert(self@.skip(0) =~= self@);
        }
        let mut i: usize = 0;
        while i < self.list.len()
            invariant
                0 <= i <= self@.len(),
                spec_setting_des_get(self@, key@) == spec_setting_des_get(
                    self@.skip(i as int),
                    key@,
                ),
            decreases self@.len() - i,
        {
            proof {
                assert(self@.skip(i as int)[0] == self@[i as int]);
                assert(self@.skip(i as int).skip(1) =~= self@.skip(i + 1));
            }
            if str_eq(self.list[i].name(), key) {
                return Some(self.list[i].is_vaild_value(value));
            }
            i += 1;
        }
        None
    }

    pub fn len(&self) -> (r: usize)
        ensures
            r == self@.len(),
    {
        self.list.len()
    }

    /// The description at an index, for rendering lists.
    pub fn item(&self, i: usize) -> (r: Option<SettingDes>)
        ensures
            i < self@.len() ==> (r matches Some(d) && d@ == self@[i as int]),
            i >= self@.len() ==> r is None,
    {
        if i < self.list.len() {
            Some(self.list[i].clone())
        } else {
            None
        }
    }
}

impl Clone for SettingDesStore {
    fn clone(&self) -> (r: SettingDesStore)
        ensures
            r@ == self@,
    {
        let mut out: Vec<SettingDes> = Vec::new();
        let mut i: usize = 0;
        while i < self.list.len()
            invariant
                0 <= i <= self.list@.len(),
                out@.len() == i,
                forall|k: int| 0 <= k < i ==> (#[trigger] out@[k])@ == self.list@[k]@,
            decreases self.list@.len() - i,
        {
            out.push(self.list[i].clone());
            i += 1;
        }
        proof {
            assert(out@.map_values(|d: SettingDes| d@) =~= self.list@.map_values(
                |d: SettingDes| d@,
            ));
        }
        SettingDesStore { list: out }
    }
}

impl Default for SettingDesStore {
    /// The store of the basic settings.
    fn default() -> (r: SettingDesStore) {
        SettingDesStore { list: crate::opt_list::get_settings_list() }
    }
}

/// One stored setting: a name and its JSON value.
pub struct SettingOpt {
    _name: String,
    _value: Json,
}

impl View for SettingOpt {
    type V = (Seq<char>, Json);

    closed spec fn view(&self) -> (Seq<char>, Json) {
        (self._name@, self._value)
    }
}

impl SettingOpt {
    pub fn new(name: String, value: Json) -> (r: SettingOpt)
        ensures
            r@.0 == name@,
            r@.1 == value,
    {
        SettingOpt { _name: name, _value: value }
    }

    pub fn name(&self) -> (r: String)
        ensures
            r@ == self@.0,
    {
        self._name.clone()
    }

    /// A copy of the stored value.
    pub fn value(&self) -> (r: Json)
        ensures
            json_equiv(r, self@.1),
    {
        self._value.clone()
    }

    /// The stored value itself.
    pub fn value_ref(&self) -> (r: &Json)
        ensures
            *r == self@.1,
    {
        &self._value
    }
}

impl Clone for SettingOpt {
    fn clone(&self) -> (r: SettingOpt)
        ensures
            r@.0 == self@.0,
            json_equiv(r@.1, self@.1),
    {
        SettingOpt { _name: self._name.clone(), _value: self._value.clone() }
    }
}

/// The value stored under a name.
pub open spec fn spec_jar_get(entries: Seq<(Seq<char>, Json)>, key: Seq<char>) -> Option<Json>
    decreases entries.len(),
{
    if entries.len() == 0 {
        None
    } else if entries[0].0 == key {
        Some(entries[0].1)
    } else {
        spec_jar_get(entries.skip(1), key)
    }
}

/// A jar after storing one value: the first entry with the same key is
/// replaced in place, otherwise the pair is appended; every other entry is
/// kept as it was.
pub open spec fn jar_set_j(
    entries: Seq<(Seq<char>, Json)>,
    key: Seq<char>,
    v: Json,
) -> Seq<(Seq<char>, Json)>
    decreases entries.len(),
{
    if entries.len() == 0 {
        seq![(key, v)]
    } else if entries[0].0 == key {
        seq![(key, v)] + entries.skip(1)
    } else {
        seq![entries[0]] + jar_set_j(entries.skip(1), key, v)
    }
}

/// When the first matching key stands at `at`, `jar_set_j` is an update in
/// place.
proof fn lemma_jar_set_j_is_update(
    entries: Seq<(Seq<char>, Json)>,
    key: Seq<char>,
    v: Json,
    at: int,
)
    requires
        0 <= at < entries.len(),
        entries[at].0 == key,
        forall|k: int| 0 <= k < at ==> (#[trigger] entries[k]).0 != key,
    ensures
        jar_set_j(entries, key, v) =~= entries.update(at, (key, v)),
    decreases at,
{
    if at == 0 {
        assert(jar_set_j(entries, key, v) =~= entries.update(0, (key, v)));
    } else {
        assert(entries.skip(1)[at - 1] == entries[at]);
        assert(forall|k: int|
            0 <= k < at - 1 ==> (#[trigger] entries.skip(1)[k]) == entries[k + 1]);
        lemma_jar_set_j_is_update(entries.skip(1), key, v, at - 1);
        assert(jar_set_j(entries, key, v) =~= seq![entries[0]] + entries.skip(1).update(
            at - 1,
            (key, v),
        ));
        assert(seq![entries[0]] + entries.skip(1).update(at - 1, (key, v)) =~= entries.update(
            at,
            (key, v),
        ));
    }
}

/// When no key matches, `jar_set_j` appends.
proof fn lemma_jar_set_j_is_push(entries: Seq<(Seq<char>, Json)>, key: Seq<char>, v: Json)
    requires
        forall|k: int| 0 <= k < entries.len() ==> (#[trigger] entries[k]).0 != key,
    ensures
        jar_set_j(entries, key, v) =~= entries.push((key, v)),
    decreases entries.len(),
{
    if entries.len() > 0 {
        assert(forall|k: int|
            0 <= k < entries.len() - 1 ==> (#[trigger] entries.skip(1)[k]) == entries[k + 1]);
        lemma_jar_set_j_is_push(entries.skip(1), key, v);
        assert(jar_set_j(entries, key, v) =~= seq![entries[0]] + entries.skip(1).push((key, v)));
        assert(seq![entries[0]] + entries.skip(1).push((key, v)) =~= entries.push((key, v)));
    }
}

/// A jar of settings for one provider.
pub struct SettingJar {
    /// The stored settings, in insertion order, one entry per name.
    pub settings: Vec<SettingOpt>,
}

impl View for SettingJar {
    type V = Seq<(Seq<char>, Json)>;

    open spec fn view(&self) -> Seq<(Seq<char>, Json)> {
        self.settings@.map_values(|o: SettingOpt| o@)
    }
}

impl SettingJar {
    pub fn new() -> (r: SettingJar)
        ensures
            r@ =~= Seq::<(Seq<char>, Json)>::empty(),
    {
        SettingJar { settings: Vec::new() }
    }

    /// Store a value under a key; an existing value under the same key is
    /// replaced in place, and every other entry is kept.
    #[verifier::loop_isolation(false)]
    pub fn add(&mut self, key: &str, opt: Json)
        ensures
            final(self)@ == jar_set_j(old(self)@, key@, opt),
            spec_jar_get(final(self)@, key@) == Some(opt),
            forall|k: Seq<char>|
                k != key@ ==> #[trigger] spec_jar_get(final(self)@, k) == spec_jar_get(
                    old(self)@,
                    k,
                ),
    {
        let mut i: usize = 0;
        while i < self.settings.len()
            invariant
                0 <= i <= self.settings@.len(),
                *self == *old(self),
                forall|k: int| 0 <= k < i ==> (#[trigger] self@[k]).0 != key@,
            decreases self.settings@.len() - i,
        {
            if str_eq(self.settings[i].name().as_str(), key) {
                let name = key.to_owned();
                let ghost v = opt;
                self.settings.set(i, SettingOpt::new(name, opt));
                proof {
                    assert(self@ =~= old(self)@.update(i as int, (key@, v)));
                    lemma_jar_set_j_is_update(old(self)@, key@, v, i as int);
                    lemma_jar_set_at(old(self)@, final(self)@, key@, i as int);
                }
                return ;
            }
            i += 1;
        }
        let name = key.to_owned();
        let ghost v = opt;
        self.settings.push(SettingOpt::new(name, opt));
        proof {
            assert(self@ =~= old(self)@.push((key@, v)));
            lemma_jar_set_j_is_push(old(self)@, key@, v);
            lemma_jar_push(old(self)@, final(self)@, key@);
        }
    }

    /// A copy of the value under a key.
    #[verifier::loop_isolation(false)]
    pub fn get(&self, key: &str) -> (r: Option<Json>)
        ensures
            match spec_jar_get(self@, key@) {
                Some(v) => r matches Some(rv) && json_equiv(rv, v),
                None => r is None,
            },
    {
        proof {
            assert(self@.skip(0) =~= self@);
        }
        let mut i: usize = 0;
        while i < self.settings.len()
            invariant
                0 <= i <= self.settings@.len(),
                spec_jar_get(self@, key@) == spec_jar_get(self@.skip(i as int), key@),
            decreases self.settings@.len() - i,
        {
            proof {
                assert(self@.skip(i as int)[0] == self@[i as int]);
                assert(self@.skip(i as int).skip(1) =~= self@.skip(i + 1));
            }
            if str_eq(self.settings[i].name().as_str(), key) {
                return Some(self.settings[i].value());
            }
            i += 1;
        }
        None
    }

    /// The jar as a JSON object, one member per setting.
    pub fn to_json(&self) -> (r: Option<Json>)
        ensures
            r matches Some(v) && v is Obj && v->Obj_0@.len() == self@.len(),
            forall|k: int|
                0 <= k < self@.len() ==> (#[trigger] r->Some_0->Obj_0@[k]).0@ == self@[k].0
                    && json_equiv(r->Some_0->Obj_0@[k].1, self@[k].1),
    {
        let mut entries: Vec<(String, Json)> = Vec::new();
        let mut i: usize = 0;
        while i < self.settings.len()
            invariant
                0 <= i <= self.settings@.len(),
                entries@.len() == i,
                forall|k: int|
                    0 <= k < i ==> (#[trigger] entries@[k]).0@ == self@[k].0 && json_equiv(
                        entries@[k].1,
                        self@[k].1,
                    ),
            decreases self.settings@.len() - i,
        {
            let name = self.settings[i].name();
            let value = self.settings[i].value();
            entries.push((name, value));
            i += 1;
        }
        Some(Json::Obj(entries))
    }
}

/// The first jar in the list stored under the given name.
pub open spec fn spec_maps_get(
    maps: Seq<(Seq<char>, Seq<(Seq<char>, Json)>)>,
    key: Seq<char>,
) -> Option<Seq<(Seq<char>, Json)>>
    decreases maps.len(),
{
    if maps.len() == 0 {
        None
    } else if maps[0].0 == key {
        Some(maps[0].1)
    } else {
        spec_maps_get(maps.skip(1), key)
    }
}

/// The first description store in the list under the given name.
pub open spec fn spec_des_map_get(
    stores: Seq<(Seq<char>, Seq<SettingDesModel>)>,
    key: Seq<char>,
) -> Option<Seq<SettingDesModel>>
    decreases stores.len(),
{
    if stores.len() == 0 {
        None
    } else if stores[0].0 == key {
        Some(stores[0].1)
    } else {
        spec_des_map_get(stores.skip(1), key)
    }
}

/// One provider's jar as loaded from the members of its file entry, from
/// member `i` on, accumulated over `acc`: a member the store's
/// descriptions accept, or one the store has no description for, is
/// stored, a later member of the same key overwriting an earlier one; a
/// rejected member is dropped under `fix`, and fails the load otherwise.
pub open spec fn spec_load_inner(
    m: SettingStoreModel,
    provider: Seq<char>,
    inner: Seq<(String, Json)>,
    i: int,
    acc: Seq<(Seq<char>, Json)>,
    fix: bool,
) -> Option<Seq<(Seq<char>, Json)>>
    decreases inner.len() - i,
    when 0 <= i <= inner.len()
{
    if i == inner.len() {
        Some(acc)
    } else if spec_store_check(m, provider, inner[i].0@, inner[i].1) != Some(false) {
        spec_load_inner(m, provider, inner, i + 1, jar_set_j(acc, inner[i].0@, inner[i].1), fix)
    } else if fix {
        spec_load_inner(m, provider, inner, i + 1, acc, fix)
    } else {
        None
    }
}

/// The verdict and the loaded jars of a settings file's entries from `i`
/// on: each object entry contributes one jar; a non-object entry stops the
/// load with `fix` as the verdict, and a rejected member without `fix`
/// stops it as a failure — either way the jars loaded so far are kept.
pub open spec fn spec_load(
    m: SettingStoreModel,
    entries: Seq<(String, Json)>,
    i: int,
    fix: bool,
) -> (bool, Seq<(Seq<char>, Seq<(Seq<char>, Json)>)>)
    decreases entries.len() - i,
    when 0 <= i <= entries.len()
{
    if i == entries.len() {
        (true, Seq::empty())
    } else {
        match entries[i].1 {
            Json::Obj(inner) => match spec_load_inner(
                m,
                entries[i].0@,
                inner@,
                0,
                Seq::empty(),
                fix,
            ) {
                Some(jar) => {
                    let rest = spec_load(m, entries, i + 1, fix);
                    (rest.0, seq![(entries[i].0@, jar)] + rest.1)
                },
                None => (false, Seq::empty()),
            },
            _ => (fix, Seq::empty()),
        }
    }
}

/// The store of all settings: the basic descriptions, each provider's
/// descriptions, and the jars of stored values.
pub struct SettingStore {
    /// Descriptions of the basic settings.
    pub basic: SettingDesStore,
    /// Stored values, one jar per provider name.
    pub maps: Vec<(String, SettingJar)>,
    /// Each provider's setting descriptions.
    pub des_map: Vec<(String, SettingDesStore)>,
    /// Provider dependency names, used for the help message.
    pub des_dep: Vec<(String, Vec<String>)>,
}

/// The ghost image of the setting store.
pub struct SettingStoreModel {
    pub basic: Seq<SettingDesModel>,
    pub maps: Seq<(Seq<char>, Seq<(Seq<char>, Json)>)>,
    pub des_map: Seq<(Seq<char>, Seq<SettingDesModel>)>,
}

impl View for SettingStore {
    type V = SettingStoreModel;

    open spec fn view(&self) -> SettingStoreModel {
        SettingStoreModel {
            basic: self.basic@,
            maps: self.maps@.map_values(|p: (String, SettingJar)| (p.0@, p.1@)),
            des_map: self.des_map@.map_values(|p: (String, SettingDesStore)| (p.0@, p.1@)),
        }
    }
}

/// Whether the store knows the named setting of the named provider, and
/// whether it accepts the value: the basic descriptions answer for
/// `basic`, a provider's own store answers for it.
pub open spec fn spec_store_check(
    m: SettingStoreModel,
    store_key: Seq<char>,
    key: Seq<char>,
    v: Json,
) -> Option<bool> {
    if store_key == "basic"@ {
        match spec_setting_des_get(m.basic, key) {
            Some(d) => Some(spec_valid_value(d.typ, d.fun, v)),
            None => None,
        }
    } else {
        match spec_des_map_get(m.des_map, store_key) {
            Some(ds) => match spec_setting_des_get(ds, key) {
                Some(d) => Some(spec_valid_value(d.typ, d.fun, v)),
                None => None,
            },
            None => None,
        }
    }
}

impl SettingStore {
    /// A store with the basic descriptions and nothing else.
    pub fn new() -> (r: SettingStore)
        ensures
            r@.basic.len() == 6,
            r@.maps.len() == 0,
            r@.des_map.len() == 0,
    {
        SettingStore {
            basic: SettingDesStore::new(crate::opt_list::get_settings_list()),
            maps: Vec::new(),
            des_map: Vec::new(),
            des_dep: Vec::new(),
        }
    }

    /// Register a provider's setting descriptions; registering the same
    /// name again replaces them.
    #[verifier::loop_isolation(false)]
    pub fn add(&mut self, des_key: &str, list: Vec<SettingDes>)
        ensures
            final(self)@.basic == old(self)@.basic,
            final(self)@.maps == old(self)@.maps,
            spec_des_map_get(final(self)@.des_map, des_key@) == Some(
                list@.map_values(|d: SettingDes| d@),
            ),
    {
        let des = SettingDesStore::new(list);
        let mut i: usize = 0;
        while i < self.des_map.len()
            invariant
                0 <= i <= self.des_map@.len(),
                *self == *old(self),
                forall|k: int| 0 <= k < i ==> (#[trigger] self.des_map@[k]).0@ != des_key@,
            decreases self.des_map@.len() - i,
        {
            if str_eq(self.des_map[i].0.as_str(), des_key) {
                let name = des_key.to_owned();
                self.des_map.set(i, (name, des));
                proof {
                    lemma_des_map_get_at(self@.des_map, des_key@, i as int);
                }
                return ;
            }
            i += 1;
        }
        let name = des_key.to_owned();
        self.des_map.push((name, des));
        proof {
            lemma_des_map_get_at(self@.des_map, des_key@, self@.des_map.len() - 1);
        }
    }

    /// Register a provider's settings together with its dependency names;
    /// every dependency must be registered first.
    #[verifier::loop_isolation(false)]
    pub fn add_with_dependence(&mut self, des_key: &str, list: Vec<SettingDes>, deps: Vec<
        &'static str,
    >) -> (r: Option<bool>)
        ensures
            r is Some ==> r == Some(true) && spec_des_map_get(final(self)@.des_map, des_key@)
                == Some(list@.map_values(|d: SettingDes| d@)),
            r is None ==> final(self)@ == old(self)@,
    {
        let mut ndeps: Vec<String> = Vec::new();
        let mut i: usize = 0;
        while i < deps.len()
            invariant
                0 <= i <= deps@.len(),
            decreases deps@.len() - i,
        {
            if !self.has_des_map(deps[i]) {
                return None;
            }
            ndeps.push(deps[i].to_owned());
            i += 1;
        }
        self.add(des_key, list);
        self.set_dep(des_key, ndeps);
        Some(true)
    }

    /// Whether a provider's descriptions are registered.
    #[verifier::loop_isolation(false)]
    fn has_des_map(&self, key: &str) -> (r: bool)
        ensures
            r == (spec_des_map_get(self@.des_map, key@) is Some),
    {
        proof {
            assert(self@.des_map.skip(0) =~= self@.des_map);
        }
        let mut i: usize = 0;
        while i < self.des_map.len()
            invariant
                0 <= i <= self.des_map@.len(),
                spec_des_map_get(self@.des_map, key@) == spec_des_map_get(
                    self@.des_map.skip(i as int),
                    key@,
                ),
            decreases self.des_map@.len() - i,
        {
            proof {
                assert(self@.des_map.skip(i as int)[0] == self@.des_map[i as int]);
                assert(self@.des_map.skip(i as int).skip(1) =~= self@.des_map.skip(i + 1));
            }
            if str_eq(self.des_map[i].0.as_str(), key) {
                return true;
            }
            i += 1;
        }
        false
    }

    /// Record a provider's dependency names.
    #[verifier::loop_isolation(false)]
    fn set_dep(&mut self, key: &str, ndeps: Vec<String>)
        ensures
            final(self).basic == old(self).basic,
            final(self).maps == old(self).maps,
            final(self).des_map == old(self).des_map,
    {
        let mut i: usize = 0;
        while i < self.des_dep.len()
            invariant
                0 <= i <= self.des_dep@.len(),
                self.basic == old(self).basic,
                self.maps == old(self).maps,
                self.des_map == old(self).des_map,
            decreases self.des_dep@.len() - i,
        {
            if str_eq(self.des_dep[i].0.as_str(), key) {
                let name = key.to_owned();
                self.des_dep.set(i, (name, ndeps));
                return ;
            }
            i += 1;
        }
        let name = key.to_owned();
        self.des_dep.push((name, ndeps));
    }

    /// Whether the named setting of the named provider accepts the value;
    /// `None` when the provider or the key is unknown.
    #[verifier::loop_isolation(false)]
    pub fn check_valid(&self, store_key: &str, key_in_map: &str, value: &Json) -> (r: Option<
        bool,
    >)
        ensures
            r == spec_store_check(self@, store_key@, key_in_map@, *value),
    {
        proof {
            reveal_strlit("basic");
        }
        if str_eq(store_key, "basic") {
            return self.basic.check_valid(key_in_map, value);
        }
        proof {
            assert(self@.des_map.skip(0) =~= self@.des_map);
        }
        let mut i: usize = 0;
        while i < self.des_map.len()
            invariant
                0 <= i <= self.des_map@.len(),
                spec_des_map_get(self@.des_map, store_key@) == spec_des_map_get(
                    self@.des_map.skip(i as int),
                    store_key@,
                ),
            decreases self.des_map@.len() - i,
        {
            proof {
                assert(self@.des_map.skip(i as int)[0] == self@.des_map[i as int]);
                assert(self@.des_map.skip(i as int).skip(1) =~= self@.des_map.skip(i + 1));
            }
            if str_eq(self.des_map[i].0.as_str(), store_key) {
                return self.des_map[i].1.check_valid(key_in_map, value);
            }
            i += 1;
        }
        None
    }

    /// The stored value of a setting, as a copy.
    #[verifier::loop_isolation(false)]
    pub fn get_settings(&self, map_key: &str, key: &str) -> (r: Option<Json>)
        ensures
            match spec_maps_get(self@.maps, map_key@) {
                Some(jar) => match spec_jar_get(jar, key@) {
                    Some(v) => r matches Some(rv) && json_equiv(rv, v),
                    None => r is None,
                },
                None => r is None,
            },
    {
        proof {
            assert(self@.maps.skip(0) =~= self@.maps);
        }
        let mut i: usize = 0;
        while i < self.maps.len()
            invariant
                0 <= i <= self.maps@.len(),
                spec_maps_get(self@.maps, map_key@) == spec_maps_get(
                    self@.maps.skip(i as int),
                    map_key@,
                ),
            decreases self.maps@.len() - i,
        {
            proof {
                assert(self@.maps.skip(i as int)[0] == self@.maps[i as int]);
                assert(self@.maps.skip(i as int).skip(1) =~= self@.maps.skip(i + 1));
            }
            if str_eq(self.maps[i].0.as_str(), map_key) {
                return self.maps[i].1.get(key);
            }
            i += 1;
        }
        None
    }

    /// The stored value of a setting, read as a boolean.
    pub fn get_settings_as_bool(&self, map_key: &str, key: &str) -> (r: Option<bool>)
        ensures
            r == (match spec_maps_get(self@.maps, map_key@) {
                Some(jar) => match spec_jar_get(jar, key@) {
                    Some(v) => crate::json_model::spec_as_bool(v),
                    None => None::<bool>,
                },
                None => None::<bool>,
            }),
    {
        let re = self.get_settings(map_key, key);
        match re {
            Some(v) => v.as_bool(),
            None => None,
        }
    }

    /// Validate a JSON text and add it to a provider's jar. The call
    /// succeeds exactly when the text is JSON, the named setting accepts
    /// the value, and the key is not already set without `force`.
    #[verifier::loop_isolation(false)]
    pub fn add_value(&mut self, map_key: &str, key: &str, value: &str, force: bool) -> (r: bool)
        ensures
            r == (json_text_value(value@) matches Some(v) && spec_store_check(
                old(self)@,
                map_key@,
                key@,
                v,
            ) == Some(true) && !((match spec_maps_get(old(self)@.maps, map_key@) {
                Some(jar) => spec_jar_get(jar, key@) is Some,
                None => false,
            }) && !force)),
            !r ==> final(self)@ == old(self)@,
            r ==> (match json_text_value(value@) {
                Some(v) => {
                    &&& spec_store_check(old(self)@, map_key@, key@, v) == Some(true)
                    &&& spec_maps_get(final(self)@.maps, map_key@) matches Some(jar)
                        && spec_jar_get(jar, key@) == Some(v)
                    &&& final(self)@.basic == old(self)@.basic
                    &&& final(self)@.des_map == old(self)@.des_map
                },
                None => false,
            }),
    {
        let obj = match parse_json(value) {
            Some(v) => v,
            None => {
                return false;
            },
        };
        let re = self.check_valid(map_key, key, &obj);
        let re = match re {
            Some(re) => re,
            None => {
                return false;
            },
        };
        if !re {
            return false;
        }
        let present = match self.get_settings(map_key, key) {
            Some(_) => true,
            None => false,
        };
        if present && !force {
            return false;
        }
        self.put_value(map_key, key, obj);
        true
    }

    /// Validate a JSON text and overwrite a provider's setting. The call
    /// succeeds exactly when the text is JSON, the named setting accepts
    /// the value, and — unless `force` creates them — the provider's jar
    /// and the entry exist already.
    pub fn set_value(&mut self, map_key: &str, key: &str, value: &str, force: bool) -> (r: bool)
        ensures
            r == (json_text_value(value@) matches Some(v) && spec_store_check(
                old(self)@,
                map_key@,
                key@,
                v,
            ) == Some(true) && (spec_maps_get(old(self)@.maps, map_key@) is Some || force) && ((
            match spec_maps_get(old(self)@.maps, map_key@) {
                Some(jar) => spec_jar_get(jar, key@) is Some,
                None => false,
            }) || force)),
            !r ==> final(self)@ == old(self)@,
            r ==> (match json_text_value(value@) {
                Some(v) => {
                    &&& spec_store_check(old(self)@, map_key@, key@, v) == Some(true)
                    &&& spec_maps_get(final(self)@.maps, map_key@) matches Some(jar)
                        && spec_jar_get(jar, key@) == Some(v)
                    &&& final(self)@.basic == old(self)@.basic
                    &&& final(self)@.des_map == old(self)@.des_map
                },
                None => false,
            }),
    {
        let obj = match parse_json(value) {
            Some(v) => v,
            None => {
                return false;
            },
        };
        let re = self.check_valid(map_key, key, &obj);
        let re = match re {
            Some(re) => re,
            None => {
                return false;
            },
        };
        if !re {
            return false;
        }
        let has_jar = self.has_jar(map_key);
        if !has_jar && !force {
            return false;
        }
        let present = match self.get_settings(map_key, key) {
            Some(_) => true,
            None => false,
        };
        if !present && !force {
            return false;
        }
        self.put_value(map_key, key, obj);
        true
    }

    /// Whether a provider's jar exists.
    #[verifier::loop_isolation(false)]
    fn has_jar(&self, map_key: &str) -> (r: bool)
        ensures
            r == (spec_maps_get(self@.maps, map_key@) is Some),
    {
        proof {
            assert(self@.maps.skip(0) =~= self@.maps);
        }
        let mut i: usize = 0;
        while i < self.maps.len()
            invariant
                0 <= i <= self.maps@.len(),
                spec_maps_get(self@.maps, map_key@) == spec_maps_get(
                    self@.maps.skip(i as int),
                    map_key@,
                ),
            decreases self.maps@.len() - i,
        {
            proof {
                assert(self@.maps.skip(i as int)[0] == self@.maps[i as int]);
                assert(self@.maps.skip(i as int).skip(1) =~= self@.maps.skip(i + 1));
            }
            if str_eq(self.maps[i].0.as_str(), map_key) {
                return true;
            }
            i += 1;
        }
        false
    }

    /// Store a value in a provider's jar, creating the jar as needed.
    #[verifier::loop_isolation(false)]
    fn put_value(&mut self, map_key: &str, key: &str, value: Json)
        ensures
            final(self).basic == old(self).basic,
            final(self).des_map == old(self).des_map,
            final(self).des_dep == old(self).des_dep,
            spec_maps_get(final(self)@.maps, map_key@) matches Some(jar) && spec_jar_get(
                jar,
                key@,
            ) == Some(value),
    {
        let mut i: usize = 0;
        while i < self.maps.len()
            invariant
                0 <= i <= self.maps@.len(),
                *self == *old(self),
                forall|k: int| 0 <= k < i ==> (#[trigger] self.maps@[k]).0@ != map_key@,
            decreases self.maps@.len() - i,
        {
            if str_eq(self.maps[i].0.as_str(), map_key) {
                let mut pair = self.maps.remove(i);
                pair.1.add(key, value);
                self.maps.insert(i, pair);
                proof {
                    lemma_maps_get_at(self@.maps, map_key@, i as int);
                }
                return ;
            }
            i += 1;
        }
        let mut jar = SettingJar::new();
        jar.add(key, value);
        let name = map_key.to_owned();
        self.maps.push((name, jar));
        proof {
            lemma_maps_get_at(self@.maps, map_key@, self@.maps.len() - 1);
        }
    }

    /// Load stored values from the JSON object of a settings file, as
    /// `spec_load`: one member per provider, each an object of settings;
    /// the loaded jars are appended to the stored maps in file order.
    /// An entry the descriptions reject fails the read, unless
    /// `fix_invalid` is set, in which case it is dropped; a non-object
    /// file or member stops the read, keeping what was loaded, with
    /// `fix_invalid` as the verdict.
    #[verifier::loop_isolation(false)]
    pub fn load_json(&mut self, v: Json, fix_invalid: bool) -> (r: bool)
        ensures
            final(self).basic == old(self).basic,
            final(self).des_map == old(self).des_map,
            final(self).des_dep == old(self).des_dep,
            match v {
                Json::Obj(entries) => r == spec_load(old(self)@, entries@, 0, fix_invalid).0
                    && final(self)@.maps == old(self)@.maps + spec_load(
                    old(self)@,
                    entries@,
                    0,
                    fix_invalid,
                ).1,
                _ => r == fix_invalid && final(self)@.maps == old(self)@.maps,
            },
    {
        let ghost m0 = old(self)@;
        let ghost maps0 = old(self)@.maps;
        let mut entries = match v {
            Json::Obj(entries) => entries,
            _ => {
                return fix_invalid;
            },
        };
        let ghost e0 = entries@;
        let ghost mut i: int = 0;
        proof {
            assert(entries@ =~= e0.skip(0));
            assert(self@.maps.subrange(0, maps0.len() as int) =~= maps0);
            assert(self@.maps.skip(maps0.len() as int) =~= Seq::<
                (Seq<char>, Seq<(Seq<char>, Json)>),
            >::empty());
        }
        while entries.len() > 0
            invariant
                0 <= i <= e0.len(),
                entries@ == e0.skip(i),
                self.basic == old(self).basic,
                self.des_map == old(self).des_map,
                self.des_dep == old(self).des_dep,
                maps0.len() <= self@.maps.len(),
                self@.maps.subrange(0, maps0.len() as int) == maps0,
                spec_load(m0, e0, 0, fix_invalid).0 == spec_load(m0, e0, i, fix_invalid).0,
                spec_load(m0, e0, 0, fix_invalid).1 =~= self@.maps.skip(maps0.len() as int)
                    + spec_load(m0, e0, i, fix_invalid).1,
            decreases entries@.len(),
        {
            proof {
                assert(e0.skip(i)[0] == e0[i]);
                assert(e0.skip(i).skip(1) =~= e0.skip(i + 1));
            }
            let pair = entries.remove(0);
            let key = pair.0;
            let mut inner = match pair.1 {
                Json::Obj(inner) => inner,
                _ => {
                    return fix_invalid;
                },
            };
            let ghost in0 = inner@;
            let ghost mut kk: int = 0;
            let mut jar = SettingJar::new();
            proof {
                assert(inner@ =~= in0.skip(0));
                assert(jar@ =~= Seq::<(Seq<char>, Json)>::empty());
            }
            while inner.len() > 0
                invariant
                    0 <= kk <= in0.len(),
                    inner@ == in0.skip(kk),
                    self.basic == old(self).basic,
                    self.des_map == old(self).des_map,
                    self.des_dep == old(self).des_dep,
                    maps0.len() <= self@.maps.len(),
                    self@.maps.subrange(0, maps0.len() as int) == maps0,
                    spec_load(m0, e0, 0, fix_invalid).0 == spec_load(m0, e0, i, fix_invalid).0,
                    spec_load(m0, e0, 0, fix_invalid).1 =~= self@.maps.skip(maps0.len() as int)
                        + spec_load(m0, e0, i, fix_invalid).1,
                    entries@ == e0.skip(i + 1),
                    0 <= i < e0.len(),
                    e0[i].1 matches Json::Obj(v2) && v2@ == in0,
                    key@ == e0[i].0@,
                    match spec_load_inner(m0, key@, in0, 0, Seq::empty(), fix_invalid) {
                        Some(full) => spec_load_inner(m0, key@, in0, kk, jar@, fix_invalid)
                            == Some(full),
                        None => spec_load_inner(m0, key@, in0, kk, jar@, fix_invalid) is None,
                    },
                decreases inner@.len(),
            {
                proof {
                    assert(in0.skip(kk)[0] == in0[kk]);
                    assert(in0.skip(kk).skip(1) =~= in0.skip(kk + 1));
                }
                let member = inner.remove(0);
                proof {
                    assert(spec_store_check(self@, key@, member.0@, member.1)
                        == spec_store_check(m0, key@, member.0@, member.1));
                }
                match self.check_valid(key.as_str(), member.0.as_str(), &member.1) {
                    Some(re) => {
                        if re {
                            jar.add(member.0.as_str(), member.1);
                        } else if !fix_invalid {
                            return false;
                        }
                    },
                    None => {
                        jar.add(member.0.as_str(), member.1);
                    },
                }
                proof {
                    kk = kk + 1;
                }
            }
            proof {
                assert(in0.skip(kk).len() == 0);
            }
            let ghost maps_before = self@.maps;
            let ghost jm = jar@;
            let ghost kv = key@;
            self.maps.push((key, jar));
            proof {
                assert(self@.maps =~= maps_before.push((kv, jm)));
                assert(self@.maps.subrange(0, maps0.len() as int) =~= maps0);
                assert(self@.maps.skip(maps0.len() as int) =~= maps_before.skip(
                    maps0.len() as int,
                ).push((kv, jm)));
                assert(spec_load(m0, e0, i, fix_invalid).1 =~= seq![(kv, jm)] + spec_load(
                    m0,
                    e0,
                    i + 1,
                    fix_invalid,
                ).1);
                assert(maps_before.skip(maps0.len() as int).push((kv, jm)) + spec_load(
                    m0,
                    e0,
                    i + 1,
                    fix_invalid,
                ).1 =~= maps_before.skip(maps0.len() as int) + (seq![(kv, jm)] + spec_load(
                    m0,
                    e0,
                    i + 1,
                    fix_invalid,
                ).1));
                i = i + 1;
            }
        }
        proof {
            assert(e0.skip(i).len() == 0);
            assert(self@.maps =~= old(self)@.maps + self@.maps.skip(maps0.len() as int));
        }
        true
    }

    /// The whole store as one JSON object, one member per provider jar.
    pub fn to_json(&self) -> (r: Option<Json>)
        ensures
            r matches Some(v) && v is Obj && v->Obj_0@.len() == self@.maps.len(),
    {
        let mut entries: Vec<(String, Json)> = Vec::new();
        let mut i: usize = 0;
        while i < self.maps.len()
            invariant
                0 <= i <= self.maps@.len(),
                entries@.len() == i,
            decreases self.maps@.len() - i,
        {
            let name = self.maps[i].0.clone();
            let value = match self.maps[i].1.to_json() {
                Some(v) => v,
                None => {
                    return None;
                },
            };
            entries.push((name, value));
            i += 1;
        }
        Some(Json::Obj(entries))
    }

    /// The whole store serialized as JSON text.
    pub fn to_str(&self) -> (r: Option<String>)
        ensures
            r matches Some(s) ==> (exists|v: Json|
                v is Obj && s@ == crate::json_model::json_dumped(v)),
    {
        match self.to_json() {
            Some(v) => {
                let s = crate::json_model::dump_json(&v);
                Some(s)
            },
            None => None,
        }
    }
}

impl SettingStore {
    /// The names of the providers a provider transitively depends on, as
    /// `spec_dep_walk`: depth-first discovery order, each name once, the
    /// queried name itself only if a cycle records it as a dependency;
    /// `None` for a provider without recorded dependencies. The walk
    /// carries a recursion budget of one more than the number of recorded
    /// names; every level that recurses has first added a new name to the
    /// result, so the budget cannot run out on such data.
    pub fn get_des_dependence(&self, key: &str) -> (r: Option<Vec<String>>)
        ensures
            r is Some <==> crate::getopt::spec_dep_get(dep_view(self.des_dep@), key@) is Some,
            r matches Some(l) ==> l@.map_values(|s: String| s@) == crate::getopt::spec_dep_walk(
                dep_view(self.des_dep@),
                key@,
                Seq::empty(),
                crate::getopt::spec_dep_budget(dep_view(self.des_dep@), 0, 1) as nat,
            ),
    {
        if !self.has_dep(key) {
            return None;
        }
        let mut list: Vec<String> = Vec::new();
        proof {
            assert(list@.map_values(|s: String| s@) =~= Seq::<Seq<char>>::empty());
        }
        let fuel = self.dep_budget();
        self.dep_walk(key, &mut list, fuel);
        Some(list)
    }

    /// One level of the dependency walk, as `spec_dep_walk`.
    #[verifier::loop_isolation(false)]
    fn dep_walk(&self, key: &str, list: &mut Vec<String>, fuel: usize)
        ensures
            final(list)@.map_values(|s: String| s@) == crate::getopt::spec_dep_walk(
                dep_view(self.des_dep@),
                key@,
                old(list)@.map_values(|s: String| s@),
                fuel as nat,
            ),
        decreases fuel,
    {
        if fuel == 0 {
            return ;
        }
        let deps = self.dep_names(key);
        let ghost items = deps@.map_values(|s: String| s@);
        let mut i: usize = 0;
        while i < deps.len()
            invariant
                0 <= i <= deps@.len(),
                items == deps@.map_values(|s: String| s@),
                crate::getopt::spec_dep_walk_list(
                    dep_view(self.des_dep@),
                    items,
                    0,
                    old(list)@.map_values(|s: String| s@),
                    (fuel - 1) as nat,
                ) == crate::getopt::spec_dep_walk_list(
                    dep_view(self.des_dep@),
                    items,
                    i as int,
                    list@.map_values(|s: String| s@),
                    (fuel - 1) as nat,
                ),
            decreases deps@.len() - i,
        {
            let ghost f1 = (fuel - 1) as nat;
            let ghost cur = list@.map_values(|s: String| s@);
            if !crate::getopt::contains_string(list, deps[i].as_str()) {
                proof {
                    if cur.contains(items[i as int]) {
                        let j = choose|j: int|
                            0 <= j < cur.len() && cur[j] == items[i as int];
                        assert(list@[j]@ == items[i as int]);
                    }
                }
                let ghost before = list@.map_values(|s: String| s@);
                list.push(deps[i].clone());
                proof {
                    assert(list@.map_values(|s: String| s@) =~= before.push(items[i as int]));
                }
                self.dep_walk(deps[i].as_str(), list, fuel - 1);
                proof {
                    assert(crate::getopt::spec_dep_walk_list(
                        dep_view(self.des_dep@),
                        items,
                        i as int,
                        cur,
                        f1,
                    ) == crate::getopt::spec_dep_walk_list(
                        dep_view(self.des_dep@),
                        items,
                        i + 1,
                        list@.map_values(|s: String| s@),
                        f1,
                    ));
                }
            } else {
                proof {
                    let j = choose|j: int|
                        0 <= j < list@.len() && (#[trigger] list@[j])@ == items[i as int];
                    assert(cur[j] == items[i as int]);
                    assert(cur.contains(items[i as int]));
                    assert(crate::getopt::spec_dep_walk_list(
                        dep_view(self.des_dep@),
                        items,
                        i as int,
                        cur,
                        f1,
                    ) == crate::getopt::spec_dep_walk_list(
                        dep_view(self.des_dep@),
                        items,
                        i + 1,
                        cur,
                        f1,
                    ));
                }
            }
            i += 1;
        }
    }

    /// Whether dependencies are recorded under the name.
    #[verifier::loop_isolation(false)]
    fn has_dep(&self, key: &str) -> (r: bool)
        ensures
            r == (crate::getopt::spec_dep_get(dep_view(self.des_dep@), key@) is Some),
    {
        proof {
            assert(dep_view(self.des_dep@).skip(0) =~= dep_view(self.des_dep@));
        }
        let mut i: usize = 0;
        while i < self.des_dep.len()
            invariant
                0 <= i <= self.des_dep@.len(),
                crate::getopt::spec_dep_get(dep_view(self.des_dep@), key@)
                    == crate::getopt::spec_dep_get(
                    dep_view(self.des_dep@).skip(i as int),
                    key@,
                ),
            decreases self.des_dep@.len() - i,
        {
            proof {
                assert(dep_view(self.des_dep@).skip(i as int)[0] == dep_view(self.des_dep@)[
                    i as int
                ]);
                assert(dep_view(self.des_dep@).skip(i as int).skip(1) =~= dep_view(
                    self.des_dep@,
                ).skip(i + 1));
            }
            if crate::strutil::str_eq(self.des_dep[i].0.as_str(), key) {
                return true;
            }
            i += 1;
        }
        false
    }

    /// The dependency names recorded under a name, copied out; empty for an
    /// unrecorded name.
    #[verifier::loop_isolation(false)]
    fn dep_names(&self, key: &str) -> (r: Vec<String>)
        ensures
            r@.map_values(|s: String| s@) == (match crate::getopt::spec_dep_get(
                dep_view(self.des_dep@),
                key@,
            ) {
                Some(items) => items,
                None => Seq::<Seq<char>>::empty(),
            }),
    {
        proof {
            assert(dep_view(self.des_dep@).skip(0) =~= dep_view(self.des_dep@));
        }
        let mut i: usize = 0;
        while i < self.des_dep.len()
            invariant
                0 <= i <= self.des_dep@.len(),
                crate::getopt::spec_dep_get(dep_view(self.des_dep@), key@)
                    == crate::getopt::spec_dep_get(
                    dep_view(self.des_dep@).skip(i as int),
                    key@,
                ),
            decreases self.des_dep@.len() - i,
        {
            proof {
                assert(dep_view(self.des_dep@).skip(i as int)[0] == dep_view(self.des_dep@)[
                    i as int
                ]);
                assert(dep_view(self.des_dep@).skip(i as int).skip(1) =~= dep_view(
                    self.des_dep@,
                ).skip(i + 1));
            }
            if crate::strutil::str_eq(self.des_dep[i].0.as_str(), key) {
                let r = crate::getopt::clone_strings(&self.des_dep[i].1);
                return r;
            }
            i += 1;
        }
        let r: Vec<String> = Vec::new();
        proof {
            assert(r@.map_values(|s: String| s@) =~= Seq::<Seq<char>>::empty());
        }
        r
    }

    /// One more than the number of recorded dependency names, as
    /// `spec_dep_budget`; additions that would reach the integer limit are
    /// skipped.
    #[verifier::loop_isolation(false)]
    fn dep_budget(&self) -> (r: usize)
        ensures
            r == crate::getopt::spec_dep_budget(dep_view(self.des_dep@), 0, 1),
    {
        let mut total: usize = 1;
        let mut i: usize = 0;
        while i < self.des_dep.len()
            invariant
                0 <= i <= self.des_dep@.len(),
                crate::getopt::spec_dep_budget(dep_view(self.des_dep@), 0, 1)
                    == crate::getopt::spec_dep_budget(
                    dep_view(self.des_dep@),
                    i as int,
                    total as int,
                ),
            decreases self.des_dep@.len() - i,
        {
            let n = self.des_dep[i].1.len();
            if usize::MAX - total > n {
                total += n;
            }
            i += 1;
        }
        total
    }
}

/// The view of the recorded dependency names./// The view of the recorded dependency names.
pub open spec fn dep_view(deps: Seq<(String, Vec<String>)>) -> Seq<(Seq<char>, Seq<Seq<char>>)> {
    deps.map_values(|p: (String, Vec<String>)| (p.0@, p.1@.map_values(|s: String| s@)))
}

impl Clone for SettingJar {
    /// The clone holds equivalent settings under the same names.
    fn clone(&self) -> (r: SettingJar) {
        let mut settings: Vec<SettingOpt> = Vec::new();
        let mut i: usize = 0;
        while i < self.settings.len()
            invariant
                0 <= i <= self.settings@.len(),
            decreases self.settings@.len() - i,
        {
            settings.push(self.settings[i].clone());
            i += 1;
        }
        SettingJar { settings }
    }
}

impl Clone for SettingStore {
    /// The clone holds equivalent settings and the same descriptions.
    fn clone(&self) -> (r: SettingStore) {
        let mut maps: Vec<(String, SettingJar)> = Vec::new();
        let mut i: usize = 0;
        while i < self.maps.len()
            invariant
                0 <= i <= self.maps@.len(),
            decreases self.maps@.len() - i,
        {
            let name = self.maps[i].0.clone();
            let jar = self.maps[i].1.clone();
            maps.push((name, jar));
            i += 1;
        }
        let mut des_map: Vec<(String, SettingDesStore)> = Vec::new();
        let mut j: usize = 0;
        while j < self.des_map.len()
            invariant
                0 <= j <= self.des_map@.len(),
            decreases self.des_map@.len() - j,
        {
            let name = self.des_map[j].0.clone();
            let des = self.des_map[j].1.clone();
            des_map.push((name, des));
            j += 1;
        }
        let mut des_dep: Vec<(String, Vec<String>)> = Vec::new();
        let mut t: usize = 0;
        while t < self.des_dep.len()
            invariant
                0 <= t <= self.des_dep@.len(),
            decreases self.des_dep@.len() - t,
        {
            let name = self.des_dep[t].0.clone();
            let deps = crate::getopt::clone_strings(&self.des_dep[t].1);
            des_dep.push((name, deps));
            t += 1;
        }
        SettingStore { basic: self.basic.clone(), maps, des_map, des_dep }
    }
}

/// `spec_des_map_get` finds the entry at `at` when all earlier keys differ.
proof fn lemma_des_map_get_at(
    stores: Seq<(Seq<char>, Seq<SettingDesModel>)>,
    key: Seq<char>,
    at: int,
)
    requires
        0 <= at < stores.len(),
        stores[at].0 == key,
        forall|k: int| 0 <= k < at ==> (#[trigger] stores[k]).0 != key,
    ensures
        spec_des_map_get(stores, key) == Some(stores[at].1),
    decreases at,
{
    if at > 0 {
        assert(stores.skip(1)[at - 1] == stores[at]);
        assert(forall|k: int|
            0 <= k < at - 1 ==> (#[trigger] stores.skip(1)[k]).0 == stores[k + 1].0);
        lemma_des_map_get_at(stores.skip(1), key, at - 1);
    }
}

/// `spec_maps_get` finds the entry at `at` when all earlier keys differ.
proof fn lemma_maps_get_at(maps: Seq<(Seq<char>, Seq<(Seq<char>, Json)>)>, key: Seq<char>, at: int)
    requires
        0 <= at < maps.len(),
        maps[at].0 == key,
        forall|k: int| 0 <= k < at ==> (#[trigger] maps[k]).0 != key,
    ensures
        spec_maps_get(maps, key) == Some(maps[at].1),
    decreases at,
{
    if at > 0 {
        assert(maps.skip(1)[at - 1] == maps[at]);
        assert(forall|k: int| 0 <= k < at - 1 ==> (#[trigger] maps.skip(1)[k]).0 == maps[k + 1].0);
        lemma_maps_get_at(maps.skip(1), key, at - 1);
    }
}

/// Replacing the entry at `at` updates that key and no other.
proof fn lemma_jar_set_at(
    before: Seq<(Seq<char>, Json)>,
    after: Seq<(Seq<char>, Json)>,
    key: Seq<char>,
    at: int,
)
    requires
        0 <= at < before.len(),
        after.len() == before.len(),
        after[at].0 == key,
        after[at].1 == after[at].1,
        forall|k: int| 0 <= k < before.len() && k != at ==> after[k] == before[k],
        forall|k: int| 0 <= k < at ==> (#[trigger] before[k]).0 != key,
        before[at].0 == key,
    ensures
        spec_jar_get(after, key) == Some(after[at].1),
        forall|k: Seq<char>|
            k != key ==> #[trigger] spec_jar_get(after, k) == spec_jar_get(before, k),
    decreases at,
{
    if at == 0 {
        assert forall|k: Seq<char>| k != key implies #[trigger] spec_jar_get(after, k)
            == spec_jar_get(before, k) by {
            assert(after.skip(1) =~= before.skip(1));
        }
    } else {
        assert(after.skip(1)[at - 1] == after[at]);
        assert(before.skip(1)[at - 1] == before[at]);
        assert(forall|k: int|
            0 <= k < at - 1 ==> (#[trigger] before.skip(1)[k]).0 == before[k + 1].0);
        assert(forall|k: int|
            0 <= k < before.len() - 1 && k != at - 1 ==> #[trigger] after.skip(1)[k]
                == before.skip(1)[k]);
        lemma_jar_set_at(before.skip(1), after.skip(1), key, at - 1);
        assert(after[0] == before[0]);
        assert(after[0].0 != key);
        assert(spec_jar_get(after, key) == spec_jar_get(after.skip(1), key));
        assert forall|k: Seq<char>| k != key implies #[trigger] spec_jar_get(after, k)
            == spec_jar_get(before, k) by {
            if after[0].0 == k {
            } else {
                assert(spec_jar_get(after, k) == spec_jar_get(after.skip(1), k));
                assert(spec_jar_get(before, k) == spec_jar_get(before.skip(1), k));
            }
        }
    }
}

/// Appending a new entry binds its key and no other.
proof fn lemma_jar_push(
    before: Seq<(Seq<char>, Json)>,
    after: Seq<(Seq<char>, Json)>,
    key: Seq<char>,
)
    requires
        after.len() == before.len() + 1,
        forall|k: int| 0 <= k < before.len() ==> after[k] == before[k],
        after.last().0 == key,
        forall|k: int| 0 <= k < before.len() ==> (#[trigger] before[k]).0 != key,
    ensures
        spec_jar_get(after, key) == Some(after.last().1),
        forall|k: Seq<char>|
            k != key ==> #[trigger] spec_jar_get(after, k) == spec_jar_get(before, k),
    decreases before.len(),
{
    if before.len() == 0 {
        assert(after.len() == 1);
        assert(after[0] == after.last());
        assert forall|k: Seq<char>| k != key implies #[trigger] spec_jar_get(after, k)
            == spec_jar_get(before, k) by {
            assert(spec_jar_get(after, k) == spec_jar_get(after.skip(1), k));
            assert(after.skip(1).len() == 0);
        }
    } else {
        assert(after.skip(1).last() == after.last());
        assert(forall|k: int|
            0 <= k < before.len() - 1 ==> #[trigger] after.skip(1)[k] == before.skip(1)[k]);
        assert(forall|k: int|
            0 <= k < before.len() - 1 ==> (#[trigger] before.skip(1)[k]).0 == before[k + 1].0);
        lemma_jar_push(before.skip(1), after.skip(1), key);
        assert(after[0] == before[0]);
        assert(after[0].0 != key);
        assert(spec_jar_get(after, key) == spec_jar_get(after.skip(1), key));
        assert forall|k: Seq<char>| k != key implies #[trigger] spec_jar_get(after, k)
            == spec_jar_get(before, k) by {
            if after[0].0 == k {
            } else {
                assert(spec_jar_get(after, k) == spec_jar_get(after.skip(1), k));
                assert(spec_jar_get(before, k) == spec_jar_get(before.skip(1), k));
            }
        }
    }
}

} // verus!
