//! Command-line option descriptions and the store of parsed options.
use crate::strutil::chars_of;
use crate::strutil::spec_atou;
use crate::strutil::str_eq;
use vstd::prelude::*;

verus! {

/// The config subcommand parsed from the command line.
#[derive(Clone, Copy, PartialEq, Eq, Structural)]
pub enum ConfigCommand {
    Add,
    Fix,
    Get,
    SetValue,
}

/// A config subcommand and its arguments.
pub struct ConfigCommandResult {
    /// Subcommand.
    pub typ: ConfigCommand,
    /// Arguments of the subcommand.
    pub list: Vec<String>,
}

impl ConfigCommandResult {
    pub fn new(typ: ConfigCommand, list: Vec<String>) -> (r: ConfigCommandResult)
        ensures
            r.typ == typ,
            r.list == list,
    {
        ConfigCommandResult { typ, list }
    }
}

impl Clone for ConfigCommandResult {
    fn clone(&self) -> (r: ConfigCommandResult)
        ensures
            r.typ == self.typ,
            r.list@.map_values(|s: String| s@) == self.list@.map_values(|s: String| s@),
    {
        ConfigCommandResult { typ: self.typ, list: clone_strings(&self.list) }
    }
}

/// Clone a vector of strings, keeping each string's characters.
pub fn clone_strings(v: &Vec<String>) -> (r: Vec<String>)
    ensures
        r@.map_values(|s: String| s@) == v@.map_values(|s: String| s@),
        r@.len() == v@.len(),
{
    let mut out: Vec<String> = Vec::new();
    let mut i: usize = 0;
    while i < v.len()
        invariant
            0 <= i <= v@.len(),
            out@.len() == i,
            forall|k: int| 0 <= k < i ==> (#[trigger] out@[k])@ == v@[k]@,
        decreases v@.len() - i,
    {
        out.push(v[i].clone());
        i += 1;
    }
    proof {
        assert(out@.map_values(|s: String| s@) =~= v@.map_values(|s: String| s@));
    }
    out
}

/// The ghost image of an option description.
pub struct OptDesModel {
    pub name: Seq<char>,
    pub short_name: Option<Seq<char>>,
    pub description: Seq<char>,
    pub has_value: bool,
    pub need_value: bool,
    pub value_display_name: Option<Seq<char>>,
}

/// The description of one option.
pub struct OptDes {
    _name: String,
    _short_name: Option<String>,
    _description: String,
    _has_value: bool,
    _need_value: bool,
    _value_display_name: Option<String>,
}

pub open spec fn view_opt_string(s: Option<String>) -> Option<Seq<char>> {
    match s {
        Some(s) => Some(s@),
        None => None,
    }
}

impl View for OptDes {
    type V = OptDesModel;

    closed spec fn view(&self) -> OptDesModel {
        OptDesModel {
            name: self._name@,
            short_name: view_opt_string(self._short_name),
            description: self._description@,
            has_value: self._has_value,
            need_value: self._need_value,
            value_display_name: view_opt_string(self._value_display_name),
        }
    }
}

impl OptDes {
    /// Describe an option. The short name must be one character; an option
    /// that can carry a value must name how the value is displayed.
    pub fn new(
        name: &str,
        short_name: Option<&str>,
        description: &str,
        has_value: bool,
        need_value: bool,
        value_display_name: Option<&str>,
    ) -> (r: Option<OptDes>)
        ensures
            r is Some <==> (match short_name {
                Some(sn) => sn@.len() == 1,
                None => true,
            } && (has_value ==> value_display_name is Some)),
            r is Some ==> r->Some_0@ == (OptDesModel {
                name: name@,
                short_name: match short_name {
                    Some(sn) => Some(sn@),
                    None => None,
                },
                description: description@,
                has_value,
                need_value,
                value_display_name: match value_display_name {
                    Some(d) => Some(d@),
                    None => None,
                },
            }),
    {
        match short_name {
            Some(sn) => {
                let cs = chars_of(sn);
                if cs.len() != 1 {
                    return None;
                }
            },
            None => {},
        }
        if has_value && value_display_name.is_none() {
            return None;
        }
        Some(
            OptDes {
                _name: name.to_owned(),
                _short_name: match short_name {
                    Some(r) => Some(r.to_owned()),
                    None => None,
                },
                _description: description.to_owned(),
                _has_value: has_value,
                _need_value: need_value,
                _value_display_name: match value_display_name {
                    Some(r) => Some(r.to_owned()),
                    None => None,
                },
            },
        )
    }

    pub fn name(&self) -> (r: &str)
        ensures
            r@ == self@.name,
    {
        self._name.as_str()
    }

    pub fn short_name(&self) -> (r: Option<String>)
        ensures
            view_opt_string(r) == self@.short_name,
    {
        match &self._short_name {
            Some(s) => Some(s.clone()),
            None => None,
        }
    }

    pub fn description(&self) -> (r: &str)
        ensures
            r@ == self@.description,
    {
        self._description.as_str()
    }

    /// Whether this option can carry a value.
    pub fn has_value(&self) -> (r: bool)
        ensures
            r == self@.has_value,
    {
        self._has_value
    }

    /// Whether this option must carry a value.
    pub fn need_value(&self) -> (r: bool)
        ensures
            r == self@.need_value,
    {
        self._need_value
    }

    /// How the value is displayed in the help message.
    pub fn value_display_name(&self) -> (r: Option<String>)
        ensures
            view_opt_string(r) == self@.value_display_name,
    {
        match &self._value_display_name {
            Some(s) => Some(s.clone()),
            None => None,
        }
    }
}

impl Clone for OptDes {
    fn clone(&self) -> (r: OptDes)
        ensures
            r@ == self@,
    {
        OptDes {
            _name: self._name.clone(),
            _short_name: match &self._short_name {
                Some(s) => Some(s.clone()),
                None => None,
            },
            _description: self._description.clone(),
            _has_value: self._has_value,
            _need_value: self._need_value,
            _value_display_name: match &self._value_display_name {
                Some(s) => Some(s.clone()),
                None => None,
            },
        }
    }
}

/// The ghost image of one parsed option.
pub struct OptModel {
    pub name: Seq<char>,
    pub value: Option<Seq<char>>,
}

/// One parsed option: its name and the value it was given, if any.
pub struct Opt {
    _name: String,
    _value: Option<String>,
}

impl View for Opt {
    type V = OptModel;

    closed spec fn view(&self) -> OptModel {
        OptModel { name: self._name@, value: view_opt_string(self._value) }
    }
}

impl Opt {
    pub fn new(name: &str, value: Option<&str>) -> (r: Opt)
        ensures
            r@.name == name@,
            r@.value == (match value {
                Some(v) => Some(v@),
                None => None::<Seq<char>>,
            }),
    {
        Opt {
            _name: name.to_owned(),
            _value: match value {
                Some(v) => Some(v.to_owned()),
                None => None,
            },
        }
    }

    pub fn name(&self) -> (r: &str)
        ensures
            r@ == self@.name,
    {
        self._name.as_str()
    }

    pub fn value(&self) -> (r: Option<String>)
        ensures
            view_opt_string(r) == self@.value,
    {
        match &self._value {
            Some(s) => Some(s.clone()),
            None => None,
        }
    }
}

impl Clone for Opt {
    fn clone(&self) -> (r: Opt)
        ensures
            r@ == self@,
    {
        Opt {
            _name: self._name.clone(),
            _value: match &self._value {
                Some(s) => Some(s.clone()),
                None => None,
            },
        }
    }
}

/// The first description in the list with the given name.
pub open spec fn spec_des_get(list: Seq<OptDesModel>, key: Seq<char>) -> Option<OptDesModel>
    decreases list.len(),
{
    if list.len() == 0 {
        None
    } else if list[0].name == key {
        Some(list[0])
    } else {
        spec_des_get(list.skip(1), key)
    }
}

/// The first description in the list with the given short name.
pub open spec fn spec_des_get_short(list: Seq<OptDesModel>, key: Seq<char>) -> Option<OptDesModel>
    decreases list.len(),
{
    if list.len() == 0 {
        None
    } else if list[0].short_name == Some(key) {
        Some(list[0])
    } else {
        spec_des_get_short(list.skip(1), key)
    }
}

/// A list of option descriptions.
pub struct OptDesStore {
    list: Vec<OptDes>,
}

impl View for OptDesStore {
    type V = Seq<OptDesModel>;

    closed spec fn view(&self) -> Seq<OptDesModel> {
        self.list@.map_values(|d: OptDes| d@)
    }
}

impl OptDesStore {
    /// The description under a name.
    #[verifier::loop_isolation(false)]
    pub fn get(&self, key: &str) -> (r: Option<OptDes>)
        ensures
            match r {
                Some(d) => spec_des_get(self@, key@) == Some(d@),
                None => spec_des_get(self@, key@) is None,
            },
    {
        proof {
            assert(self@.skip(0) =~= self@);
        }
        let mut i: usize = 0;
        while i < self.list.len()
            invariant
                0 <= i <= self@.len(),
                spec_des_get(self@, key@) == spec_des_get(self@.skip(i as int), key@),
            decreases self@.len() - i,
        {
            proof {
                assert(self@.skip(i as int)[0] == self@[i as int]);
                assert(self@.skip(i as int).skip(1) =~= self@.skip(i + 1));
            }
            if str_eq(self.list[i].name(), key) {
                return Some(self.list[i].clone());
            }
            i += 1;
        }
        None
    }

    /// The description under a short name.
    #[verifier::loop_isolation(false)]
    pub fn get_by_short_name(&self, key: &str) -> (r: Option<OptDes>)
        ensures
            match r {
                Some(d) => spec_des_get_short(self@, key@) == Some(d@),
                None => spec_des_get_short(self@, key@) is None,
            },
    {
        proof {
            assert(self@.skip(0) =~= self@);
        }
        let mut i: usize = 0;
        while i < self.list.len()
            invariant
                0 <= i <= self@.len(),
                spec_des_get_short(self@, key@) == spec_des_get_short(self@.skip(i as int), key@),
            decreases self@.len() - i,
        {
            proof {
                assert(self@.skip(i as int)[0] == self@[i as int]);
                assert(self@.skip(i as int).skip(1) =~= self@.skip(i + 1));
            }
            let found = match self.list[i].short_name() {
                Some(sn) => str_eq(sn.as_str(), key),
                None => false,
            };
            if found {
                return Some(self.list[i].clone());
            }
            i += 1;
        }
        None
    }

    pub fn len(&self) -> (r: usize)
        ensures
            r == self@.len(),
    {
        self.list.len()
    }

    /// The description at an index, for rendering lists.
    pub fn item(&self, i: usize) -> (r: Option<OptDes>)
        ensures
            i < self@.len() ==> (r matches Some(d) && d@ == self@[i as int]),
            i >= self@.len() ==> r is None,
    {
        if i < self.list.len() {
            Some(self.list[i].clone())
        } else {
            None
        }
    }
}

impl Clone for OptDesStore {
    fn clone(&self) -> (r: OptDesStore)
        ensures
            r@ == self@,
    {
        let mut out: Vec<OptDes> = Vec::new();
        let mut i: usize = 0;
        while i < self.list.len()
            invariant
                0 <= i <= self.list@.len(),
                out@.len() == i,
                forall|k: int| 0 <= k < i ==> (#[trigger] out@[k])@ == self.list@[k]@,
            decreases self.list@.len() - i,
        {
            out.push(self.list[i].clone());
            i += 1;
        }
        proof {
            assert(out@.map_values(|d: OptDes| d@) =~= self.list@.map_values(|d: OptDes| d@));
        }
        OptDesStore { list: out }
    }
}

impl From<Vec<OptDes>> for OptDesStore {
    /// Wrap a list of descriptions.
    fn from(list: Vec<OptDes>) -> (r: OptDesStore)
        ensures
            r@ == list@.map_values(|d: OptDes| d@),
    {
        OptDesStore { list }
    }
}

impl vstd::std_specs::convert::FromSpecImpl<Vec<OptDes>> for OptDesStore {
    open spec fn obeys_from_spec() -> bool {
        false
    }

    closed spec fn from_spec(list: Vec<OptDes>) -> OptDesStore {
        OptDesStore { list }
    }
}

/// The value of the last parsed option with the given name.
pub open spec fn spec_last_opt(list: Seq<OptModel>, key: Seq<char>) -> Option<Option<Seq<char>>>
    decreases list.len(),
{
    if list.len() == 0 {
        None
    } else if list.last().name == key {
        Some(list.last().value)
    } else {
        spec_last_opt(list.drop_last(), key)
    }
}

/// Whether some parsed option has the given name.
pub open spec fn spec_has_opt(list: Seq<OptModel>, key: Seq<char>) -> bool {
    exists|i: int| 0 <= i < list.len() && (#[trigger] list[i]).name == key
}

/// The first store in the list registered under the given name.
pub open spec fn spec_assoc_get(
    stores: Seq<(Seq<char>, Seq<OptDesModel>)>,
    key: Seq<char>,
) -> Option<Seq<OptDesModel>>
    decreases stores.len(),
{
    if stores.len() == 0 {
        None
    } else if stores[0].0 == key {
        Some(stores[0].1)
    } else {
        spec_assoc_get(stores.skip(1), key)
    }
}

/// The first description found under a name, looking through the outside
/// stores in registration order.
pub open spec fn spec_out_des_get(
    stores: Seq<(Seq<char>, Seq<OptDesModel>)>,
    key: Seq<char>,
) -> Option<OptDesModel>
    decreases stores.len(),
{
    if stores.len() == 0 {
        None
    } else {
        match spec_des_get(stores[0].1, key) {
            Some(d) => Some(d),
            None => spec_out_des_get(stores.skip(1), key),
        }
    }
}

/// The ghost image of the option store.
pub struct OptStoreModel {
    pub list: Seq<OptModel>,
    pub des: Seq<OptDesModel>,
    pub args: Seq<Seq<char>>,
    pub ind: int,
    pub out_des: Seq<(Seq<char>, Seq<OptDesModel>)>,
    pub des_dep: Seq<(Seq<char>, Seq<Seq<char>>)>,
}

/// The store of option descriptions and of the options parsed from the
/// command line.
pub struct OptStore {
    /// The options already parsed.
    list: Vec<Opt>,
    /// The basic option descriptions.
    des: OptDesStore,
    /// The command-line arguments.
    args: Vec<String>,
    /// The next argument index to parse.
    ind: usize,
    /// Other providers' option descriptions, in registration order.
    out_des: Vec<(String, OptDesStore)>,
    /// Provider dependency names, used for the help message.
    des_dep: Vec<(String, Vec<String>)>,
}

impl View for OptStore {
    type V = OptStoreModel;

    closed spec fn view(&self) -> OptStoreModel {
        OptStoreModel {
            list: self.list@.map_values(|o: Opt| o@),
            des: self.des@,
            args: self.args@.map_values(|s: String| s@),
            ind: self.ind as int,
            out_des: self.out_des@.map_values(|p: (String, OptDesStore)| (p.0@, p.1@)),
            des_dep: self.des_dep@.map_values(
                |p: (String, Vec<String>)| (p.0@, p.1@.map_values(|s: String| s@)),
            ),
        }
    }
}

/// A description found in the basic store, else in the outside stores in
/// order.
pub open spec fn spec_store_des_get(m: OptStoreModel, key: Seq<char>) -> Option<OptDesModel> {
    match spec_des_get(m.des, key) {
        Some(d) => Some(d),
        None => spec_out_des_get(m.out_des, key),
    }
}

/// A description found under a short name: the basic store by short name,
/// the outside stores with the same key as a full name (mirroring how the
/// help index is built).
pub open spec fn spec_short_lookup(m: OptStoreModel, s: Seq<char>) -> Option<OptDesModel> {
    match spec_des_get_short(m.des, s) {
        Some(d) => Some(d),
        None => spec_out_des_get(m.out_des, s),
    }
}

/// The options denoted by one chunk of short options (`s`, from character
/// `k` on), with `i` the index of the next free argument: an option that
/// carries a value takes the rest of the chunk when there is one, else the
/// next argument unless it is an option itself; a mandatory value that is
/// missing fails. The result holds the parsed options and the index after
/// the consumed arguments.
pub open spec fn spec_parse_short(m: OptStoreModel, s: Seq<char>, k: int, i: int) -> Option<
    (Seq<OptModel>, int),
>
    decreases s.len() - k,
    when 1 <= k <= s.len() && 0 <= i <= m.args.len()
{
    if k == s.len() {
        Some((Seq::empty(), i))
    } else {
        match spec_short_lookup(m, seq![s[k]]) {
            None => None,
            Some(d) => if !d.has_value {
                match spec_parse_short(m, s, k + 1, i) {
                    Some((rest, j)) => Some(
                        (seq![OptModel { name: d.name, value: None }] + rest, j),
                    ),
                    None => None,
                }
            } else if k + 1 < s.len() {
                Some(
                    (
                        seq![
                            OptModel {
                                name: d.name,
                                value: Some(s.subrange(k + 1, s.len() as int)),
                            },
                        ],
                        i,
                    ),
                )
            } else if i < m.args.len() {
                if m.args[i].len() > 0 && m.args[i][0] == '-' {
                    if d.need_value {
                        None
                    } else {
                        Some((seq![OptModel { name: d.name, value: None }], i))
                    }
                } else {
                    Some((seq![OptModel { name: d.name, value: Some(m.args[i]) }], i + 1))
                }
            } else {
                if d.need_value {
                    None
                } else {
                    Some((seq![OptModel { name: d.name, value: None }], i))
                }
            },
        }
    }
}

/// Appending one option associates with list concatenation.
proof fn lemma_cons_assoc(a: Seq<OptModel>, x: OptModel, b: Seq<OptModel>)
    ensures
        a + (seq![x] + b) =~= a.push(x) + b,
        seq![x] + Seq::<OptModel>::empty() =~= seq![x],
        a + seq![x] =~= a.push(x),
{
}

/// A parsed short chunk consumes at most one argument.
pub proof fn lemma_parse_short_range(m: OptStoreModel, s: Seq<char>, k: int, i: int)
    requires
        1 <= k <= s.len(),
        0 <= i <= m.args.len(),
    ensures
        spec_parse_short(m, s, k, i) matches Some((opts, j)) ==> i <= j <= m.args.len(),
    decreases s.len() - k,
{
    if k < s.len() {
        lemma_parse_short_range(m, s, k + 1, i);
    }
}

/// The options denoted by the arguments from `i` on: `--name` options,
/// chunks of short options, and a stop at the first argument that is
/// neither; an unknown option, or a mandatory value that is missing,
/// fails. The result holds the parsed options and the index of the first
/// argument left unparsed.
pub open spec fn spec_parse_args(m: OptStoreModel, i: int) -> Option<(Seq<OptModel>, int)>
    decreases m.args.len() - i,
    when 0 <= i
    via spec_parse_args_decreases
{
    if i >= m.args.len() {
        Some((Seq::empty(), i))
    } else {
        let s = m.args[i];
        if s.len() >= 2 && s[0] == '-' && s[1] == '-' {
            let name = s.subrange(2, s.len() as int);
            match spec_store_des_get(m, name) {
                None => None,
                Some(d) => if !d.has_value {
                    match spec_parse_args(m, i + 1) {
                        Some((rest, j)) => Some(
                            (seq![OptModel { name, value: None }] + rest, j),
                        ),
                        None => None,
                    }
                } else if !d.need_value {
                    if i + 1 >= m.args.len() || (m.args[i + 1].len() > 0 && m.args[i + 1][0]
                        == '-') {
                        match spec_parse_args(m, i + 1) {
                            Some((rest, j)) => Some(
                                (seq![OptModel { name, value: None }] + rest, j),
                            ),
                            None => None,
                        }
                    } else {
                        match spec_parse_args(m, i + 2) {
                            Some((rest, j)) => Some(
                                (
                                    seq![OptModel { name, value: Some(m.args[i + 1]) }] + rest,
                                    j,
                                ),
                            ),
                            None => None,
                        }
                    }
                } else {
                    if i + 1 >= m.args.len() || (m.args[i + 1].len() > 0 && m.args[i + 1][0]
                        == '-') {
                        None
                    } else {
                        match spec_parse_args(m, i + 2) {
                            Some((rest, j)) => Some(
                                (
                                    seq![OptModel { name, value: Some(m.args[i + 1]) }] + rest,
                                    j,
                                ),
                            ),
                            None => None,
                        }
                    }
                },
            }
        } else if s.len() >= 1 && s[0] == '-' {
            if s.len() == 1 {
                None
            } else {
                match spec_parse_short(m, s, 1, i + 1) {
                    None => None,
                    Some((chunk, j)) => match spec_parse_args(m, j) {
                        Some((rest, j2)) => Some((chunk + rest, j2)),
                        None => None,
                    },
                }
            }
        } else {
            Some((Seq::empty(), i))
        }
    }
}

#[via_fn]
proof fn spec_parse_args_decreases(m: OptStoreModel, i: int) {
    if i < m.args.len() {
        let s = m.args[i];
        if !(s.len() >= 2 && s[0] == '-' && s[1] == '-') && s.len() >= 1 && s[0] == '-' && s.len()
            != 1 {
            lemma_parse_short_range(m, s, 1, i + 1);
        }
    }
}

impl OptStore {
    /// Create a store over the given command-line arguments, with custom
    /// basic option descriptions. The first argument is the program name
    /// and is skipped.
    pub fn new(default_des: Vec<OptDes>, args: Vec<String>) -> (r: OptStore)
        ensures
            r@.list.len() == 0,
            r@.des == default_des@.map_values(|d: OptDes| d@),
            r@.args == args@.map_values(|s: String| s@),
            r@.ind == 1,
            r@.out_des.len() == 0,
    {
        OptStore {
            list: Vec::new(),
            des: OptDesStore::from(default_des),
            args,
            ind: 1,
            out_des: Vec::new(),
            des_dep: Vec::new(),
        }
    }

    /// Register a provider's option descriptions; a store registered again
    /// under the same name is replaced.
    #[verifier::loop_isolation(false)]
    pub fn add(&mut self, key: &str, list: Vec<OptDes>)
        ensures
            final(self)@.list == old(self)@.list,
            final(self)@.des == old(self)@.des,
            final(self)@.args == old(self)@.args,
            final(self)@.ind == old(self)@.ind,
            final(self)@.des_dep == old(self)@.des_dep,
            spec_assoc_get(final(self)@.out_des, key@) == Some(
                list@.map_values(|d: OptDes| d@),
            ),
    {
        let des = OptDesStore::from(list);
        let mut i: usize = 0;
        while i < self.out_des.len()
            invariant
                0 <= i <= self.out_des@.len(),
                *self == *old(self),
                forall|k: int| 0 <= k < i ==> (#[trigger] self.out_des@[k]).0@ != key@,
            decreases self.out_des@.len() - i,
        {
            if str_eq(self.out_des[i].0.as_str(), key) {
                let name = key.to_owned();
                self.out_des.set(i, (name, des));
                proof {
                    lemma_assoc_get_at(self@.out_des, key@, i as int);
                }
                return ;
            }
            i += 1;
        }
        let name = key.to_owned();
        self.out_des.push((name, des));
        proof {
            lemma_assoc_get_at(self@.out_des, key@, self@.out_des.len() - 1);
        }
    }

    /// Register a provider's options together with the names of the
    /// providers it depends on; every dependency must be registered first.
    #[verifier::loop_isolation(false)]
    pub fn add_with_dependence(&mut self, key: &str, list: Vec<OptDes>, deps: Vec<&'static str>)
        -> (r: Option<bool>)
        ensures
            r is Some ==> spec_assoc_get(final(self)@.out_des, key@) == Some(
                list@.map_values(|d: OptDes| d@),
            ),
            r is Some ==> r == Some(true),
            r is None ==> final(self)@ == old(self)@,
    {
        let mut ndeps: Vec<String> = Vec::new();
        let mut i: usize = 0;
        while i < deps.len()
            invariant
                0 <= i <= deps@.len(),
            decreases deps@.len() - i,
        {
            if !self.has_out_des(deps[i]) {
                return None;
            }
            ndeps.push(deps[i].to_owned());
            i += 1;
        }
        self.add(key, list);
        self.set_dep(key, ndeps);
        Some(true)
    }

    /// Whether a provider's store is registered under the name.
    #[verifier::loop_isolation(false)]
    fn has_out_des(&self, key: &str) -> (r: bool)
        ensures
            r == (spec_assoc_get(self@.out_des, key@) is Some),
    {
        proof {
            assert(self@.out_des.skip(0) =~= self@.out_des);
        }
        let mut i: usize = 0;
        while i < self.out_des.len()
            invariant
                0 <= i <= self.out_des@.len(),
                spec_assoc_get(self@.out_des, key@) == spec_assoc_get(
                    self@.out_des.skip(i as int),
                    key@,
                ),
            decreases self.out_des@.len() - i,
        {
            proof {
                assert(self@.out_des.skip(i as int)[0] == self@.out_des[i as int]);
                assert(self@.out_des.skip(i as int).skip(1) =~= self@.out_des.skip(i + 1));
            }
            if str_eq(self.out_des[i].0.as_str(), key) {
                return true;
            }
            i += 1;
        }
        false
    }

    /// Record a provider's dependency names.
    #[verifier::loop_isolation(false)]
    fn set_dep(&mut self, key: &str, ndeps: Vec<String>)
        ensures
            final(self).list == old(self).list,
            final(self).des == old(self).des,
            final(self).args == old(self).args,
            final(self).ind == old(self).ind,
            final(self).out_des == old(self).out_des,
    {
        let mut i: usize = 0;
        while i < self.des_dep.len()
            invariant
                0 <= i <= self.des_dep@.len(),
                self.list == old(self).list,
                self.des == old(self).des,
                self.args == old(self).args,
                self.ind == old(self).ind,
                self.out_des == old(self).out_des,
            decreases self.des_dep@.len() - i,
        {
            if str_eq(self.des_dep[i].0.as_str(), key) {
                let name = key.to_owned();
                self.des_dep.set(i, (name, ndeps));
                return ;
            }
            i += 1;
        }
        let name = key.to_owned();
        self.des_dep.push((name, ndeps));
    }

    /// A description under a name: the basic store first, then the other
    /// providers' stores in registration order.
    #[verifier::loop_isolation(false)]
    pub fn get_des(&self, key: &str) -> (r: Option<OptDes>)
        ensures
            match r {
                Some(d) => spec_store_des_get(self@, key@) == Some(d@),
                None => spec_store_des_get(self@, key@) is None,
            },
    {
        let re = self.des.get(key);
        if re.is_some() {
            return re;
        }
        proof {
            assert(self@.out_des.skip(0) =~= self@.out_des);
        }
        let mut i: usize = 0;
        while i < self.out_des.len()
            invariant
                0 <= i <= self.out_des@.len(),
                spec_out_des_get(self@.out_des, key@) == spec_out_des_get(
                    self@.out_des.skip(i as int),
                    key@,
                ),
            decreases self.out_des@.len() - i,
        {
            proof {
                assert(self@.out_des.skip(i as int)[0] == self@.out_des[i as int]);
                assert(self@.out_des.skip(i as int).skip(1) =~= self@.out_des.skip(i + 1));
            }
            let re = self.out_des[i].1.get(key);
            if re.is_some() {
                return re;
            }
            i += 1;
        }
        None
    }

    /// A description under a short name. The basic store is searched by
    /// short name; the other providers' stores are searched with the same
    /// key as a full name, which mirrors how the help index is built.
    #[verifier::loop_isolation(false)]
    pub fn get_des_by_short_name(&self, key: &str) -> (r: Option<OptDes>)
        ensures
            match spec_des_get_short(self@.des, key@) {
                Some(d) => r matches Some(rd) && rd@ == d,
                None => match spec_out_des_get(self@.out_des, key@) {
                    Some(d) => r matches Some(rd) && rd@ == d,
                    None => r is None,
                },
            },
    {
        let re = self.des.get_by_short_name(key);
        if re.is_some() {
            return re;
        }
        proof {
            assert(self@.out_des.skip(0) =~= self@.out_des);
        }
        let mut i: usize = 0;
        while i < self.out_des.len()
            invariant
                0 <= i <= self.out_des@.len(),
                spec_des_get_short(self@.des, key@) is None,
                spec_out_des_get(self@.out_des, key@) == spec_out_des_get(
                    self@.out_des.skip(i as int),
                    key@,
                ),
            decreases self.out_des@.len() - i,
        {
            proof {
                assert(self@.out_des.skip(i as int)[0] == self@.out_des[i as int]);
                assert(self@.out_des.skip(i as int).skip(1) =~= self@.out_des.skip(i + 1));
            }
            let re = self.out_des[i].1.get(key);
            if re.is_some() {
                return re;
            }
            i += 1;
        }
        None
    }

    /// The value given to the last occurrence of an option.
    #[verifier::loop_isolation(false)]
    pub fn get_option(&self, key: &str) -> (r: Option<String>)
        ensures
            match spec_last_opt(self@.list, key@) {
                None => r is None,
                Some(v) => view_opt_string(r) == v,
            },
    {
        let mut last: Option<String> = None;
        let mut i: usize = 0;
        while i < self.list.len()
            invariant
                0 <= i <= self.list@.len(),
                match spec_last_opt(self@.list.take(i as int), key@) {
                    None => last is None,
                    Some(v) => view_opt_string(last) == v,
                },
            decreases self.list@.len() - i,
        {
            proof {
                assert(self@.list.take(i + 1).drop_last() =~= self@.list.take(i as int));
                assert(self@.list.take(i + 1).last() == self@.list[i as int]);
            }
            if str_eq(self.list[i].name(), key) {
                last = self.list[i].value();
            }
            i += 1;
        }
        proof {
            assert(self@.list.take(self@.list.len() as int) =~= self@.list);
        }
        last
    }

    /// Whether an option occurred on the command line.
    #[verifier::loop_isolation(false)]
    pub fn has_option(&self, key: &str) -> (r: bool)
        ensures
            r == spec_has_opt(self@.list, key@),
    {
        let mut i: usize = 0;
        while i < self.list.len()
            invariant
                0 <= i <= self.list@.len(),
                forall|k: int| 0 <= k < i ==> (#[trigger] self@.list[k]).name != key@,
            decreases self.list@.len() - i,
        {
            if str_eq(self.list[i].name(), key) {
                proof {
                    assert(self@.list[i as int].name == key@);
                }
                return true;
            }
            i += 1;
        }
        false
    }
}

/// The boolean a value string denotes: an optionally signed digit string is
/// true exactly when some digit is not zero; otherwise `true` and `false`
/// are accepted case-insensitively; anything else denotes nothing.
/// Whether a digit string holds any digit other than zero.
pub open spec fn has_nonzero_digit(d: Seq<char>) -> bool {
    exists|i: int| 0 <= i < d.len() && #[trigger] d[i] != '0'
}

pub open spec fn spec_bool_value(s: Seq<char>) -> Option<bool> {
    let t = crate::cookies_json::spec_trim(s);
    let d = if t.len() > 0 && (t[0] == '+' || t[0] == '-') {
        t.subrange(1, t.len() as int)
    } else {
        t
    };
    if d.len() > 0 && crate::strutil::all_digits(d) {
        Some(has_nonzero_digit(d))
    } else {
        let l = t.map_values(|c: char| crate::size::lower_char(c));
        if l == "true"@ {
            Some(true)
        } else if l == "false"@ {
            Some(false)
        } else {
            None
        }
    }
}

impl OptStore {
    /// The last value given to an option, read as a boolean; the caller
    /// must not ask when the value denotes none.
    #[verifier::loop_isolation(false)]
    pub fn get_option_as_bool(&self, key: &str) -> (r: Option<bool>)
        requires
            match spec_last_opt(self@.list, key@) {
                Some(Some(v)) => spec_bool_value(v) is Some,
                _ => true,
            },
        ensures
            r == (match spec_last_opt(self@.list, key@) {
                Some(Some(v)) => spec_bool_value(v),
                _ => None::<bool>,
            }),
    {
        let c = match self.get_option(key) {
            Some(c) => c,
            None => {
                return None;
            },
        };
        let t = crate::cookies_json::trim_chars(&chars_of(c.as_str()));
        let start: usize = if t.len() > 0 && (t[0] == '+' || t[0] == '-') {
            1
        } else {
            0
        };
        let ghost d = if t@.len() > 0 && (t@[0] == '+' || t@[0] == '-') {
            t@.subrange(1, t@.len() as int)
        } else {
            t@
        };
        proof {
            assert(t@.subrange(0, t@.len() as int) =~= t@);
        }
        let mut all_dig = t.len() > start;
        let mut i = start;
        while i < t.len() && all_dig
            invariant
                start <= i <= t@.len(),
                d == t@.subrange(start as int, t@.len() as int),
                all_dig ==> t@.len() > start && crate::strutil::all_digits(
                    d.subrange(0, i - start),
                ),
                !all_dig ==> !crate::strutil::all_digits(d) || t@.len() <= start,
            decreases t@.len() - i, (if all_dig {
                1int
            } else {
                0int
            }),
        {
            let u = t[i] as u32;
            proof {
                assert(d[i - start] == t@[i as int]);
            }
            if !(48 <= u && u <= 57) {
                proof {
                    assert(!crate::strutil::all_digits(d));
                }
                all_dig = false;
            } else {
                proof {
                    assert(d.subrange(0, i + 1 - start).drop_last() =~= d.subrange(0, i - start));
                    assert(forall|k: int|
                        0 <= k < i + 1 - start ==> d.subrange(0, i + 1 - start)[k] == d[k]);
                    assert(crate::strutil::all_digits(d.subrange(0, i + 1 - start)));
                }
                i += 1;
            }
        }
        proof {
            assert(d.subrange(0, d.len() as int) =~= d);
            if all_dig {
                assert(i == t@.len());
                assert(d.subrange(0, i - start) =~= d);
            }
        }
        if all_dig {
            let mut nonzero = false;
            let mut k = start;
            while k < t.len()
                invariant
                    start <= k <= t@.len(),
                    d == t@.subrange(start as int, t@.len() as int),
                    nonzero == (exists|j: int|
                        0 <= j < k - start && #[trigger] d[j] != '0'),
                decreases t@.len() - k,
            {
                proof {
                    assert(d[k - start] == t@[k as int]);
                }
                if t[k] != '0' {
                    nonzero = true;
                }
                k += 1;
            }
            proof {
                assert(d.len() > 0);
                assert(crate::strutil::all_digits(d));
                assert(k - start == d.len());
                if nonzero {
                    assert(exists|j: int| 0 <= j < d.len() && #[trigger] d[j] != '0');
                } else {
                    assert forall|j: int| 0 <= j < d.len() implies #[trigger] d[j] == '0' by {
                        assert(!(0 <= j < k - start && d[j] != '0'));
                    }
                }
                assert(has_nonzero_digit(d) == nonzero) by {
                    assert((exists|j: int| 0 <= j < d.len() && #[trigger] d[j] != '0')
                        == nonzero);
                }
                assert(spec_bool_value(c@) == Some(has_nonzero_digit(d)));
            }
            return Some(nonzero);
        }
        let mut low: Vec<char> = Vec::new();
        let mut k: usize = 0;
        while k < t.len()
            invariant
                0 <= k <= t@.len(),
                low@ =~= t@.subrange(0, k as int).map_values(
                    |c: char| crate::size::lower_char(c),
                ),
            decreases t@.len() - k,
        {
            low.push(crate::size::lower_char_exec(t[k]));
            proof {
                assert(t@.subrange(0, k + 1).map_values(|c: char| crate::size::lower_char(c))
                    =~= t@.subrange(0, k as int).map_values(
                    |c: char| crate::size::lower_char(c),
                ).push(crate::size::lower_char(t@[k as int])));
            }
            k += 1;
        }
        proof {
            assert(t@.subrange(0, t@.len() as int) =~= t@);
        }
        let l = crate::strutil::string_from_chars(&low);
        proof {
            reveal_strlit("true");
            reveal_strlit("false");
        }
        if str_eq(l.as_str(), "true") {
            Some(true)
        } else if str_eq(l.as_str(), "false") {
            Some(false)
        } else {
            proof {
                assert(false);
            }
            None
        }
    }

    /// The last value given to an option, read as a byte size; the caller
    /// must not ask when the value is not a size.
    pub fn get_option_as_size(&self, key: &str) -> (r: Option<usize>)
        requires
            match spec_last_opt(self@.list, key@) {
                Some(Some(v)) => crate::size::spec_parse_size(v) is Some,
                _ => true,
            },
        ensures
            r == (match spec_last_opt(self@.list, key@) {
                Some(Some(v)) => crate::size::spec_parse_size(v),
                _ => None::<usize>,
            }),
    {
        let c = match self.get_option(key) {
            Some(c) => c,
            None => {
                return None;
            },
        };
        let r = crate::size::parse_size(c.as_str());
        proof {
            assert(r is Some);
        }
        r
    }

    /// The last value given to an option, read as an unsigned number; the
    /// caller must not ask when the value is not one.
    pub fn get_option_as_usize(&self, key: &str) -> (r: Option<usize>)
        requires
            match spec_last_opt(self@.list, key@) {
                Some(Some(v)) => crate::strutil::spec_atou(v) is Some,
                _ => true,
            },
        ensures
            r == (match spec_last_opt(self@.list, key@) {
                Some(Some(v)) => crate::strutil::spec_atou(v),
                _ => None::<usize>,
            }),
    {
        let c = match self.get_option(key) {
            Some(c) => c,
            None => {
                return None;
            },
        };
        let r = crate::strutil::atou(c.as_str());
        proof {
            assert(r is Some);
        }
        r
    }

    /// Take the next argument as a URL: `None`, with the position kept,
    /// when none is left or the next argument is an option.
    pub fn parse_url(&mut self) -> (r: Option<String>)
        ensures
            final(self)@.list == old(self)@.list,
            final(self)@.des == old(self)@.des,
            final(self)@.args == old(self)@.args,
            final(self)@.out_des == old(self)@.out_des,
            final(self)@.des_dep == old(self)@.des_dep,
            old(self)@.ind >= old(self)@.args.len() ==> r is None && final(self)@.ind == old(
                self,
            )@.ind,
            old(self)@.ind < old(self)@.args.len() ==> {
                let a = old(self)@.args[old(self)@.ind];
                if a.len() > 0 && a[0] == '-' {
                    r is None && final(self)@.ind == old(self)@.ind
                } else {
                    (match r {
                        Some(s) => s@ == a,
                        None => false,
                    }) && final(self)@.ind == old(self)@.ind + 1
                }
            },
    {
        if self.ind >= self.args.len() {
            return None;
        }
        let s = self.args[self.ind].clone();
        if crate::strutil::starts_with_char(s.as_str(), '-') {
            return None;
        }
        self.ind += 1;
        Some(s)
    }

    /// Parse the `config` subcommand and its arguments: `add` and `set`
    /// take three arguments, `get` two, `fix` none; an option or anything
    /// else gives `None`.
    pub fn parse_config_command(&mut self) -> (r: Option<ConfigCommandResult>)
        ensures
            final(self)@.list == old(self)@.list,
            final(self)@.des == old(self)@.des,
            final(self)@.args == old(self)@.args,
            final(self)@.out_des == old(self)@.out_des,
            final(self)@.des_dep == old(self)@.des_dep,
            match r {
                Some(cc) => {
                    let args = old(self)@.args;
                    let i1 = old(self)@.ind + 1;
                    &&& i1 < args.len()
                    &&& (match cc.typ {
                        ConfigCommand::Add => args[i1] == "add"@ && args.len() >= i1 + 4
                            && final(self)@.ind == i1 + 4 && cc.list@.len() == 3 && (forall|
                            k: int,
                        |
                            0 <= k < 3 ==> (#[trigger] cc.list@[k])@ == args[i1 + 1 + k]),
                        ConfigCommand::Fix => args[i1] == "fix"@ && final(self)@.ind == i1 + 1
                            && cc.list@.len() == 0,
                        ConfigCommand::Get => args[i1] == "get"@ && args.len() >= i1 + 3
                            && final(self)@.ind == i1 + 3 && cc.list@.len() == 2 && (forall|
                            k: int,
                        |
                            0 <= k < 2 ==> (#[trigger] cc.list@[k])@ == args[i1 + 1 + k]),
                        ConfigCommand::SetValue => args[i1] == "set"@ && args.len() >= i1 + 4
                            && final(self)@.ind == i1 + 4 && cc.list@.len() == 3 && (forall|
                            k: int,
                        |
                            0 <= k < 3 ==> (#[trigger] cc.list@[k])@ == args[i1 + 1 + k]),
                    })
                },
                None => final(self)@.ind == old(self)@.ind + 1 || (old(self)@.ind
                    == usize::MAX && final(self)@.ind == old(self)@.ind),
            },
    {
        proof {
            reveal_strlit("add");
            reveal_strlit("fix");
            reveal_strlit("get");
            reveal_strlit("set");
        }
        if self.ind >= usize::MAX {
            return None;
        }
        self.ind += 1;
        if self.ind >= self.args.len() {
            return None;
        }
        let s = self.args[self.ind].clone();
        if crate::strutil::starts_with_char(s.as_str(), '-') {
            return None;
        }
        let i1 = self.ind;
        if str_eq(s.as_str(), "add") && self.args.len() - i1 >= 4 {
            let list = self.take_args(i1 + 1, i1 + 4);
            self.ind = i1 + 4;
            return Some(ConfigCommandResult::new(ConfigCommand::Add, list));
        }
        if str_eq(s.as_str(), "fix") {
            self.ind = i1 + 1;
            return Some(ConfigCommandResult::new(ConfigCommand::Fix, Vec::new()));
        }
        if str_eq(s.as_str(), "get") && self.args.len() - i1 >= 3 {
            let list = self.take_args(i1 + 1, i1 + 3);
            self.ind = i1 + 3;
            return Some(ConfigCommandResult::new(ConfigCommand::Get, list));
        }
        if str_eq(s.as_str(), "set") && self.args.len() - i1 >= 4 {
            let list = self.take_args(i1 + 1, i1 + 4);
            self.ind = i1 + 4;
            return Some(ConfigCommandResult::new(ConfigCommand::SetValue, list));
        }
        None
    }

    /// Copy the arguments of `[a, b)`.
    #[verifier::loop_isolation(false)]
    fn take_args(&self, a: usize, b: usize) -> (r: Vec<String>)
        requires
            a <= b <= self@.args.len(),
        ensures
            r@.len() == b - a,
            forall|k: int| 0 <= k < b - a ==> (#[trigger] r@[k])@ == self@.args[a + k],
    {
        let mut out: Vec<String> = Vec::new();
        let mut i = a;
        while i < b
            invariant
                a <= i <= b,
                out@.len() == i - a,
                forall|k: int| 0 <= k < i - a ==> (#[trigger] out@[k])@ == self@.args[a + k],
            decreases b - i,
        {
            out.push(self.args[i].clone());
            i += 1;
        }
        out
    }

    /// Parse options from the arguments, as `spec_parse_args`: stop at the
    /// first argument that is not an option; an unknown option, or a
    /// missing mandatory value, fails. The descriptions and the arguments
    /// are never changed; only the parsed list and the position move.
    #[verifier::loop_isolation(false)]
    #[verifier::rlimit(100)]
    pub fn parse_options(&mut self) -> (r: bool)
        ensures
            final(self)@.des == old(self)@.des,
            final(self)@.args == old(self)@.args,
            final(self)@.out_des == old(self)@.out_des,
            final(self)@.des_dep == old(self)@.des_dep,
            match spec_parse_args(old(self)@, old(self)@.ind) {
                Some((opts, j)) => r && final(self)@.list == opts && final(self)@.ind == j,
                None => !r,
            },
    {
        let ghost m0 = old(self)@;
        self.list = Vec::new();
        proof {
            assert(self@.list =~= Seq::<OptModel>::empty());
            match spec_parse_args(m0, m0.ind) {
                Some((all, j)) => {
                    assert(all =~= Seq::<OptModel>::empty() + all);
                },
                None => {},
            }
        }
        if self.ind >= self.args.len() {
            return true;
        }
        loop
            invariant
                self.des == old(self).des,
                self.args == old(self).args,
                self.out_des == old(self).out_des,
                self.des_dep == old(self).des_dep,
                self.ind <= self.args@.len(),
                match spec_parse_args(m0, m0.ind) {
                    Some((all, j)) => spec_parse_args(m0, self.ind as int) matches Some(
                        (rest, j2),
                    ) && j2 == j && all =~= self@.list + rest,
                    None => spec_parse_args(m0, self.ind as int) is None,
                },
            decreases self.args@.len() - self.ind,
        {
            if self.ind >= self.args.len() {
                proof {
                    if spec_parse_args(m0, m0.ind) is Some {
                        assert(spec_parse_args(m0, m0.ind)->Some_0.0 =~= self@.list);
                    }
                }
                return true;
            }
            let ghost ind0 = self.ind as int;
            let ghost list0 = self@.list;
            let s = self.args[self.ind].clone();
            proof {
                assert(s@ == m0.args[ind0]);
            }
            let ghost sv = s@;
            self.ind += 1;
            let cs = chars_of(s.as_str());
            if cs.len() >= 2 && cs[0] == '-' && cs[1] == '-' {
                let name_chars = crate::strutil::copy_range(&cs, 2, cs.len());
                let name = crate::strutil::string_from_chars(&name_chars);
                let ghost nm = sv.subrange(2, sv.len() as int);
                proof {
                    assert(spec_store_des_get(self@, nm) == spec_store_des_get(m0, nm));
                }
                let optdes = match self.get_des(name.as_str()) {
                    Some(d) => d,
                    None => {
                        return false;
                    },
                };
                let ghost dm = optdes@;
                if !optdes.has_value() {
                    let o = Opt::new(name.as_str(), None);
                    let ghost om = o@;
                    self.list.push(o);
                    proof {
                        assert(self@.list =~= list0.push(om));
                        if spec_parse_args(m0, m0.ind) is Some {
                            lemma_cons_assoc(
                                list0,
                                om,
                                spec_parse_args(m0, self.ind as int)->Some_0.0,
                            );
                        }
                    }
                } else if !optdes.need_value() {
                    if self.ind >= self.args.len() {
                        let o = Opt::new(name.as_str(), None);
                        let ghost om = o@;
                        self.list.push(o);
                        proof {
                            assert(self@.list =~= list0.push(om));
                            if spec_parse_args(m0, m0.ind) is Some {
                                lemma_cons_assoc(
                                    list0,
                                    om,
                                    spec_parse_args(m0, self.ind as int)->Some_0.0,
                                );
                            }
                        }
                    } else {
                        let v = self.args[self.ind].clone();
                        proof {
                            assert(v@ == m0.args[ind0 + 1]);
                        }
                        if crate::strutil::starts_with_char(v.as_str(), '-') {
                            let o = Opt::new(name.as_str(), None);
                            let ghost om = o@;
                            self.list.push(o);
                            proof {
                                assert(self@.list =~= list0.push(om));
                                if spec_parse_args(m0, m0.ind) is Some {
                                    lemma_cons_assoc(
                                        list0,
                                        om,
                                        spec_parse_args(m0, self.ind as int)->Some_0.0,
                                    );
                                }
                            }
                        } else {
                            self.ind += 1;
                            let o = Opt::new(name.as_str(), Some(v.as_str()));
                            let ghost om = o@;
                            self.list.push(o);
                            proof {
                                assert(self@.list =~= list0.push(om));
                                if spec_parse_args(m0, m0.ind) is Some {
                                    lemma_cons_assoc(
                                        list0,
                                        om,
                                        spec_parse_args(m0, self.ind as int)->Some_0.0,
                                    );
                                }
                            }
                        }
                    }
                } else {
                    if self.ind >= self.args.len() {
                        return false;
                    }
                    let v = self.args[self.ind].clone();
                    proof {
                        assert(v@ == m0.args[ind0 + 1]);
                    }
                    if crate::strutil::starts_with_char(v.as_str(), '-') {
                        return false;
                    }
                    self.ind += 1;
                    let o = Opt::new(name.as_str(), Some(v.as_str()));
                    let ghost om = o@;
                    self.list.push(o);
                    proof {
                        assert(self@.list =~= list0.push(om));
                        if spec_parse_args(m0, m0.ind) is Some {
                            lemma_cons_assoc(
                                list0,
                                om,
                                spec_parse_args(m0, self.ind as int)->Some_0.0,
                            );
                        }
                    }
                }
            } else if cs.len() >= 1 && cs[0] == '-' {
                if cs.len() == 1 {
                    return false;
                }
                let ghost ind1 = self.ind as int;
                proof {
                    assert(self@.list.skip(list0.len() as int) =~= Seq::<OptModel>::empty());
                    match spec_parse_short(m0, sv, 1, ind1) {
                        Some((chunk, jc)) => {
                            assert(chunk =~= Seq::<OptModel>::empty() + chunk);
                            lemma_parse_short_range(m0, sv, 1, ind1);
                            match spec_parse_args(m0, m0.ind) {
                                Some((all, j)) => {
                                    if spec_parse_args(m0, jc) is Some {
                                        let rest = spec_parse_args(m0, jc)->Some_0.0;
                                        assert(list0 + (chunk + rest) =~= list0 + chunk + rest);
                                    }
                                },
                                None => {},
                            }
                        },
                        None => {},
                    }
                }
                let mut i: usize = 1;
                while i < cs.len()
                    invariant
                        1 <= i <= cs@.len(),
                        cs@ == sv,
                        sv == m0.args[ind0],
                        2 <= sv.len(),
                        sv[0] == '-',
                        !(sv.len() >= 2 && sv[1] == '-'),
                        ind0 + 1 == ind1 <= self.ind as int,
                        ind0 < m0.args.len(),
                        self.des == old(self).des,
                        self.args == old(self).args,
                        self.out_des == old(self).out_des,
                        self.des_dep == old(self).des_dep,
                        self.ind <= self.args@.len(),
                        list0 =~= self@.list.subrange(0, list0.len() as int),
                        list0.len() <= self@.list.len(),
                        match spec_parse_short(m0, sv, 1, ind1) {
                            Some((chunk, jc)) => spec_parse_short(
                                m0,
                                sv,
                                i as int,
                                self.ind as int,
                            ) matches Some((crest, jc2)) && jc2 == jc && chunk =~= self@.list.skip(
                                list0.len() as int,
                            ) + crest,
                            None => spec_parse_short(m0, sv, i as int, self.ind as int) is None,
                        },
                        match spec_parse_args(m0, m0.ind) {
                            Some((all, j)) => (match spec_parse_short(m0, sv, 1, ind1) {
                                Some((chunk, jc)) => spec_parse_args(m0, jc) matches Some(
                                    (rest, j2),
                                ) && j2 == j && all =~= list0 + chunk + rest,
                                None => false,
                            }),
                            None => !(spec_parse_short(m0, sv, 1, ind1) matches Some((chunk, jc))
                                && spec_parse_args(m0, jc) is Some),
                        },
                    decreases cs@.len() - i,
                {
                    let ghost k0 = i as int;
                    let ghost indc = self.ind as int;
                    let ghost listc = self@.list;
                    let mut oc: Vec<char> = Vec::new();
                    oc.push(cs[i]);
                    let opt = crate::strutil::string_from_chars(&oc);
                    proof {
                        assert(opt@ =~= seq![sv[k0]]);
                        assert(spec_des_get_short(self@.des, opt@) == spec_des_get_short(
                            m0.des,
                            seq![sv[k0]],
                        ));
                        assert(spec_out_des_get(self@.out_des, opt@) == spec_out_des_get(
                            m0.out_des,
                            seq![sv[k0]],
                        ));
                    }
                    i += 1;
                    let optdes = match self.get_des_by_short_name(opt.as_str()) {
                        Some(d) => d,
                        None => {
                            return false;
                        },
                    };
                    let ghost dm = optdes@;
                    let name = optdes.name().to_owned();
                    if !optdes.has_value() {
                        let o = Opt::new(name.as_str(), None);
                        let ghost om = o@;
                        self.list.push(o);
                        proof {
                            assert(self@.list =~= listc.push(om));
                            assert(self@.list.skip(list0.len() as int) =~= listc.skip(
                                list0.len() as int,
                            ).push(om));
                            assert(list0 =~= self@.list.subrange(0, list0.len() as int));
                            if spec_parse_short(m0, sv, 1, ind1) is Some {
                                lemma_cons_assoc(
                                    listc.skip(list0.len() as int),
                                    om,
                                    spec_parse_short(
                                        m0,
                                        sv,
                                        i as int,
                                        self.ind as int,
                                    )->Some_0.0,
                                );
                            }
                        }
                    } else if i < cs.len() {
                        let rest = crate::strutil::copy_range(&cs, i, cs.len());
                        i = cs.len();
                        let v = crate::strutil::string_from_chars(&rest);
                        let o = Opt::new(name.as_str(), Some(v.as_str()));
                        let ghost om = o@;
                        self.list.push(o);
                        proof {
                            assert(self@.list =~= listc.push(om));
                            assert(self@.list.skip(list0.len() as int) =~= listc.skip(
                                list0.len() as int,
                            ).push(om));
                            assert(list0 =~= self@.list.subrange(0, list0.len() as int));
                            if spec_parse_short(m0, sv, 1, ind1) is Some {
                                lemma_cons_assoc(
                                    listc.skip(list0.len() as int),
                                    om,
                                    spec_parse_short(
                                        m0,
                                        sv,
                                        i as int,
                                        self.ind as int,
                                    )->Some_0.0,
                                );
                            }
                        }
                    } else if self.ind < self.args.len() {
                        let v = self.args[self.ind].clone();
                        proof {
                            assert(v@ == m0.args[indc]);
                        }
                        if crate::strutil::starts_with_char(v.as_str(), '-') {
                            if optdes.need_value() {
                                return false;
                            }
                            let o = Opt::new(name.as_str(), None);
                            let ghost om = o@;
                            self.list.push(o);
                            proof {
                            assert(self@.list =~= listc.push(om));
                            assert(self@.list.skip(list0.len() as int) =~= listc.skip(
                                list0.len() as int,
                            ).push(om));
                            assert(list0 =~= self@.list.subrange(0, list0.len() as int));
                            if spec_parse_short(m0, sv, 1, ind1) is Some {
                                lemma_cons_assoc(
                                    listc.skip(list0.len() as int),
                                    om,
                                    spec_parse_short(
                                        m0,
                                        sv,
                                        i as int,
                                        self.ind as int,
                                    )->Some_0.0,
                                );
                            }
                        }
                        } else {
                            self.ind += 1;
                            let o = Opt::new(name.as_str(), Some(v.as_str()));
                            let ghost om = o@;
                            self.list.push(o);
                            proof {
                            assert(self@.list =~= listc.push(om));
                            assert(self@.list.skip(list0.len() as int) =~= listc.skip(
                                list0.len() as int,
                            ).push(om));
                            assert(list0 =~= self@.list.subrange(0, list0.len() as int));
                            if spec_parse_short(m0, sv, 1, ind1) is Some {
                                lemma_cons_assoc(
                                    listc.skip(list0.len() as int),
                                    om,
                                    spec_parse_short(
                                        m0,
                                        sv,
                                        i as int,
                                        self.ind as int,
                                    )->Some_0.0,
                                );
                            }
                        }
                        }
                    } else {
                        if optdes.need_value() {
                            return false;
                        }
                        let o = Opt::new(name.as_str(), None);
                        let ghost om = o@;
                        self.list.push(o);
                        proof {
                            assert(self@.list =~= listc.push(om));
                            assert(self@.list.skip(list0.len() as int) =~= listc.skip(
                                list0.len() as int,
                            ).push(om));
                            assert(list0 =~= self@.list.subrange(0, list0.len() as int));
                            if spec_parse_short(m0, sv, 1, ind1) is Some {
                                lemma_cons_assoc(
                                    listc.skip(list0.len() as int),
                                    om,
                                    spec_parse_short(
                                        m0,
                                        sv,
                                        i as int,
                                        self.ind as int,
                                    )->Some_0.0,
                                );
                            }
                        }
                    }
                }
                proof {
                    assert(spec_parse_short(m0, sv, cs@.len() as int, self.ind as int) == Some(
                        (Seq::<OptModel>::empty(), self.ind as int),
                    ));
                    match spec_parse_args(m0, m0.ind) {
                        Some((all, j)) => {
                            let chunk = spec_parse_short(m0, sv, 1, ind1)->Some_0.0;
                            assert(chunk =~= self@.list.skip(list0.len() as int) + Seq::<
                                OptModel,
                            >::empty());
                            assert(chunk =~= self@.list.skip(list0.len() as int));
                            assert(all =~= list0 + chunk + spec_parse_args(
                                m0,
                                self.ind as int,
                            )->Some_0.0);
                            assert(list0 + self@.list.skip(list0.len() as int) =~= self@.list);
                        },
                        None => {},
                    }
                }
            } else {
                self.ind -= 1;
                proof {
                    if spec_parse_args(m0, m0.ind) is Some {
                        assert(spec_parse_args(m0, m0.ind)->Some_0.0 =~= self@.list);
                    }
                }
                return true;
            }
        }
    }
}

impl OptStore {
    /// The names of the providers a provider transitively depends on, as
    /// `spec_dep_walk`: depth-first discovery order, each name once, the
    /// queried name itself only if a cycle records it as a dependency;
    /// `None` for a provider without recorded dependencies. The walk
    /// carries a recursion budget of one more than the number of recorded
    /// names; every level that recurses has first added a new name to the
    /// result, so the budget cannot run out on such data.
    pub fn get_des_dependence(&self, key: &str) -> (r: Option<Vec<String>>)
        ensures
            r is Some <==> spec_dep_get(self@.des_dep, key@) is Some,
            r matches Some(l) ==> l@.map_values(|s: String| s@) == spec_dep_walk(
                self@.des_dep,
                key@,
                Seq::empty(),
                spec_dep_budget(self@.des_dep, 0, 1) as nat,
            ),
    {
        if !self.has_dep(key) {
            return None;
        }
        let mut list: Vec<String> = Vec::new();
        proof {
            assert(list@.map_values(|s: String| s@) =~= Seq::<Seq<char>>::empty());
        }
        let fuel = self.dep_budget();
        self.dep_walk(key, &mut list, fuel);
        Some(list)
    }

    /// One level of the dependency walk, as `spec_dep_walk`.
    #[verifier::loop_isolation(false)]
    fn dep_walk(&self, key: &str, list: &mut Vec<String>, fuel: usize)
        ensures
            final(list)@.map_values(|s: String| s@) == spec_dep_walk(
                self@.des_dep,
                key@,
                old(list)@.map_values(|s: String| s@),
                fuel as nat,
            ),
        decreases fuel,
    {
        if fuel == 0 {
            return ;
        }
        let deps = self.dep_names(key);
        let ghost items = deps@.map_values(|s: String| s@);
        let mut i: usize = 0;
        while i < deps.len()
            invariant
                0 <= i <= deps@.len(),
                items == deps@.map_values(|s: String| s@),
                spec_dep_walk_list(
                    self@.des_dep,
                    items,
                    0,
                    old(list)@.map_values(|s: String| s@),
                    (fuel - 1) as nat,
                ) == spec_dep_walk_list(
                    self@.des_dep,
                    items,
                    i as int,
                    list@.map_values(|s: String| s@),
                    (fuel - 1) as nat,
                ),
            decreases deps@.len() - i,
        {
            let ghost f1 = (fuel - 1) as nat;
            let ghost cur = list@.map_values(|s: String| s@);
            if !contains_string(list, deps[i].as_str()) {
                proof {
                    if cur.contains(items[i as int]) {
                        let j = choose|j: int|
                            0 <= j < cur.len() && cur[j] == items[i as int];
                        assert(list@[j]@ == items[i as int]);
                    }
                }
                let ghost before = list@.map_values(|s: String| s@);
                list.push(deps[i].clone());
                proof {
                    assert(list@.map_values(|s: String| s@) =~= before.push(items[i as int]));
                }
                self.dep_walk(deps[i].as_str(), list, fuel - 1);
                proof {
                    assert(spec_dep_walk_list(self@.des_dep, items, i as int, cur, f1)
                        == spec_dep_walk_list(
                        self@.des_dep,
                        items,
                        i + 1,
                        list@.map_values(|s: String| s@),
                        f1,
                    ));
                }
            } else {
                proof {
                    let j = choose|j: int|
                        0 <= j < list@.len() && (#[trigger] list@[j])@ == items[i as int];
                    assert(cur[j] == items[i as int]);
                    assert(cur.contains(items[i as int]));
                    assert(spec_dep_walk_list(self@.des_dep, items, i as int, cur, f1)
                        == spec_dep_walk_list(self@.des_dep, items, i + 1, cur, f1));
                }
            }
            i += 1;
        }
    }

    /// Whether dependencies are recorded under the name.
    #[verifier::loop_isolation(false)]
    fn has_dep(&self, key: &str) -> (r: bool)
        ensures
            r == (spec_dep_get(self@.des_dep, key@) is Some),
    {
        proof {
            assert(self@.des_dep.skip(0) =~= self@.des_dep);
        }
        let mut i: usize = 0;
        while i < self.des_dep.len()
            invariant
                0 <= i <= self.des_dep@.len(),
                spec_dep_get(self@.des_dep, key@) == spec_dep_get(self@.des_dep.skip(i as int), key@),
            decreases self.des_dep@.len() - i,
        {
            proof {
                assert(self@.des_dep.skip(i as int)[0] == self@.des_dep[i as int]);
                assert(self@.des_dep.skip(i as int).skip(1) =~= self@.des_dep.skip(i + 1));
            }
            if crate::strutil::str_eq(self.des_dep[i].0.as_str(), key) {
                return true;
            }
            i += 1;
        }
        false
    }

    /// The dependency names recorded under a name, copied out; empty for an
    /// unrecorded name.
    #[verifier::loop_isolation(false)]
    fn dep_names(&self, key: &str) -> (r: Vec<String>)
        ensures
            r@.map_values(|s: String| s@) == (match spec_dep_get(self@.des_dep, key@) {
                Some(items) => items,
                None => Seq::<Seq<char>>::empty(),
            }),
    {
        proof {
            assert(self@.des_dep.skip(0) =~= self@.des_dep);
        }
        let mut i: usize = 0;
        while i < self.des_dep.len()
            invariant
                0 <= i <= self.des_dep@.len(),
                spec_dep_get(self@.des_dep, key@) == spec_dep_get(self@.des_dep.skip(i as int), key@),
            decreases self.des_dep@.len() - i,
        {
            proof {
                assert(self@.des_dep.skip(i as int)[0] == self@.des_dep[i as int]);
                assert(self@.des_dep.skip(i as int).skip(1) =~= self@.des_dep.skip(i + 1));
            }
            if crate::strutil::str_eq(self.des_dep[i].0.as_str(), key) {
                let r = clone_strings(&self.des_dep[i].1);
                return r;
            }
            i += 1;
        }
        let r: Vec<String> = Vec::new();
        proof {
            assert(r@.map_values(|s: String| s@) =~= Seq::<Seq<char>>::empty());
        }
        r
    }

    /// One more than the number of recorded dependency names, as
    /// `spec_dep_budget`; additions that would reach the integer limit are
    /// skipped.
    #[verifier::loop_isolation(false)]
    fn dep_budget(&self) -> (r: usize)
        ensures
            r == spec_dep_budget(self@.des_dep, 0, 1),
    {
        let mut total: usize = 1;
        let mut i: usize = 0;
        while i < self.des_dep.len()
            invariant
                0 <= i <= self.des_dep@.len(),
                spec_dep_budget(self@.des_dep, 0, 1) == spec_dep_budget(
                    self@.des_dep,
                    i as int,
                    total as int,
                ),
            decreases self.des_dep@.len() - i,
        {
            let n = self.des_dep[i].1.len();
            if usize::MAX - total > n {
                total += n;
            }
            i += 1;
        }
        total
    }
}

/// The result of walking the dependencies recorded under `key`, with
/// `list` the names discovered so far and `fuel` the remaining recursion
/// depth: nothing is added when the fuel is out or the key records no
/// dependencies; otherwise its names are expanded in order.
pub open spec fn spec_dep_walk(
    deps: Seq<(Seq<char>, Seq<Seq<char>>)>,
    key: Seq<char>,
    list: Seq<Seq<char>>,
    fuel: nat,
) -> Seq<Seq<char>>
    decreases fuel, 0int, 0int,
{
    if fuel == 0 {
        list
    } else {
        match spec_dep_get(deps, key) {
            None => list,
            Some(items) => spec_dep_walk_list(deps, items, 0, list, (fuel - 1) as nat),
        }
    }
}

/// The names from `i` on of one dependency list, expanded in order: a name
/// already discovered is passed over; a new one is appended and its own
/// dependencies expanded before the next name (depth first).
pub open spec fn spec_dep_walk_list(
    deps: Seq<(Seq<char>, Seq<Seq<char>>)>,
    items: Seq<Seq<char>>,
    i: int,
    list: Seq<Seq<char>>,
    fuel: nat,
) -> Seq<Seq<char>>
    decreases fuel, 1int, items.len() - i,
    when 0 <= i <= items.len()
{
    if i == items.len() {
        list
    } else if list.contains(items[i]) {
        spec_dep_walk_list(deps, items, i + 1, list, fuel)
    } else {
        spec_dep_walk_list(
            deps,
            items,
            i + 1,
            spec_dep_walk(deps, items[i], list.push(items[i]), fuel),
            fuel,
        )
    }
}

/// The recursion budget: one, plus the length of every recorded dependency
/// list, skipping an addition that would reach the integer limit.
pub open spec fn spec_dep_budget(
    deps: Seq<(Seq<char>, Seq<Seq<char>>)>,
    i: int,
    acc: int,
) -> int
    decreases deps.len() - i,
    when 0 <= i <= deps.len()
{
    if i == deps.len() {
        acc
    } else {
        let n = deps[i].1.len() as int;
        spec_dep_budget(
            deps,
            i + 1,
            if usize::MAX - acc > n {
                acc + n
            } else {
                acc
            },
        )
    }
}

/// The dependency list stored under a name.
pub open spec fn spec_dep_get(
    deps: Seq<(Seq<char>, Seq<Seq<char>>)>,
    key: Seq<char>,
) -> Option<Seq<Seq<char>>>
    decreases deps.len(),
{
    if deps.len() == 0 {
        None
    } else if deps[0].0 == key {
        Some(deps[0].1)
    } else {
        spec_dep_get(deps.skip(1), key)
    }
}

/// Whether a vector of strings holds the given text.
#[verifier::loop_isolation(false)]
pub fn contains_string(v: &Vec<String>, x: &str) -> (r: bool)
    ensures
        r == (exists|i: int| 0 <= i < v@.len() && (#[trigger] v@[i])@ == x@),
{
    let mut i: usize = 0;
    while i < v.len()
        invariant
            0 <= i <= v@.len(),
            forall|k: int| 0 <= k < i ==> (#[trigger] v@[k])@ != x@,
        decreases v@.len() - i,
    {
        if crate::strutil::str_eq(v[i].as_str(), x) {
            proof {
                assert(v@[i as int]@ == x@);
            }
            return true;
        }
        i += 1;
    }
    false
}

impl Clone for OptStore {
    fn clone(&self) -> (r: OptStore)
        ensures
            r@ == self@,
    {
        let mut list: Vec<Opt> = Vec::new();
        let mut i: usize = 0;
        while i < self.list.len()
            invariant
                0 <= i <= self.list@.len(),
                list@.len() == i,
                forall|k: int| 0 <= k < i ==> (#[trigger] list@[k])@ == self.list@[k]@,
            decreases self.list@.len() - i,
        {
            list.push(self.list[i].clone());
            i += 1;
        }
        let mut out_des: Vec<(String, OptDesStore)> = Vec::new();
        let mut j: usize = 0;
        while j < self.out_des.len()
            invariant
                0 <= j <= self.out_des@.len(),
                out_des@.len() == j,
                forall|k: int|
                    0 <= k < j ==> (#[trigger] out_des@[k]).0@ == self.out_des@[k].0@
                        && out_des@[k].1@ == self.out_des@[k].1@,
            decreases self.out_des@.len() - j,
        {
            let name = self.out_des[j].0.clone();
            let des = self.out_des[j].1.clone();
            out_des.push((name, des));
            j += 1;
        }
        let mut des_dep: Vec<(String, Vec<String>)> = Vec::new();
        let mut t: usize = 0;
        while t < self.des_dep.len()
            invariant
                0 <= t <= self.des_dep@.len(),
                des_dep@.len() == t,
                forall|k: int|
                    0 <= k < t ==> (#[trigger] des_dep@[k]).0@ == self.des_dep@[k].0@
                        && des_dep@[k].1@.map_values(|s: String| s@)
                        == self.des_dep@[k].1@.map_values(|s: String| s@),
            decreases self.des_dep@.len() - t,
        {
            let name = self.des_dep[t].0.clone();
            let deps = clone_strings(&self.des_dep[t].1);
            des_dep.push((name, deps));
            t += 1;
        }
        let r = OptStore {
            list,
            des: self.des.clone(),
            args: clone_strings(&self.args),
            ind: self.ind,
            out_des,
            des_dep,
        };
        proof {
            assert(r@.list =~= self@.list);
            assert(r@.args =~= self@.args);
            assert(r@.out_des =~= self@.out_des);
            assert(r@.des_dep =~= self@.des_dep);
        }
        r
    }
}

/// `spec_assoc_get` finds the entry at `at` when all earlier keys differ.
proof fn lemma_assoc_get_at(stores: Seq<(Seq<char>, Seq<OptDesModel>)>, key: Seq<char>, at: int)
    requires
        0 <= at < stores.len(),
        stores[at].0 == key,
        forall|k: int| 0 <= k < at ==> (#[trigger] stores[k]).0 != key,
    ensures
        spec_assoc_get(stores, key) == Some(stores[at].1),
    decreases at,
{
    if at > 0 {
        assert(stores.skip(1)[at - 1] == stores[at]);
        assert(forall|k: int|
            0 <= k < at - 1 ==> (#[trigger] stores.skip(1)[k]).0 == stores[k + 1].0);
        lemma_assoc_get_at(stores.skip(1), key, at - 1);
    }
}

} // verus!
