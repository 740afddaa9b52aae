//! Settings of the external download accelerator: validation of its
//! configuration values and the state that a download invocation is built
//! from. Probing and running the external process stay with the host
//! program, which hands the probe's outcome in.
use crate::convert::ToStr;
use crate::number::ToUsize;
use crate::pathutil::filter_file_name;
use crate::size::ToSize;
use vstd::prelude::*;

verus! {

/// File allocation method of the accelerator.
#[derive(Clone, Copy, Debug, PartialEq, Eq, Structural)]
pub enum Aria2cFileAllocation {
    NoAlloc,
    Prealloc,
    Trunc,
    Falloc,
}

/// The method a (case-insensitively) spelled name denotes.
pub open spec fn spec_file_allocation(s: Seq<char>) -> Option<Aria2cFileAllocation> {
    let t = s.map_values(|c: char| crate::size::lower_char(c));
    if t == "none"@ {
        Some(Aria2cFileAllocation::NoAlloc)
    } else if t == "prealloc"@ {
        Some(Aria2cFileAllocation::Prealloc)
    } else if t == "trunc"@ {
        Some(Aria2cFileAllocation::Trunc)
    } else if t == "falloc"@ {
        Some(Aria2cFileAllocation::Falloc)
    } else {
        None
    }
}

impl Aria2cFileAllocation {
    /// The lower-case name of the method.
    pub open spec fn spec_name(&self) -> Seq<char> {
        match *self {
            Aria2cFileAllocation::NoAlloc => "none"@,
            Aria2cFileAllocation::Prealloc => "prealloc"@,
            Aria2cFileAllocation::Trunc => "trunc"@,
            Aria2cFileAllocation::Falloc => "falloc"@,
        }
    }

    /// Parse a method name, case-insensitively.
    pub fn try_from(value: &str) -> (r: Result<Self, ()>)
        ensures
            match r {
                Ok(m) => spec_file_allocation(value@) == Some(m),
                Err(_) => spec_file_allocation(value@) is None,
            },
    {
        let v = crate::strutil::chars_of(value);
        let mut low: Vec<char> = Vec::new();
        let mut i: usize = 0;
        while i < v.len()
            invariant
                0 <= i <= v@.len(),
                low@ =~= v@.subrange(0, i as int).map_values(
                    |c: char| crate::size::lower_char(c),
                ),
            decreases v@.len() - i,
        {
            let c = v[i];
            low.push(crate::size::lower_char_exec(c));
            proof {
                assert(v@.subrange(0, i + 1).map_values(|c: char| crate::size::lower_char(c))
                    =~= v@.subrange(0, i as int).map_values(|c: char| crate::size::lower_char(c))
                    .push(crate::size::lower_char(v@[i as int])));
            }
            i += 1;
        }
        proof {
            assert(v@.subrange(0, v@.len() as int) =~= v@);
        }
        let s = crate::strutil::string_from_chars(&low);
        proof {
            reveal_strlit("none");
            reveal_strlit("prealloc");
            reveal_strlit("trunc");
            reveal_strlit("falloc");
        }
        if crate::strutil::str_eq(s.as_str(), "none") {
            Ok(Aria2cFileAllocation::NoAlloc)
        } else if crate::strutil::str_eq(s.as_str(), "prealloc") {
            Ok(Aria2cFileAllocation::Prealloc)
        } else if crate::strutil::str_eq(s.as_str(), "trunc") {
            Ok(Aria2cFileAllocation::Trunc)
        } else if crate::strutil::str_eq(s.as_str(), "falloc") {
            Ok(Aria2cFileAllocation::Falloc)
        } else {
            Err(())
        }
    }

    /// The name of the method, as handed to the accelerator.
    pub fn name_str(&self) -> (r: &'static str)
        ensures
            r@ == self.spec_name(),
    {
        proof {
            reveal_strlit("none");
            reveal_strlit("prealloc");
            reveal_strlit("trunc");
            reveal_strlit("falloc");
        }
        match self {
            Aria2cFileAllocation::NoAlloc => "none",
            Aria2cFileAllocation::Prealloc => "prealloc",
            Aria2cFileAllocation::Trunc => "trunc",
            Aria2cFileAllocation::Falloc => "falloc",
        }
    }
}

impl ToStr for Aria2cFileAllocation {
    open spec fn spec_to_str(&self) -> Option<Seq<char>> {
        Some(self.spec_name())
    }

    fn to_str(&self) -> (r: Option<&str>) {
        Some(self.name_str())
    }
}

/// Valid `min-split-size` values: 1MiB up to 1GiB.
pub fn check_min_split_size(inp: &impl ToSize) -> (r: bool)
    ensures
        r == (inp.spec_to_size() matches Some(n) && 1048576 <= n <= 1073741824),
{
    match inp.to_size() {
        Some(n) => 1048576 <= n && n <= 1073741824,
        None => false,
    }
}

/// Valid `split` values: at least one connection.
pub fn check_split<U: ToUsize>(inp: &U) -> (r: bool)
    ensures
        r == (inp.spec_to_usize() matches Some(n) && n >= 1),
{
    match inp.to_usize() {
        Some(n) => n >= 1,
        None => false,
    }
}

/// Valid `file-allocation` values: a method name.
pub fn check_file_allocation<U: ToStr>(inp: &U) -> (r: bool)
    ensures
        r == (inp.spec_to_str() matches Some(s) && spec_file_allocation(s) is Some),
{
    match inp.to_str() {
        Some(s) => match Aria2cFileAllocation::try_from(s) {
            Ok(_) => true,
            Err(_) => false,
        },
        None => false,
    }
}

/// Valid `max-connection-per-server` values: at least one connection.
pub fn check_max_connection_per_server<U: ToUsize>(inp: &U) -> (r: bool)
    ensures
        r == (inp.spec_to_usize() matches Some(n) && n >= 1),
{
    match inp.to_usize() {
        Some(n) => n >= 1,
        None => false,
    }
}

/// The configuration a download invocation is built from.
pub struct Aria2c {
    /// Executable path.
    exe: String,
    /// HTTP headers to hand to the accelerator.
    pub headers: Vec<(String, String)>,
    /// Do not split below twice this byte count.
    min_split_size: usize,
    /// Number of connections used when downloading a file.
    split: usize,
    /// File allocation method.
    file_allocation: Aria2cFileAllocation,
    /// Maximum number of connections to one server.
    max_connection_per_server: usize,
    /// Output file name.
    output: Option<String>,
}

/// The ghost image of the accelerator configuration.
pub struct Aria2cModel {
    pub exe: Seq<char>,
    pub headers: Seq<(Seq<char>, Seq<char>)>,
    pub min_split_size: usize,
    pub split: usize,
    pub file_allocation: Aria2cFileAllocation,
    pub max_connection_per_server: usize,
    pub output: Option<Seq<char>>,
}

impl View for Aria2c {
    type V = Aria2cModel;

    closed spec fn view(&self) -> Aria2cModel {
        Aria2cModel {
            exe: self.exe@,
            headers: self.headers@.map_values(|p: (String, String)| (p.0@, p.1@)),
            min_split_size: self.min_split_size,
            split: self.split,
            file_allocation: self.file_allocation,
            max_connection_per_server: self.max_connection_per_server,
            output: crate::getopt::view_opt_string(self.output),
        }
    }
}

impl Aria2c {
    /// Create an interface over the accelerator at `exe` (by default the
    /// one named `aria2c` on the search path). The host probes whether the
    /// executable works and hands the outcome in as `usable`.
    pub fn new(exe: Option<&str>, usable: bool) -> (r: Option<Self>)
        ensures
            r is Some <==> usable,
            r matches Some(a) ==> a@ == (Aria2cModel {
                exe: match exe {
                    Some(e) => e@,
                    None => "aria2c"@,
                },
                headers: Seq::empty(),
                min_split_size: 20971520usize,
                split: 5usize,
                file_allocation: Aria2cFileAllocation::Prealloc,
                max_connection_per_server: 1usize,
                output: None::<Seq<char>>,
            }),
    {
        let e = match exe {
            Some(e) => e,
            None => "aria2c",
        };
        if !usable {
            return None;
        }
        let r = Self {
            exe: e.to_owned(),
            headers: Vec::new(),
            min_split_size: 20971520,
            split: 5,
            file_allocation: Aria2cFileAllocation::Prealloc,
            max_connection_per_server: 1,
            output: None,
        };
        proof {
            assert(r@.headers =~= Seq::<(Seq<char>, Seq<char>)>::empty());
        }
        Some(r)
    }

    /// The method a `ToStr` input denotes, if it denotes one.
    pub open spec fn input_file_allocation<U: ToStr>(inp: &U) -> Option<Aria2cFileAllocation> {
        match inp.spec_to_str() {
            Some(s) => spec_file_allocation(s),
            None => None,
        }
    }

    /// Set the file allocation method from a value; an invalid value leaves
    /// the state unchanged.
    pub fn set_file_allocation<U: ToStr>(&mut self, inp: &U) -> (r: bool)
        ensures
            r == (Self::input_file_allocation(inp) is Some),
            match Self::input_file_allocation(inp) {
                Some(m) => final(self)@ == (Aria2cModel { file_allocation: m, ..old(self)@ }),
                None => final(self)@ == old(self)@,
            },
    {
        let s = match inp.to_str() {
            Some(s) => s,
            None => {
                return false;
            },
        };
        match Aria2cFileAllocation::try_from(s) {
            Ok(m) => {
                self.file_allocation = m;
                true
            },
            Err(_) => false,
        }
    }

    /// Set the maximum connections per server; zero is rejected.
    pub fn set_max_connection_per_server<U: ToUsize>(&mut self, inp: &U) -> (r: bool)
        ensures
            r == (inp.spec_to_usize() matches Some(n) && n >= 1),
            r ==> final(self)@ == (Aria2cModel {
                max_connection_per_server: inp.spec_to_usize()->Some_0,
                ..old(self)@
            }),
            !r ==> final(self)@ == old(self)@,
    {
        let s = match inp.to_usize() {
            Some(s) => s,
            None => {
                return false;
            },
        };
        if s >= 1 {
            self.max_connection_per_server = s;
            true
        } else {
            false
        }
    }

    /// Set the minimal split size; values outside 1MiB..1GiB are rejected.
    pub fn set_min_split_size(&mut self, inp: &impl ToSize) -> (r: bool)
        ensures
            r == (inp.spec_to_size() matches Some(n) && 1048576 <= n <= 1073741824),
            r ==> final(self)@ == (Aria2cModel {
                min_split_size: inp.spec_to_size()->Some_0,
                ..old(self)@
            }),
            !r ==> final(self)@ == old(self)@,
    {
        let s = match inp.to_size() {
            Some(s) => s,
            None => {
                return false;
            },
        };
        if 1048576 <= s && s <= 1073741824 {
            self.min_split_size = s;
            true
        } else {
            false
        }
    }

    /// Set or clear the output file name; the name is sanitized first.
    pub fn set_output<U: ToStr>(&mut self, inp: Option<&U>) -> (r: bool)
        ensures
            match inp {
                None => r && final(self)@ == (Aria2cModel { output: None::<Seq<char>>, ..old(self)@ }),
                Some(u) => match u.spec_to_str() {
                    Some(s) => r && final(self)@ == (Aria2cModel {
                        output: Some(crate::pathutil::spec_filter_file_name(s)),
                        ..old(self)@
                    }),
                    None => !r && final(self)@ == old(self)@,
                },
            },
    {
        match inp {
            None => {
                self.output = None;
                true
            },
            Some(u) => {
                match filter_file_name(u) {
                    Some(f) => {
                        self.output = Some(f);
                        true
                    },
                    None => false,
                }
            },
        }
    }

    /// Set the number of connections; zero is rejected.
    pub fn set_split<U: ToUsize>(&mut self, inp: &U) -> (r: bool)
        ensures
            r == (inp.spec_to_usize() matches Some(n) && n >= 1),
            r ==> final(self)@ == (Aria2cModel { split: inp.spec_to_usize()->Some_0, ..old(self)@ }),
            !r ==> final(self)@ == old(self)@,
    {
        let s = match inp.to_usize() {
            Some(s) => s,
            None => {
                return false;
            },
        };
        if s >= 1 {
            self.split = s;
            true
        } else {
            false
        }
    }

    /// The executable path.
    pub fn exe(&self) -> (r: &str)
        ensures
            r@ == self@.exe,
    {
        self.exe.as_str()
    }

    /// The configured values, in the order a command line names them:
    /// minimal split size, split count, file allocation method, maximum
    /// connections per server, and the output name if one is set.
    pub fn config(&self) -> (r: (usize, usize, Aria2cFileAllocation, usize, Option<String>))
        ensures
            r.0 == self@.min_split_size,
            r.1 == self@.split,
            r.2 == self@.file_allocation,
            r.3 == self@.max_connection_per_server,
            crate::getopt::view_opt_string(r.4) == self@.output,
    {
        let out = match &self.output {
            Some(s) => Some(s.clone()),
            None => None,
        };
        (self.min_split_size, self.split, self.file_allocation, self.max_connection_per_server, out)
    }
}

} // verus!
