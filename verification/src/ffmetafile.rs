//! The ffmpeg metadata file format: a header line, `key=value` lines, and
//! bracketed sections, with `\ = ; #` and newlines escaped.
use crate::memory_file::MemoryFile;
use crate::strutil::chars_of;
use crate::strutil::string_from_chars;
use vstd::prelude::*;
use vstd::utf8::encode_utf8;

verus! {

/// The escape of one character: `\ = ; #` and the newline get a leading
/// backslash.
pub open spec fn esc_char(c: char) -> Seq<char> {
    if c == '\\' || c == '=' || c == ';' || c == '#' || c == '\n' {
        seq!['\\', c]
    } else {
        seq![c]
    }
}

/// The escape of a whole key or value.
pub open spec fn spec_escape(s: Seq<char>) -> Seq<char>
    decreases s.len(),
{
    if s.len() == 0 {
        Seq::empty()
    } else {
        spec_escape(s.drop_last()) + esc_char(s.last())
    }
}

/// Escape a key or value.
#[verifier::loop_isolation(false)]
pub fn escape(s: &str) -> (r: String)
    ensures
        r@ == spec_escape(s@),
{
    let v = chars_of(s);
    let mut out: Vec<char> = Vec::new();
    let mut i: usize = 0;
    while i < v.len()
        invariant
            0 <= i <= v@.len(),
            out@ =~= spec_escape(v@.subrange(0, i as int)),
        decreases v@.len() - i,
    {
        let c = v[i];
        if c == '\\' || c == '=' || c == ';' || c == '#' || c == '\n' {
            out.push('\\');
        }
        out.push(c);
        proof {
            let p = v@.subrange(0, i + 1);
            assert(p.drop_last() =~= v@.subrange(0, i as int));
            assert(p.last() == v@[i as int]);
        }
        i += 1;
    }
    proof {
        assert(v@.subrange(0, v@.len() as int) =~= v@);
    }
    string_from_chars(&out)
}

/// One `key=value` line, escaped, with its newline.
pub open spec fn spec_meta_line(k: Seq<char>, v: Seq<char>) -> Seq<char> {
    spec_escape(k) + seq!['='] + spec_escape(v) + seq!['\n']
}

/// The lines of a list of entries, in order.
pub open spec fn spec_meta_lines(entries: Seq<(Seq<char>, Seq<char>)>) -> Seq<char>
    decreases entries.len(),
{
    if entries.len() == 0 {
        Seq::empty()
    } else {
        spec_meta_lines(entries.drop_last()) + spec_meta_line(
            entries.last().0,
            entries.last().1,
        )
    }
}

/// One bracketed section: its header line and its entries.
pub open spec fn spec_meta_section(name: Seq<char>, entries: Seq<(Seq<char>, Seq<char>)>) -> Seq<
    char,
> {
    seq!['['] + name + seq![']', '\n'] + spec_meta_lines(entries)
}

/// All sections, in order.
pub open spec fn spec_meta_sections(
    sections: Seq<(Seq<char>, Seq<(Seq<char>, Seq<char>)>)>,
) -> Seq<char>
    decreases sections.len(),
{
    if sections.len() == 0 {
        Seq::empty()
    } else {
        spec_meta_sections(sections.drop_last()) + spec_meta_section(
            sections.last().0,
            sections.last().1,
        )
    }
}

/// The view of a list of string pairs.
pub open spec fn pairs_view(v: Seq<(String, String)>) -> Seq<(Seq<char>, Seq<char>)> {
    v.map_values(|p: (String, String)| (p.0@, p.1@))
}

/// An ffmpeg metadata file.
#[derive(Debug, Clone)]
pub struct FFMetaFile {
    /// Basic metadata entries, in the order they are written.
    pub basic: Vec<(String, String)>,
    /// Per-section metadata, in the order the sections are written.
    pub extra: Vec<(String, Vec<(String, String)>)>,
}

impl FFMetaFile {
    /// The whole rendering: the header, the basic entries, the sections.
    pub open spec fn spec_render(&self) -> Seq<char> {
        ";FFMETADATA1\n"@ + spec_meta_lines(pairs_view(self.basic@)) + spec_meta_sections(
            self.extra@.map_values(
                |s: (String, Vec<(String, String)>)| (s.0@, pairs_view(s.1@)),
            ),
        )
    }

    pub fn new() -> (r: FFMetaFile)
        ensures
            r.basic@.len() == 0,
            r.extra@.len() == 0,
    {
        FFMetaFile { basic: Vec::new(), extra: Vec::new() }
    }

    /// Render the file as text.
    #[verifier::loop_isolation(false)]
    pub fn render(&self) -> (r: String)
        ensures
            r@ == self.spec_render(),
    {
        let mut out: Vec<char> = chars_of(";FFMETADATA1\n");
        let ghost header = ";FFMETADATA1\n"@;
        let mut i: usize = 0;
        while i < self.basic.len()
            invariant
                0 <= i <= self.basic@.len(),
                out@ =~= header + spec_meta_lines(pairs_view(self.basic@.subrange(0, i as int))),
            decreases self.basic@.len() - i,
        {
            push_line(&mut out, self.basic[i].0.as_str(), self.basic[i].1.as_str());
            proof {
                let p = pairs_view(self.basic@.subrange(0, i + 1));
                assert(p.drop_last() =~= pairs_view(self.basic@.subrange(0, i as int)));
                assert(p.last() == (self.basic@[i as int].0@, self.basic@[i as int].1@));
            }
            i += 1;
        }
        proof {
            assert(self.basic@.subrange(0, self.basic@.len() as int) =~= self.basic@);
        }
        let ghost secs = self.extra@.map_values(
            |s: (String, Vec<(String, String)>)| (s.0@, pairs_view(s.1@)),
        );
        let mut s: usize = 0;
        while s < self.extra.len()
            invariant
                0 <= s <= self.extra@.len(),
                secs == self.extra@.map_values(
                    |t: (String, Vec<(String, String)>)| (t.0@, pairs_view(t.1@)),
                ),
                out@ =~= header + spec_meta_lines(pairs_view(self.basic@)) + spec_meta_sections(
                    secs.subrange(0, s as int),
                ),
            decreases self.extra@.len() - s,
        {
            out.push('[');
            let name = chars_of(self.extra[s].0.as_str());
            let mut t: usize = 0;
            while t < name.len()
                invariant
                    0 <= t <= name@.len(),
                    out@ =~= header + spec_meta_lines(pairs_view(self.basic@))
                        + spec_meta_sections(secs.subrange(0, s as int)) + seq!['[']
                        + name@.subrange(0, t as int),
                decreases name@.len() - t,
            {
                out.push(name[t]);
                proof {
                    assert(name@.subrange(0, t + 1) =~= name@.subrange(0, t as int).push(
                        name@[t as int],
                    ));
                }
                t += 1;
            }
            proof {
                assert(name@.subrange(0, name@.len() as int) =~= name@);
            }
            out.push(']');
            out.push('\n');
            let entries = &self.extra[s].1;
            let mut k: usize = 0;
            while k < entries.len()
                invariant
                    0 <= k <= entries@.len(),
                    entries@ == self.extra@[s as int].1@,
                    out@ =~= header + spec_meta_lines(pairs_view(self.basic@))
                        + spec_meta_sections(secs.subrange(0, s as int)) + seq!['[']
                        + self.extra@[s as int].0@ + seq![']', '\n'] + spec_meta_lines(
                        pairs_view(entries@.subrange(0, k as int)),
                    ),
                decreases entries@.len() - k,
            {
                push_line(&mut out, entries[k].0.as_str(), entries[k].1.as_str());
                proof {
                    let p = pairs_view(entries@.subrange(0, k + 1));
                    assert(p.drop_last() =~= pairs_view(entries@.subrange(0, k as int)));
                    assert(p.last() == (entries@[k as int].0@, entries@[k as int].1@));
                }
                k += 1;
            }
            proof {
                assert(entries@.subrange(0, entries@.len() as int) =~= entries@);
                let q = secs.subrange(0, s + 1);
                assert(q.drop_last() =~= secs.subrange(0, s as int));
                assert(q.last() == secs[s as int]);
                assert(secs[s as int].0 == self.extra@[s as int].0@);
                assert(secs[s as int].1 == pairs_view(self.extra@[s as int].1@));
                assert(out@ =~= header + spec_meta_lines(pairs_view(self.basic@))
                    + spec_meta_sections(secs.subrange(0, s + 1)));
            }
            s += 1;
        }
        proof {
            assert(secs.subrange(0, secs.len() as int) =~= secs);
        }
        string_from_chars(&out)
    }

    /// Render the file into a memory file.
    pub fn save(&self, f: &mut MemoryFile) -> (r: Result<(), ()>)
        ensures
            final(f)@ == old(f)@ + encode_utf8(self.spec_render()),
            r is Ok,
    {
        let text = self.render();
        match f.write(text.as_str().as_bytes()) {
            Ok(_) => Ok(()),
            Err(_) => Err(()),
        }
    }
}

impl Default for FFMetaFile {
    fn default() -> (r: FFMetaFile)
        ensures
            r.basic@.len() == 0,
            r.extra@.len() == 0,
    {
        FFMetaFile { basic: Vec::new(), extra: Vec::new() }
    }
}

/// Append one escaped `key=value` line.
#[verifier::loop_isolation(false)]
fn push_line(out: &mut Vec<char>, k: &str, v: &str)
    ensures
        final(out)@ == old(out)@ + spec_meta_line(k@, v@),
{
    let ek = escape(k);
    let ev = escape(v);
    push_str_chars(out, ek.as_str());
    out.push('=');
    push_str_chars(out, ev.as_str());
    out.push('\n');
    proof {
        assert(out@ =~= old(out)@ + spec_meta_line(k@, v@));
    }
}

/// Append the characters of a string.
#[verifier::loop_isolation(false)]
fn push_str_chars(out: &mut Vec<char>, s: &str)
    ensures
        final(out)@ == old(out)@ + s@,
{
    let v = chars_of(s);
    let mut i: usize = 0;
    while i < v.len()
        invariant
            0 <= i <= v@.len(),
            out@ =~= old(out)@ + v@.subrange(0, i as int),
        decreases v@.len() - i,
    {
        out.push(v[i]);
        proof {
            assert(out@ =~= old(out)@ + v@.subrange(0, i + 1));
        }
        i += 1;
    }
    proof {
        assert(v@.subrange(0, v@.len() as int) =~= v@);
    }
}

} // verus!
