//! A writable file that stores its data in memory; used by tests and by
//! anything that renders output before handing it to the host.
use vstd::prelude::*;

verus! {

/// A template writable file which stores data in memory.
#[derive(Debug)]
pub struct MemoryFile {
    buffer: Vec<u8>,
}

impl View for MemoryFile {
    type V = Seq<u8>;

    closed spec fn view(&self) -> Seq<u8> {
        self.buffer@
    }
}

impl MemoryFile {
    pub fn new() -> (r: MemoryFile)
        ensures
            r@ =~= Seq::<u8>::empty(),
    {
        MemoryFile { buffer: Vec::new() }
    }

    /// Append bytes; the whole buffer is always taken.
    #[verifier::loop_isolation(false)]
    pub fn write(&mut self, buf: &[u8]) -> (r: Result<usize, ()>)
        ensures
            final(self)@ == old(self)@ + buf@,
            r == Ok::<usize, ()>(buf@.len() as usize),
    {
        let mut i: usize = 0;
        while i < buf.len()
            invariant
                0 <= i <= buf@.len(),
                self@ =~= old(self)@ + buf@.subrange(0, i as int),
            decreases buf@.len() - i,
        {
            self.buffer.push(buf[i]);
            proof {
                assert(self@ =~= old(self)@ + buf@.subrange(0, i + 1));
            }
            i += 1;
        }
        proof {
            assert(buf@.subrange(0, buf@.len() as int) =~= buf@);
            assert(self@ =~= old(self)@ + buf@);
        }
        Ok(buf.len())
    }

    /// Do nothing.
    pub fn flush(&mut self) -> (r: Result<(), ()>)
        ensures
            final(self)@ == old(self)@,
            r is Ok,
    {
        Ok(())
    }

    /// Compare the stored bytes against a byte slice.
    #[verifier::loop_isolation(false)]
    pub fn eq_bytes(&self, other: &[u8]) -> (r: bool)
        ensures
            r == (self@ == other@),
    {
        if self.buffer.len() != other.len() {
            return false;
        }
        let mut i: usize = 0;
        while i < other.len()
            invariant
                0 <= i <= other@.len(),
                self@.len() == other@.len(),
                forall|k: int| 0 <= k < i ==> self@[k] == other@[k],
            decreases other@.len() - i,
        {
            if self.buffer[i] != other[i] {
                return false;
            }
            i += 1;
        }
        proof {
            assert(self@ =~= other@);
        }
        true
    }
}

impl PartialEq for MemoryFile {
    /// Two memory files are equal when they hold the same bytes.
    fn eq(&self, other: &MemoryFile) -> (r: bool) {
        self.eq_bytes(other.buffer.as_slice())
    }
}

impl vstd::std_specs::cmp::PartialEqSpecImpl for MemoryFile {
    open spec fn obeys_eq_spec() -> bool {
        true
    }

    open spec fn eq_spec(&self, other: &MemoryFile) -> bool {
        self@ == other@
    }
}

impl PartialEq<&str> for MemoryFile {
    /// A memory file equals a string when it holds the string's bytes.
    fn eq(&self, other: &&str) -> (r: bool) {
        self.eq_bytes(other.as_bytes())
    }
}

impl vstd::std_specs::cmp::PartialEqSpecImpl<&str> for MemoryFile {
    open spec fn obeys_eq_spec() -> bool {
        true
    }

    open spec fn eq_spec(&self, other: &&str) -> bool {
        self@ == vstd::string::StringSliceAdditionalSpecFns::spec_bytes(*other)
    }
}

impl PartialEq<&[u8]> for MemoryFile {
    /// A memory file equals a byte slice when it holds the same bytes.
    fn eq(&self, other: &&[u8]) -> (r: bool) {
        self.eq_bytes(other)
    }
}

impl vstd::std_specs::cmp::PartialEqSpecImpl<&[u8]> for MemoryFile {
    open spec fn obeys_eq_spec() -> bool {
        true
    }

    open spec fn eq_spec(&self, other: &&[u8]) -> bool {
        self@ == (*other)@
    }
}

} // verus!
