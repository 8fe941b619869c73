//! The resource store: named byte buffers for shader sources.
//!
//! This is the decidable half of resource loading - which name maps to which
//! bytes, and whether those bytes can be handed on as a C string.  Walking
//! the file system to fill the store is the calling program's business; the
//! store itself only answers lookups.

use vstd::prelude::*;
use vstd::string::StrSliceExecFns;

verus! {

/// Why a resource could not be served.
#[derive(Clone, Copy, PartialEq, Eq, Structural, Debug)]
pub enum Error {
    /// No resource of the requested name exists.
    NotFound,
    /// The resource holds an interior NUL byte, so it cannot be passed on
    /// as a C string.
    FileContainsNil,
}

/// One named resource.
pub struct ResourceEntry {
    pub name: String,
    pub data: Vec<u8>,
}

/// An in-memory store of named resources.
pub struct Resources {
    pub entries: Vec<ResourceEntry>,
}

/// The bytes stored under `name`: the first entry with that name wins.
pub open spec fn spec_lookup(entries: Seq<ResourceEntry>, name: Seq<char>) -> Option<Seq<u8>>
    decreases entries.len(),
{
    if entries.len() == 0 {
        None
    } else if entries[0].name@ == name {
        Some(entries[0].data@)
    } else {
        spec_lookup(entries.skip(1), name)
    }
}

/// Entries whose names all miss do not affect a lookup.
pub proof fn lemma_lookup_skip(entries: Seq<ResourceEntry>, name: Seq<char>, j: int)
    requires
        0 <= j <= entries.len(),
        forall|k: int| 0 <= k < j ==> (#[trigger] entries[k]).name@ != name,
    ensures
        spec_lookup(entries, name) == spec_lookup(entries.skip(j), name),
    decreases j,
{
    if j == 0 {
        assert(entries.skip(0) =~= entries);
    } else {
        lemma_lookup_skip(entries, name, j - 1);
        let t = entries.skip(j - 1);
        assert(t[0] == entries[j - 1]);
        assert(t[0].name@ != name);
        assert(t.skip(1) =~= entries.skip(j));
        assert(spec_lookup(t, name) == spec_lookup(entries.skip(j), name));
    }
}

impl Resources {
    /// The bytes stored under `name`, if any.
    pub open spec fn lookup(self, name: Seq<char>) -> Option<Seq<u8>> {
        spec_lookup(self.entries@, name)
    }

    /// An empty store: every lookup misses.
    pub fn new() -> (res: Resources)
        ensures
            res.entries@ == Seq::<ResourceEntry>::empty(),
            forall|n: Seq<char>| res.lookup(n) is None,
    {
        Resources { entries: Vec::new() }
    }

    /// Adds a resource to the store.  An earlier entry of the same name
    /// keeps priority.
    pub fn insert(&mut self, name: String, data: Vec<u8>)
        ensures
            final(self).entries@.len() == old(self).entries@.len() + 1,
            forall|k: int|
                0 <= k < old(self).entries@.len() ==> final(self).entries@[k] == old(
                    self,
                ).entries@[k],
            final(self).entries@[old(self).entries@.len() as int].name@ == name@,
            final(self).entries@[old(self).entries@.len() as int].data@ == data@,
    {
        self.entries.push(ResourceEntry { name, data });
    }

    /// Serves a resource as C-string text: the bytes of the first entry of
    /// that name, which must be free of interior NUL bytes.
    pub fn load_cstring(&self, resource_name: &str) -> (r: Result<Vec<u8>, Error>)
        ensures
            match r {
                Ok(data) => self.lookup(resource_name@) == Some(data@) && !data@.contains(0u8),
                Err(Error::NotFound) => self.lookup(resource_name@) is None,
                Err(Error::FileContainsNil) => self.lookup(resource_name@) is Some && self.lookup(
                    resource_name@,
                )->Some_0.contains(0u8),
            },
    {
        let n = self.entries.len();
        let mut i: usize = 0;
        while i < n
            invariant
                i <= n,
                n == self.entries@.len(),
                forall|k: int| 0 <= k < i ==> (#[trigger] self.entries@[k]).name@ != resource_name@,
            decreases n - i,
        {
            if str_eq(self.entries[i].name.as_str(), resource_name) {
                proof {
                    lemma_lookup_skip(self.entries@, resource_name@, i as int);
                    assert(self.entries@.skip(i as int)[0] == self.entries@[i as int]);
                    assert(self.lookup(resource_name@) == Some(self.entries@[i as int].data@));
                }
                let data = &self.entries[i].data;
                if has_nul(data) {
                    return Err(Error::FileContainsNil);
                }
                return Ok(copy_bytes(data));
            }
            i = i + 1;
        }
        proof {
            lemma_lookup_skip(self.entries@, resource_name@, n as int);
            assert(self.entries@.skip(n as int) =~= Seq::<ResourceEntry>::empty());
        }
        Err(Error::NotFound)
    }
}

/// Character-for-character equality of two string slices.
fn str_eq(a: &str, b: &str) -> (r: bool)
    ensures
        r == (a@ == b@),
{
    let na = a.unicode_len();
    let nb = b.unicode_len();
    if na != nb {
        return false;
    }
    let mut i: usize = 0;
    while i < na
        invariant
            i <= na,
            na == a@.len(),
            nb == b@.len(),
            na == nb,
            forall|k: int| 0 <= k < i ==> a@[k] == b@[k],
        decreases na - i,
    {
        if a.get_char(i) != b.get_char(i) {
            return false;
        }
        i = i + 1;
    }
    proof {
        assert(a@ =~= b@);
    }
    true
}

/// Does the buffer hold a NUL byte?
fn has_nul(data: &Vec<u8>) -> (r: bool)
    ensures
        r == data@.contains(0u8),
{
    let mut k: usize = 0;
    while k < data.len()
        invariant
            k <= data@.len(),
            forall|m: int| 0 <= m < k ==> data@[m] != 0u8,
        decreases data@.len() - k,
    {
        if data[k] == 0 {
            return true;
        }
        k = k + 1;
    }
    false
}

/// Byte-for-byte copy of a buffer.
fn copy_bytes(src: &Vec<u8>) -> (out: Vec<u8>)
    ensures
        out@ == src@,
{
    let mut out: Vec<u8> = Vec::new();
    let mut k: usize = 0;
    while k < src.len()
        invariant
            k <= src@.len(),
            out@ == src@.subrange(0, k as int),
        decreases src@.len() - k,
    {
        out.push(src[k]);
        k = k + 1;
    }
    proof {
        assert(out@ =~= src@);
    }
    out
}

} // verus!
