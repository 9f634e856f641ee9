//! What a record must offer to be stored, and how partitions are named.
use crate::engine::reserved_tree_name;
use crate::error::KeyError;
use vstd::prelude::*;

verus! {

/// The capability a record needs to be stored: it yields the bytes under which
/// it is written and later found again.
///
/// The same record must always derive the same bytes. A record that cannot
/// derive a key reports why, and never answers with a placeholder.
///
/// The trait demands nothing of `key` that could be checked here. A type may
/// state in its own `ensures` what its `key` returns; the inserts then say of
/// such a record under which key it was written.
pub trait DbKey {
    /// The key of the value being stored.
    fn key(&self) -> Result<&[u8], KeyError>;
}

/// The name of one partition of the store. Two of them are equal where their
/// names are.
#[derive(Debug, Clone, Copy, Hash)]
pub enum DbTrees<'a> {
    Custom(&'a str),
}

impl<'a> PartialEq for DbTrees<'a> {
    fn eq(&self, other: &Self) -> (equal: bool) {
        proof {
            vstd::utf8::encode_utf8_decode_utf8(self.name());
            vstd::utf8::encode_utf8_decode_utf8(other.name());
        }
        same_bytes(self.str().as_bytes(), other.str().as_bytes())
    }
}

impl<'a> vstd::std_specs::cmp::PartialEqSpecImpl for DbTrees<'a> {
    open spec fn obeys_eq_spec() -> bool {
        true
    }

    open spec fn eq_spec(&self, other: &Self) -> bool {
        self.name() == other.name()
    }
}

impl<'a> Eq for DbTrees<'a> {}

impl<'a> DbTrees<'a> {
    /// The partition's name.
    pub open spec fn name(&self) -> Seq<char> {
        match self {
            DbTrees::Custom(tree_key) => tree_key@,
        }
    }

    /// The partition's name.
    pub fn str(&self) -> (s: &str)
        ensures
            s@ == self.name(),
    {
        match self {
            DbTrees::Custom(tree_key) => tree_key,
        }
    }

    /// The partition's name as an owned string.
    pub fn to_string(&self) -> (s: String)
        ensures
            s@ == self.name(),
    {
        self.str().to_owned()
    }
}

/// Whether two byte strings are the same.
fn same_bytes(a: &[u8], b: &[u8]) -> (same: bool)
    ensures
        same == (a@ == b@),
{
    if a.len() != b.len() {
        return false;
    }
    let mut i: usize = 0;
    while i < a.len()
        invariant
            a.len() == b.len(),
            i <= a.len(),
            forall|k: int| 0 <= k < i ==> a[k] == b[k],
        decreases a.len() - i,
    {
        if a[i] != b[i] {
            return false;
        }
        i = i + 1;
    }
    assert(a@ =~= b@);
    true
}

/// Whether `name` is the name of the partition that the engine keeps for
/// itself, which is never removed.
pub fn is_reserved_name(name: &[u8]) -> (reserved: bool)
    ensures
        reserved == (name@ == reserved_tree_name()),
{
    same_bytes(name, "__sled__default".as_bytes())
}

} // verus!
