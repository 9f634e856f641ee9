//! The order in which a partition keeps its keys, and what it means for a
//! listing to follow it.
use vstd::prelude::*;

verus! {

/// `a` comes before `b` in the engine's key order: bytes are compared from the
/// front, and a proper prefix comes before what extends it.
pub open spec fn bytes_lt(a: Seq<u8>, b: Seq<u8>) -> bool
    decreases a.len(),
{
    if b.len() == 0 {
        false
    } else if a.len() == 0 {
        true
    } else if a[0] != b[0] {
        a[0] < b[0]
    } else {
        bytes_lt(a.drop_first(), b.drop_first())
    }
}

/// Of what a pass over a partition yielded, the entries that could be read
/// come with strictly ascending keys, whatever failed in between.
pub open spec fn reads_ascend<E>(reads: Seq<Result<(Vec<u8>, Vec<u8>), E>>) -> bool {
    forall|i: int, j: int|
        #![trigger reads[i], reads[j]]
        0 <= i < j < reads.len() && reads[i] is Ok && reads[j] is Ok ==> bytes_lt(
            reads[i]->Ok_0.0@,
            reads[j]->Ok_0.0@,
        )
}

/// The entries come with strictly ascending keys.
pub open spec fn entries_ascend(entries: Seq<(Vec<u8>, Vec<u8>)>) -> bool {
    forall|i: int, j: int|
        #![trigger entries[i], entries[j]]
        0 <= i < j < entries.len() ==> bytes_lt(entries[i].0@, entries[j].0@)
}

/// The entry that a read yielded, if it yielded one.
pub open spec fn read_entry<E>(read: Result<(Vec<u8>, Vec<u8>), E>) -> Option<(Vec<u8>, Vec<u8>)> {
    match read {
        Ok(entry) => Some(entry),
        Err(_) => None,
    }
}

/// The entries among `reads`, in the order in which they were read.
pub open spec fn readable<E>(reads: Seq<Result<(Vec<u8>, Vec<u8>), E>>) -> Seq<(Vec<u8>, Vec<u8>)> {
    reads.filter_map(|read: Result<(Vec<u8>, Vec<u8>), E>| read_entry(read))
}

/// No key comes before itself.
pub proof fn lemma_bytes_lt_irreflexive(a: Seq<u8>)
    ensures
        !bytes_lt(a, a),
    decreases a.len(),
{
    if a.len() > 0 {
        lemma_bytes_lt_irreflexive(a.drop_first());
    }
}

/// Of two keys that differ, one comes before the other.
pub proof fn lemma_bytes_lt_total(a: Seq<u8>, b: Seq<u8>)
    ensures
        a == b || bytes_lt(a, b) || bytes_lt(b, a),
    decreases a.len(),
{
    if a.len() > 0 && b.len() > 0 && a[0] == b[0] {
        lemma_bytes_lt_total(a.drop_first(), b.drop_first());
        if a.drop_first() == b.drop_first() {
            assert(a =~= seq![a[0]] + a.drop_first());
            assert(b =~= seq![b[0]] + b.drop_first());
        }
    } else if a.len() == 0 && b.len() == 0 {
        assert(a =~= b);
    }
}

/// What comes before a key comes before everything that the key comes before.
pub proof fn lemma_bytes_lt_transitive(a: Seq<u8>, b: Seq<u8>, c: Seq<u8>)
    requires
        bytes_lt(a, b),
        bytes_lt(b, c),
    ensures
        bytes_lt(a, c),
    decreases a.len(),
{
    if a.len() > 0 && a[0] == b[0] && b[0] == c[0] {
        lemma_bytes_lt_transitive(a.drop_first(), b.drop_first(), c.drop_first());
    }
}

/// Every readable entry stands in `reads`, and a later readable entry stands
/// later in `reads`.
proof fn lemma_readable_positions<E>(reads: Seq<Result<(Vec<u8>, Vec<u8>), E>>) -> (at: Seq<int>)
    ensures
        at.len() == readable(reads).len(),
        forall|k: int|
            0 <= k < at.len() ==> 0 <= #[trigger] at[k] < reads.len() && reads[at[k]] == Ok::<
                (Vec<u8>, Vec<u8>),
                E,
            >(readable(reads)[k]),
        forall|k: int, l: int| 0 <= k < l < at.len() ==> #[trigger] at[k] < #[trigger] at[l],
    decreases reads.len(),
{
    if reads.len() == 0 {
        Seq::empty()
    } else {
        let before = lemma_readable_positions(reads.drop_last());
        match reads.last() {
            Ok(entry) => before.push(reads.len() - 1),
            Err(_) => before,
        }
    }
}

/// Dropping the failed reads keeps the order: if the reads ascend, so do the
/// entries among them.
pub proof fn lemma_readable_ascend<E>(reads: Seq<Result<(Vec<u8>, Vec<u8>), E>>)
    requires
        reads_ascend(reads),
    ensures
        entries_ascend(readable(reads)),
{
    let at = lemma_readable_positions(reads);
    let entries = readable(reads);
    assert forall|i: int, j: int|
        #![trigger entries[i], entries[j]]
        0 <= i < j < entries.len() implies bytes_lt(entries[i].0@, entries[j].0@) by {
        assert(at[i] < at[j]);
        assert(reads[at[i]] is Ok && reads[at[j]] is Ok);
    }
}

/// Entries with ascending keys hold no key twice.
pub proof fn lemma_ascending_keys_differ(entries: Seq<(Vec<u8>, Vec<u8>)>, i: int, j: int)
    requires
        entries_ascend(entries),
        0 <= i < entries.len(),
        0 <= j < entries.len(),
        i != j,
    ensures
        entries[i].0@ != entries[j].0@,
{
    lemma_bytes_lt_irreflexive(entries[i].0@);
    if i < j {
        assert(bytes_lt(entries[i].0@, entries[j].0@));
    } else {
        assert(bytes_lt(entries[j].0@, entries[i].0@));
    }
}

} // verus!
