//! A batch: writes that are gathered first and handed to a partition in one
//! step.
use crate::codec::{encode_record, encoded_as};
use crate::engine::{batch_insert, batch_writes, new_batch, no_writes};
use crate::error::{encode_outcome, key_outcome, DbError, KeyError};
use crate::types::DbKey;
use vstd::prelude::*;
use vstd::string::to_string_from_display_ensures;

verus! {

/// The write-set that a sequence of inserts leaves: for each key the value
/// that was inserted last.
pub open spec fn writes_of(pending: Seq<(Seq<u8>, Seq<u8>)>) -> Map<Seq<u8>, Option<Seq<u8>>>
    decreases pending.len(),
{
    if pending.len() == 0 {
        no_writes()
    } else {
        writes_of(pending.drop_last()).insert(pending.last().0, Some(pending.last().1))
    }
}

/// Writes that wait to be applied to a partition.
///
/// The view of a batch is the sequence of the pairs of key and encoded value
/// that were inserted since the batch was made or last applied, oldest first.
pub struct DbBatch {
    batch: sled::Batch,
    count: u64,
    pending: Ghost<Seq<(Seq<u8>, Seq<u8>)>>,
}

impl View for DbBatch {
    type V = Seq<(Seq<u8>, Seq<u8>)>;

    closed spec fn view(&self) -> Seq<(Seq<u8>, Seq<u8>)> {
        self.pending@
    }
}

impl DbBatch {
    /// The batch counts its inserts, and the engine's batch inside it holds
    /// what they left.
    #[verifier::type_invariant]
    spec fn wf(&self) -> bool {
        &&& self.count == self.pending@.len()
        &&& batch_writes(self.batch) == writes_of(self.pending@)
    }

    /// A batch that holds nothing.
    pub fn new() -> (batch: DbBatch)
        ensures
            batch@ =~= Seq::empty(),
    {
        DbBatch { batch: new_batch(), count: 0, pending: Ghost(Seq::empty()) }
    }

    /// Derives the record's key, encodes the record and adds the pair to the
    /// batch. Nothing is written to any partition.
    ///
    /// The insert succeeds exactly where the record derives a key and the
    /// encoder gives its bytes: the pair of that key and those bytes is then
    /// added. A record without a key is refused as `KeyDerivation`, one that
    /// cannot be encoded as `Serialization`, and either leaves the batch as
    /// it was. Where the record's type states what `key` returns, a caller
    /// knows under which key the pair was added.
    pub fn insert<T>(&mut self, value: &T) -> (inserted: Result<(), DbError>) where
        T: borsh::BorshSerialize + DbKey,

        requires
            old(self)@.len() < u64::MAX,
        ensures
            exists|derived: Result<&[u8], KeyError>| #[trigger]
                call_ensures(T::key, (value,), derived) && match derived {
                    Ok(key) => exists|encoded: Result<Vec<u8>, std::io::Error>| #[trigger]
                        encoded_as(value, encoded) && match encoded {
                            Ok(data) => inserted is Ok && final(self)@ == old(self)@.push((key@, data@)),
                            Err(cause) => inserted matches Err(DbError::Serialization(reason))
                                && to_string_from_display_ensures(&cause, reason) && final(self)@
                                == old(self)@,
                        },
                    Err(cause) => inserted == Err::<(), DbError>(DbError::KeyDerivation(cause.reason))
                        && final(self)@ == old(self)@,
                },
    {
        let derived = value.key();
        assert(call_ensures(T::key, (value,), derived));
        let key = key_outcome(derived)?;
        let encoded = encode_record(value);
        let data = encode_outcome(encoded)?;
        self.insert_entry(key, data);
        Ok(())
    }

    /// Adds a key and an encoded value to the batch.
    pub fn insert_entry(&mut self, key: &[u8], data: Vec<u8>)
        requires
            old(self)@.len() < u64::MAX,
        ensures
            final(self)@ == old(self)@.push((key@, data@)),
    {
        proof {
            use_type_invariant(&*self);
        }
        // The count and the writes change together: the batch is taken out,
        // changed, and put back whole.
        let mut taken = DbBatch::new();
        std::mem::swap(self, &mut taken);
        let DbBatch { batch: mut batch, count, pending } = taken;
        let ghost entry = (key@, data@);
        batch_insert(&mut batch, key, data);
        assert(pending@.push(entry).drop_last() =~= pending@);
        *self = DbBatch { batch, count: count + 1, pending: Ghost(pending@.push(entry)) };
    }

    /// returns the inner batch, and should only be used when the batch object
    /// is finished with and the batch needs to be applied, as it leaves an
    /// empty batch in its place
    pub fn take_inner(&mut self) -> (taken: sled::Batch)
        ensures
            batch_writes(taken) == writes_of(old(self)@),
            final(self)@ =~= Seq::empty(),
    {
        proof {
            use_type_invariant(&*self);
        }
        let mut taken = DbBatch::new();
        std::mem::swap(self, &mut taken);
        taken.batch
    }

    /// The engine's batch inside this one, which holds what the inserts left.
    pub fn inner(&self) -> (batch: &sled::Batch)
        ensures
            batch_writes(*batch) == writes_of(self@),
    {
        proof {
            use_type_invariant(self);
        }
        &self.batch
    }

    /// The number of inserts since the batch was made or last applied.
    pub fn count(&self) -> (count: u64)
        ensures
            count == self@.len(),
    {
        proof {
            use_type_invariant(self);
        }
        self.count
    }
}

impl Clone for DbBatch {
    fn clone(&self) -> (copy: DbBatch)
        ensures
            copy@ == self@,
    {
        proof {
            use_type_invariant(self);
        }
        DbBatch { batch: self.batch.clone(), count: self.count, pending: Ghost(self.pending@) }
    }
}

impl Default for DbBatch {
    fn default() -> (batch: DbBatch)
        ensures
            batch@ =~= Seq::empty(),
    {
        DbBatch::new()
    }
}

/// No two of the pairs share a key.
pub open spec fn keys_differ(pending: Seq<(Seq<u8>, Seq<u8>)>) -> bool {
    forall|i: int, j: int|
        #![trigger pending[i], pending[j]]
        0 <= i < j < pending.len() ==> pending[i].0 != pending[j].0
}

/// Whether one of the pairs has this key.
pub open spec fn has_key(pending: Seq<(Seq<u8>, Seq<u8>)>, key: Seq<u8>) -> bool {
    exists|i: int| 0 <= i < pending.len() && (#[trigger] pending[i]).0 == key
}

/// A write-set holds a write for exactly the keys that were inserted, and
/// never more writes than there were inserts.
pub proof fn lemma_writes_cover_inserted_keys(pending: Seq<(Seq<u8>, Seq<u8>)>)
    ensures
        forall|key: Seq<u8>| #[trigger] writes_of(pending).dom().contains(key) <==> has_key(pending, key),
        forall|key: Seq<u8>| #[trigger] writes_of(pending).dom().contains(key) ==> writes_of(pending)[key] is Some,
        writes_of(pending).dom().finite(),
        writes_of(pending).dom().len() <= pending.len(),
    decreases pending.len(),
{
    if pending.len() > 0 {
        let before = pending.drop_last();
        let last = pending.last();
        lemma_writes_cover_inserted_keys(before);
        assert forall|key: Seq<u8>| #[trigger]
            writes_of(pending).dom().contains(key) <==> has_key(pending, key) by {
            if has_key(pending, key) {
                let i = choose|i: int| 0 <= i < pending.len() && (#[trigger] pending[i]).0 == key;
                if i < pending.len() - 1 {
                    assert(before[i].0 == key);
                }
            }
            if writes_of(pending).dom().contains(key) {
                if key == last.0 {
                    assert(pending[pending.len() - 1].0 == key);
                } else {
                    let i = choose|i: int| 0 <= i < before.len() && (#[trigger] before[i]).0 == key;
                    assert(pending[i].0 == key);
                }
            }
        }
    }
}

/// Inserts under keys that all differ leave one write for each of them, with
/// the value that was inserted under the key.
pub proof fn lemma_distinct_keys_all_pending(pending: Seq<(Seq<u8>, Seq<u8>)>)
    requires
        keys_differ(pending),
    ensures
        writes_of(pending).dom().finite(),
        writes_of(pending).dom().len() == pending.len(),
        forall|i: int|
            0 <= i < pending.len() ==> writes_of(pending)[(#[trigger] pending[i]).0] == Some(pending[i].1),
    decreases pending.len(),
{
    if pending.len() > 0 {
        let before = pending.drop_last();
        let last = pending.last();
        assert(keys_differ(before)) by {
            assert forall|i: int, j: int|
                #![trigger before[i], before[j]]
                0 <= i < j < before.len() implies before[i].0 != before[j].0 by {
                assert(pending[i].0 != pending[j].0);
            }
        }
        lemma_distinct_keys_all_pending(before);
        lemma_writes_cover_inserted_keys(before);
        assert(!writes_of(before).dom().contains(last.0)) by {
            if has_key(before, last.0) {
                let i = choose|i: int| 0 <= i < before.len() && (#[trigger] before[i]).0 == last.0;
                assert(pending[i].0 != pending[pending.len() - 1].0);
            }
        }
        assert forall|i: int| 0 <= i < pending.len() implies writes_of(pending)[(#[trigger] pending[i]).0]
            == Some(pending[i].1) by {
            if i < pending.len() - 1 {
                assert(before[i] == pending[i]);
                assert(pending[i].0 != pending[pending.len() - 1].0);
            }
        }
    }
}

/// An insert under a key replaces what the batch held for that key: the
/// write-set then holds the new value there, and where it held a write for
/// the key before, it holds no more writes than before.
pub proof fn lemma_last_insert_wins(pending: Seq<(Seq<u8>, Seq<u8>)>, key: Seq<u8>, data: Seq<u8>)
    ensures
        writes_of(pending.push((key, data)))[key] == Some(data),
        forall|other: Seq<u8>|
            other != key ==> writes_of(pending.push((key, data))).dom().contains(other)
                == writes_of(pending).dom().contains(other) && writes_of(pending.push((key, data)))[other]
                == writes_of(pending)[other],
        has_key(pending, key) ==> writes_of(pending.push((key, data))).dom() == writes_of(pending).dom(),
{
    assert(pending.push((key, data)).drop_last() =~= pending);
    lemma_writes_cover_inserted_keys(pending);
    if has_key(pending, key) {
        assert(writes_of(pending.push((key, data))).dom() =~= writes_of(pending).dom());
    }
}

/// A batch that was applied cannot be told from a new one: both count no
/// inserts and hold no writes, and the same inserts leave the same in both.
pub proof fn lemma_applied_batch_is_fresh(
    applied: DbBatch,
    fresh: DbBatch,
    inserts: Seq<(Seq<u8>, Seq<u8>)>,
)
    requires
        applied@ =~= Seq::empty(),
        fresh@ =~= Seq::empty(),
    ensures
        applied@ == fresh@,
        applied@.len() == 0,
        writes_of(applied@) == no_writes(),
        applied@ + inserts == fresh@ + inserts,
        applied@ + inserts == inserts,
{
    assert(applied@ + inserts =~= inserts);
    assert(fresh@ + inserts =~= inserts);
}

} // verus!
