//! One partition of the store.
//!
//! What a partition holds lives in the engine, on disk, and is shared by all
//! the handles to it, so no contract here says what a read will find. Each
//! contract says instead which question the engine was asked, and how its
//! answer becomes the result. The predicates named `engine_..` stand for the
//! questions: `self.engine_got(key, raw)` reads "`raw` is an answer that the
//! engine gave when this partition was asked for the value under `key`". An
//! answer is known only from asking: nothing else makes such a predicate
//! true, and two answers to one question may differ.
use crate::batch::{writes_of, DbBatch};
use crate::codec::{decode_record, decoded_from, encode_record, encoded_as};
use crate::engine::{
    batch_writes, iter_floor, iter_step, open_tree, tree_apply_batch, tree_contains_key,
    tree_flush, tree_get, tree_insert, tree_is_empty, tree_iter,
};
use crate::error::{
    apply_mapped, apply_outcome, decode_mapped, decode_outcome, encode_outcome, io_mapped,
    io_outcome, key_outcome, open_outcome, DbError, KeyError,
};
use crate::order::{bytes_lt, entries_ascend, lemma_bytes_lt_transitive, reads_ascend};
use crate::types::{DbKey, DbTrees};
use std::sync::Arc;
use vstd::prelude::*;
use vstd::string::to_string_from_display_ensures;

verus! {

/// A handle to one partition of the store. Handles are cheap to copy, and all
/// handles to one partition see the same entries.
#[derive(Clone)]
pub struct DbTree {
    pub tree: sled::Tree,
}

/// What a typed lookup makes of a raw one: the bytes that were found, and an
/// error where the key holds nothing.
pub open spec fn stored(found: Result<Option<Vec<u8>>, DbError>) -> Result<Vec<u8>, DbError> {
    match found {
        Ok(Some(bytes)) => Ok(bytes),
        Ok(None) => Err(DbError::MissingValue),
        Err(e) => Err(e),
    }
}

/// What a typed lookup makes of a raw one: the bytes that were found, and an
/// error where the key holds nothing.
pub fn stored_value(found: Result<Option<Vec<u8>>, DbError>) -> (value: Result<Vec<u8>, DbError>)
    ensures
        value == stored(found),
{
    match found {
        Ok(Some(bytes)) => Ok(bytes),
        Ok(None) => Err(DbError::MissingValue),
        Err(e) => Err(e),
    }
}

/// `reads` are the reads of a pass that yielded `entries` and then ended as
/// `end` says: the entries one for one and in their order, followed, where a
/// read failed, by that failure as `Io` with the engine's own words.
pub open spec fn pass_reads(
    entries: Seq<(Vec<u8>, Vec<u8>)>,
    end: Option<sled::Error>,
    reads: Seq<Result<(Vec<u8>, Vec<u8>), DbError>>,
) -> bool {
    &&& reads.len() == entries.len() + (if end is Some {
        1int
    } else {
        0int
    })
    &&& forall|i: int|
        0 <= i < entries.len() ==> #[trigger] reads[i] == Ok::<(Vec<u8>, Vec<u8>), DbError>(entries[i])
    &&& end matches Some(cause) ==> reads[entries.len() as int] matches Err(DbError::Io(reason))
        && to_string_from_display_ensures(&cause, reason)
}

/// What the engine's iterator answers where a pass ends as `end` says: that
/// nothing is left, or the read that failed.
pub open spec fn last_answer(end: Option<sled::Error>) -> Option<Result<(Vec<u8>, Vec<u8>), sled::Error>> {
    match end {
        None => None,
        Some(cause) => Some(Err(cause)),
    }
}

/// The reads of a pass whose entries ascend ascend too, and the only failure
/// among them is an `Io` at the end.
proof fn lemma_pass_reads_ascend(
    entries: Seq<(Vec<u8>, Vec<u8>)>,
    end: Option<sled::Error>,
    reads: Seq<Result<(Vec<u8>, Vec<u8>), DbError>>,
)
    requires
        entries_ascend(entries),
        pass_reads(entries, end, reads),
    ensures
        reads_ascend(reads),
        forall|i: int| 0 <= i < reads.len() ==> (#[trigger] reads[i] matches Err(e) ==> e is Io),
{
    assert forall|i: int, j: int|
        #![trigger reads[i], reads[j]]
        0 <= i < j < reads.len() && reads[i] is Ok && reads[j] is Ok implies bytes_lt(
        reads[i]->Ok_0.0@,
        reads[j]->Ok_0.0@,
    ) by {
        assert(j < entries.len());
        assert(reads[i] == Ok::<(Vec<u8>, Vec<u8>), DbError>(entries[i]));
        assert(reads[j] == Ok::<(Vec<u8>, Vec<u8>), DbError>(entries[j]));
    }
}

/// An entry whose key lies above the last key of ascending entries keeps them
/// ascending.
proof fn lemma_push_above(entries: Seq<(Vec<u8>, Vec<u8>)>, entry: (Vec<u8>, Vec<u8>))
    requires
        entries_ascend(entries),
        entries.len() > 0 ==> bytes_lt(entries.last().0@, entry.0@),
    ensures
        entries_ascend(entries.push(entry)),
{
    let longer = entries.push(entry);
    assert forall|i: int, j: int|
        #![trigger longer[i], longer[j]]
        0 <= i < j < longer.len() implies bytes_lt(longer[i].0@, longer[j].0@) by {
        if j == entries.len() {
            if i < entries.len() - 1 {
                assert(bytes_lt(entries[i].0@, entries[entries.len() - 1].0@));
                lemma_bytes_lt_transitive(entries[i].0@, entries.last().0@, entry.0@);
            }
        } else {
            assert(bytes_lt(entries[i].0@, entries[j].0@));
        }
    }
}

impl DbTree {
    /// `raw` is what the engine answered when the store behind `db` was asked
    /// for the partition of that name.
    pub closed spec fn engine_opened(db: &sled::Db, name: &str, raw: Result<sled::Tree, sled::Error>) -> bool {
        call_ensures(open_tree, (db, name), raw)
    }

    /// From `start`, the engine's iterator yielded `entries`, one step for
    /// each and no other step between them, and stood at `now` after them.
    pub closed spec fn engine_yielded(
        start: sled::Iter,
        entries: Seq<(Vec<u8>, Vec<u8>)>,
        now: sled::Iter,
    ) -> bool
        decreases entries.len(),
    {
        if entries.len() == 0 {
            now == start
        } else {
            exists|before: sled::Iter|
                DbTree::engine_yielded(start, entries.drop_last(), before) && #[trigger] call_ensures(
                    iter_step,
                    (before,),
                    (Some(Ok::<(Vec<u8>, Vec<u8>), sled::Error>(entries.last())), now),
                )
        }
    }

    /// A pass of the engine over this partition, begun anew, yielded
    /// `entries` and then ended as `end` says: `None`, the engine's iterator
    /// had nothing left; a failure, the next read failed with it.
    pub closed spec fn engine_passed(&self, entries: Seq<(Vec<u8>, Vec<u8>)>, end: Option<sled::Error>) -> bool {
        exists|start: sled::Iter, last: sled::Iter, after: sled::Iter|
            #![trigger DbTree::engine_yielded(start, entries, last), call_ensures(iter_step, (last,), (last_answer(end), after))]
            call_ensures(tree_iter, (&self.tree,), start) && DbTree::engine_yielded(start, entries, last)
                && call_ensures(iter_step, (last,), (last_answer(end), after))
    }

    /// `empty` is what the engine answered when it was asked whether this
    /// partition holds nothing.
    pub closed spec fn engine_found_empty(&self, empty: bool) -> bool {
        call_ensures(tree_is_empty, (&self.tree,), empty)
    }

    /// `raw` is what the engine answered when it was asked whether this
    /// partition holds a value under `key`.
    pub closed spec fn engine_has(&self, key: &[u8], raw: Result<bool, sled::Error>) -> bool {
        call_ensures(tree_contains_key, (&self.tree, key), raw)
    }

    /// `raw` is what the engine answered when it was asked to flush this
    /// partition.
    pub closed spec fn engine_flushed(&self, raw: Result<usize, sled::Error>) -> bool {
        call_ensures(tree_flush, (&self.tree,), raw)
    }

    /// `raw` is what the engine answered when it was asked for the value that
    /// this partition holds under `key`.
    pub closed spec fn engine_got(&self, key: &[u8], raw: Result<Option<Vec<u8>>, sled::Error>) -> bool {
        call_ensures(tree_get, (&self.tree, key), raw)
    }

    /// `raw` is what the engine answered when it was asked to write `data`
    /// under `key` in this partition: the value that the key held before, or
    /// a failure.
    pub closed spec fn engine_wrote(
        &self,
        key: &[u8],
        data: Vec<u8>,
        raw: Result<Option<Vec<u8>>, sled::Error>,
    ) -> bool {
        call_ensures(tree_insert, (&self.tree, key, data), raw)
    }

    /// `raw` is what the engine answered when it was asked to apply the
    /// batch `handed` to this partition.
    pub closed spec fn engine_applied(&self, handed: sled::Batch, raw: Result<(), sled::Error>) -> bool {
        call_ensures(tree_apply_batch, (&self.tree, handed), raw)
    }

    /// Opens the partition of the given name, which is created if the store
    /// has none of that name.
    ///
    /// The engine is asked for the partition of exactly that name. The handle
    /// it answers with is the one returned; its failure is returned as
    /// `EngineOpen`.
    pub fn open(db: &sled::Db, tree: DbTrees) -> (opened: Result<Arc<DbTree>, DbError>)
        ensures
            exists|name: &str, raw: Result<sled::Tree, sled::Error>|
                name@ == tree.name() && #[trigger] DbTree::engine_opened(db, name, raw) && match raw {
                    Ok(handle) => opened matches Ok(partition) && partition.tree == handle,
                    Err(cause) => opened matches Err(DbError::EngineOpen(reason))
                        && to_string_from_display_ensures(&cause, reason),
                },
            opened matches Err(e) ==> e is EngineOpen,
    {
        let name = tree.str();
        let raw = open_tree(db, name);
        assert(DbTree::engine_opened(db, name, raw));
        match open_outcome(raw) {
            Ok(tree) => Ok(Arc::new(DbTree { tree })),
            Err(e) => Err(e),
        }
    }

    /// The number of entries that the partition holds: the number that one
    /// pass over it yields before it ends or a read fails.
    pub fn len(&self) -> (len: usize)
        ensures
            exists|entries: Seq<(Vec<u8>, Vec<u8>)>, end: Option<sled::Error>| #[trigger]
                self.engine_passed(entries, end) && len == entries.len(),
    {
        let reads = self.iter();
        let ghost (entries, end) = choose|entries: Seq<(Vec<u8>, Vec<u8>)>, end: Option<sled::Error>| #[trigger]
            self.engine_passed(entries, end) && pass_reads(entries, end, reads@);
        let read = reads.len();
        if read > 0 && reads[read - 1].is_err() {
            assert(entries.len() == read - 1) by {
                if end is None {
                    assert(reads@[read - 1] == Ok::<(Vec<u8>, Vec<u8>), DbError>(entries[read - 1]));
                }
            }
            read - 1
        } else {
            assert(entries.len() == read);
            read
        }
    }

    /// Whether the partition holds no entry, as the engine answers.
    pub fn is_empty(&self) -> (empty: bool)
        ensures
            self.engine_found_empty(empty),
    {
        tree_is_empty(&self.tree)
    }

    /// One pass over the partition, in the order of its keys. Each call makes
    /// a pass of its own.
    ///
    /// The pass ends where the engine's iterator has nothing left, and also
    /// at the first read that fails: that failure stands last among the
    /// reads, as `Io`, and nothing is read after it. The entries before it
    /// are those that the engine's iterator yielded, one for one and in their
    /// order.
    pub fn iter(&self) -> (reads: Vec<Result<(Vec<u8>, Vec<u8>), DbError>>)
        ensures
            exists|entries: Seq<(Vec<u8>, Vec<u8>)>, end: Option<sled::Error>| #[trigger]
                self.engine_passed(entries, end) && pass_reads(entries, end, reads@),
            reads_ascend(reads@),
            forall|i: int| 0 <= i < reads.len() ==> (#[trigger] reads[i] matches Err(e) ==> e is Io),
    {
        let start = tree_iter(&self.tree);
        let ghost begun = start;
        let mut it = start;
        let mut reads: Vec<Result<(Vec<u8>, Vec<u8>), DbError>> = Vec::new();
        let ghost mut entries: Seq<(Vec<u8>, Vec<u8>)> = Seq::empty();
        loop
            invariant
                call_ensures(tree_iter, (&self.tree,), begun),
                DbTree::engine_yielded(begun, entries, it),
                pass_reads(entries, None, reads@),
                entries_ascend(entries),
                match iter_floor(it) {
                    Some(floor) => entries.len() > 0 && floor == entries.last().0@,
                    None => entries.len() == 0,
                },
            decreases usize::MAX - reads.len(),
        {
            let ghost before = it;
            let (answer, after) = iter_step(it);
            assert(call_ensures(iter_step, (before,), (answer, after)));
            it = after;
            let read = match answer {
                Some(read) => read,
                None => {
                    proof {
                        assert(last_answer(None) == answer);
                        assert(self.engine_passed(entries, None));
                        lemma_pass_reads_ascend(entries, None, reads@);
                    }
                    return reads;
                },
            };
            let ghost yielded = entries;
            let ghost answered = read;
            let failed = read.is_err();
            proof {
                if answered is Ok {
                    lemma_push_above(entries, answered->Ok_0);
                    entries = entries.push(answered->Ok_0);
                    assert(entries.drop_last() =~= yielded);
                }
            }
            reads.push(io_outcome(read));
            if failed {
                proof {
                    let end = Some(answered->Err_0);
                    assert(last_answer(end) == answer);
                    assert(self.engine_passed(entries, end));
                    lemma_pass_reads_ascend(entries, end, reads@);
                }
                return reads;
            }
        }
    }

    /// Whether the partition holds a value under the key: the engine's
    /// answer for this key, or its failure as `Io`.
    pub fn contains_key(&self, key: &[u8]) -> (found: Result<bool, DbError>)
        ensures
            exists|raw: Result<bool, sled::Error>| #[trigger]
                self.engine_has(key, raw) && io_mapped(raw, found),
            found matches Err(e) ==> e is Io,
    {
        let raw = tree_contains_key(&self.tree, key);
        assert(self.engine_has(key, raw));
        io_outcome(raw)
    }

    /// Makes what was written to the partition durable, and returns the
    /// number of bytes that this wrote: the engine's answer to the flush, or
    /// its failure as `Io`.
    pub fn flush(&self) -> (flushed: Result<usize, DbError>)
        ensures
            exists|raw: Result<usize, sled::Error>| #[trigger]
                self.engine_flushed(raw) && io_mapped(raw, flushed),
            flushed matches Err(e) ==> e is Io,
    {
        let raw = tree_flush(&self.tree);
        assert(self.engine_flushed(raw));
        io_outcome(raw)
    }

    /// Hands all of the batch to the partition in one step.
    ///
    /// The engine is handed a batch that holds the writes of the pending
    /// pairs, for each key the value inserted last. The result is the
    /// engine's answer to that batch, its failure as `Apply`. Whatever the
    /// engine answers, the batch is empty afterwards.
    pub fn apply_batch(&self, batch: &mut DbBatch) -> (applied: Result<(), DbError>)
        ensures
            final(batch)@ =~= Seq::empty(),
            exists|handed: sled::Batch, raw: Result<(), sled::Error>|
                batch_writes(handed) == writes_of(old(batch)@) && #[trigger] self.engine_applied(
                    handed,
                    raw,
                ) && apply_mapped(raw, applied),
            applied matches Err(e) ==> e is Apply,
    {
        let handed = batch.take_inner();
        let ghost writes = handed;
        let raw = tree_apply_batch(&self.tree, handed);
        assert(self.engine_applied(writes, raw));
        apply_outcome(raw)
    }

    /// Derives the record's key, encodes the record and writes it under the
    /// key. Returns the value that the key held before.
    ///
    /// A record without a key is refused as `KeyDerivation` before anything
    /// is encoded or written; one that cannot be encoded is refused as
    /// `Serialization` before anything is written. Else the engine is asked
    /// to write the encoder's bytes under the derived key, and the result is
    /// its answer: the value that the key held before, or its failure as
    /// `Io`.
    pub fn insert<T>(&self, value: &T) -> (previous: Result<Option<Vec<u8>>, DbError>) where
        T: borsh::BorshSerialize + DbKey,

        ensures
            exists|derived: Result<&[u8], KeyError>| #[trigger]
                call_ensures(T::key, (value,), derived) && match derived {
                    Ok(key) => exists|encoded: Result<Vec<u8>, std::io::Error>| #[trigger]
                        encoded_as(value, encoded) && match encoded {
                            Ok(data) => exists|raw: Result<Option<Vec<u8>>, sled::Error>| #[trigger]
                                self.engine_wrote(key, data, raw) && io_mapped(raw, previous),
                            Err(cause) => previous matches Err(DbError::Serialization(reason))
                                && to_string_from_display_ensures(&cause, reason),
                        },
                    Err(cause) => previous == Err::<Option<Vec<u8>>, DbError>(
                        DbError::KeyDerivation(cause.reason),
                    ),
                },
    {
        let derived = value.key();
        assert(call_ensures(T::key, (value,), derived));
        let key = key_outcome(derived)?;
        let encoded = encode_record(value);
        let data = encode_outcome(encoded)?;
        let ghost written = data;
        let raw = tree_insert(&self.tree, key, data);
        assert(self.engine_wrote(key, written, raw));
        io_outcome(raw)
    }

    /// The bytes stored under the key, or `None` where the key holds nothing:
    /// the engine's answer for this key, or its failure as `Io`.
    pub fn get(&self, key: &[u8]) -> (value: Result<Option<Vec<u8>>, DbError>)
        ensures
            exists|raw: Result<Option<Vec<u8>>, sled::Error>| #[trigger]
                self.engine_got(key, raw) && io_mapped(raw, value),
            value matches Err(e) ==> e is Io,
    {
        let raw = tree_get(&self.tree, key);
        assert(self.engine_got(key, raw));
        io_outcome(raw)
    }

    /// Reads the value under the key and decodes it as a `T`.
    ///
    /// The record is what decoding gives of the bytes that `get` finds under
    /// this key. Where `get` fails, its error is returned; where the key
    /// holds nothing, `MissingValue`; where the bytes do not decode,
    /// `Decode`.
    pub fn deserialize<T>(&self, key: &[u8]) -> (record: Result<T, DbError>) where
        T: borsh::BorshDeserialize,

        ensures
            exists|found: Result<Option<Vec<u8>>, DbError>| #[trigger]
                call_ensures(DbTree::get, (self, key), found) && match stored(found) {
                    Ok(bytes) => exists|raw: Result<T, std::io::Error>| #[trigger]
                        decoded_from(bytes@, raw) && decode_mapped(raw, record),
                    Err(e) => record == Err::<T, DbError>(e),
                },
            record matches Err(e) ==> e is Io || e is MissingValue || e is Decode,
    {
        let found = self.get(key);
        assert(call_ensures(DbTree::get, (self, key), found));
        let bytes = match stored_value(found) {
            Ok(bytes) => bytes,
            Err(e) => {
                return Err(e);
            },
        };
        let raw = decode_record::<T>(bytes.as_slice());
        decode_outcome(raw)
    }
}

} // verus!
