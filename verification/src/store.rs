//! The store: the handle from which partitions are opened, listed, flushed
//! and removed.
//!
//! As for a partition, the contracts here say which question the engine was
//! asked and how its answer becomes the result; the predicates named
//! `engine_..` stand for the questions.
use crate::config::DbOpts;
use crate::engine::{
    config_settings, default_tree, drop_tree, open_db, reserved_tree_name, tree_flush, tree_names,
};
use crate::error::{drop_mapped, drop_outcome, io_mapped, io_outcome, open_outcome, DbError};
use crate::order::{entries_ascend, lemma_readable_ascend, read_entry, readable};
use crate::tree::DbTree;
use crate::types::{is_reserved_name, DbTrees};
use std::sync::Arc;
use vstd::prelude::*;
use vstd::string::to_string_from_display_ensures;

verus! {

/// The handle to an opened store. Handles are cheap to copy, and all of them
/// reach the same store.
#[derive(Clone)]
pub struct Database {
    db: sled::Db,
}

/// What became of one partition that was to be removed.
#[derive(Debug)]
pub struct DropReport {
    /// The partition's name.
    pub name: Vec<u8>,
    /// Whether the engine held a partition of that name and removed it, or
    /// why it could not.
    pub outcome: Result<bool, DbError>,
}

/// The names among `names` that may be removed: all but the engine's own, in
/// the order given.
pub open spec fn removable(names: Seq<Vec<u8>>) -> Seq<Vec<u8>> {
    names.filter(|name: Vec<u8>| name@ != reserved_tree_name())
}

/// The names that the reports are about, in their order.
pub open spec fn reported_names(reports: Seq<DropReport>) -> Seq<Vec<u8>> {
    reports.map_values(|report: DropReport| report.name)
}

/// Every failure that the reports hold is a failure to remove a partition.
pub open spec fn drop_failures_only(reports: Seq<DropReport>) -> bool {
    forall|i: int|
        0 <= i < reports.len() ==> (#[trigger] reports[i].outcome matches Err(e) ==> e is PartitionDrop)
}

/// The entries among what a pass over a partition yielded. Reads that failed
/// are left out without a trace.
pub fn decoded_entries(reads: Vec<Result<(Vec<u8>, Vec<u8>), DbError>>) -> (entries: Vec<
    (Vec<u8>, Vec<u8>),
>)
    ensures
        entries@ == readable(reads@),
{
    let mut entries: Vec<(Vec<u8>, Vec<u8>)> = Vec::new();
    let ghost keep = |read: Result<(Vec<u8>, Vec<u8>), DbError>| read_entry(read);
    for read in it: reads.into_iter()
        invariant
            it.seq() == reads@,
            keep == |read: Result<(Vec<u8>, Vec<u8>), DbError>| read_entry(read),
            entries@ == reads@.take(it.index() as int).filter_map(keep),
    {
        proof {
            reads@.lemma_filter_map_take_succ(keep, it.index() as int);
        }
        if let Ok(entry) = read {
            entries.push(entry);
        }
    }
    assert(reads@.take(reads@.len() as int) =~= reads@);
    entries
}

impl Database {
    /// The engine's handle to the store.
    pub closed spec fn handle(&self) -> sled::Db {
        self.db
    }

    /// `raw` is what the engine answered when it was asked to open the store
    /// that `config` describes.
    pub closed spec fn engine_started(config: &sled::Config, raw: Result<sled::Db, sled::Error>) -> bool {
        call_ensures(open_db, (config,), raw)
    }

    /// `raw` is what the engine answered when it was asked to flush this
    /// store.
    pub closed spec fn engine_flushed(&self, raw: Result<usize, sled::Error>) -> bool {
        exists|tree: &sled::Tree| #[trigger]
            call_ensures(default_tree, (&self.db,), tree) && call_ensures(tree_flush, (tree,), raw)
    }

    /// `handle` is a copy that the engine made of this store's handle.
    pub closed spec fn engine_cloned(&self, handle: sled::Db) -> bool {
        call_ensures(<sled::Db as Clone>::clone, (&self.db,), handle)
    }

    /// `names` are the names that the engine gave when it was asked which
    /// partitions this store holds.
    pub closed spec fn engine_listed(&self, names: Vec<Vec<u8>>) -> bool {
        call_ensures(tree_names, (&self.db,), names)
    }

    /// `raw` is what the engine answered when it was asked to remove the
    /// partition of that name from this store.
    pub closed spec fn engine_dropped(&self, name: Seq<u8>, raw: Result<bool, sled::Error>) -> bool {
        exists|slice: &[u8]| slice@ == name && #[trigger] call_ensures(drop_tree, (&self.db, slice), raw)
    }

    /// The engine was asked to remove the partition that the report names,
    /// and the report's outcome is its answer: whether there was such a
    /// partition, or the failure as `PartitionDrop`.
    pub open spec fn report_answered(&self, report: DropReport) -> bool {
        exists|raw: Result<bool, sled::Error>| #[trigger]
            self.engine_dropped(report.name@, raw) && drop_mapped(raw, report.outcome)
    }

    /// Of each report: the engine was asked to remove the partition that it
    /// names, whatever it had answered for the others, and the outcome is
    /// its answer.
    pub open spec fn reports_answered(&self, reports: Seq<DropReport>) -> bool {
        forall|i: int| 0 <= i < reports.len() ==> self.report_answered(#[trigger] reports[i])
    }

    /// returns a new sled database
    ///
    /// The engine is asked to open a configuration that holds exactly the
    /// settings that the options stand for. The handle it answers with is the
    /// one that the store holds; its failure is returned as `EngineOpen`.
    pub fn new(cfg: &DbOpts) -> (opened: Result<Arc<Database>, DbError>)
        ensures
            exists|config: sled::Config, raw: Result<sled::Db, sled::Error>|
                config_settings(config) == cfg.settings() && #[trigger] Database::engine_started(
                    &config,
                    raw,
                ) && match raw {
                    Ok(db) => opened matches Ok(store) && store.handle() == db,
                    Err(cause) => opened matches Err(DbError::EngineOpen(reason))
                        && to_string_from_display_ensures(&cause, reason),
                },
            opened matches Err(e) ==> e is EngineOpen,
    {
        let sled_config = cfg.engine_config();
        let raw = open_db(&sled_config);
        assert(Database::engine_started(&sled_config, raw));
        match open_outcome(raw) {
            Ok(db) => Ok(Arc::new(Database { db })),
            Err(e) => Err(e),
        }
    }

    /// opens the given database tree
    ///
    /// The result is that of `DbTree::open` on this store's handle and the
    /// given name.
    pub fn open_tree(self: &Arc<Self>, tree: DbTrees) -> (opened: Result<Arc<DbTree>, DbError>)
        ensures
            call_ensures(DbTree::open, (&self.handle(), tree), opened),
            opened matches Err(e) ==> e is EngineOpen,
    {
        DbTree::open(&self.db, tree)
    }

    /// opens the given db tree, return a vector of (key, value)
    ///
    /// The partition is opened as `open_tree` opens it; where that fails, its
    /// error is returned. Else the entries are those among the reads of one
    /// pass over the partition, as `DbTree::iter` makes it, in their order.
    pub fn list_values(self: &Arc<Self>, tree: DbTrees) -> (listed: Result<
        Vec<(Vec<u8>, Vec<u8>)>,
        DbError,
    >)
        ensures
            exists|opened: Result<Arc<DbTree>, DbError>| #[trigger]
                call_ensures(Database::open_tree, (self, tree), opened) && match opened {
                    Ok(partition) => exists|reads: Vec<Result<(Vec<u8>, Vec<u8>), DbError>>| #[trigger]
                        call_ensures(DbTree::iter, (&*partition,), reads) && listed is Ok
                            && listed->Ok_0@ == readable(reads@),
                    Err(e) => listed == Err::<Vec<(Vec<u8>, Vec<u8>)>, DbError>(e),
                },
            match listed {
                Ok(entries) => entries_ascend(entries@),
                Err(e) => e is EngineOpen,
            },
    {
        let opened = self.open_tree(tree);
        assert(call_ensures(Database::open_tree, (self, tree), opened));
        let partition = match opened {
            Ok(partition) => partition,
            Err(e) => {
                return Err(e);
            },
        };
        let reads = partition.iter();
        assert(call_ensures(DbTree::iter, (&*partition,), reads));
        proof {
            lemma_readable_ascend(reads@);
        }
        Ok(decoded_entries(reads))
    }

    /// flushes the database
    ///
    /// Returns the engine's answer to the flush, the number of bytes
    /// written, or its failure as `Io`.
    pub fn flush(self: &Arc<Self>) -> (flushed: Result<usize, DbError>)
        ensures
            exists|raw: Result<usize, sled::Error>| #[trigger]
                self.engine_flushed(raw) && io_mapped(raw, flushed),
            flushed matches Err(e) ==> e is Io,
    {
        let tree = default_tree(&self.db);
        let raw = tree_flush(tree);
        assert(call_ensures(default_tree, (&self.db,), tree) && call_ensures(tree_flush, (tree,), raw));
        assert(self.engine_flushed(raw));
        io_outcome(raw)
    }

    /// returns a clone of the inner database
    pub fn inner(self: &Arc<Self>) -> (handle: sled::Db)
        ensures
            self.engine_cloned(handle),
    {
        self.db.clone()
    }

    /// destroys all trees except the default tree
    ///
    /// The engine is asked which partitions the store holds, and each of
    /// them but the engine's own is removed as `drop_trees` removes it. A
    /// partition that cannot be removed does not keep the others from being
    /// removed; the reports say what became of each.
    pub fn destroy(self: &Arc<Self>) -> (reports: Vec<DropReport>)
        ensures
            exists|names: Vec<Vec<u8>>| #[trigger]
                self.engine_listed(names) && call_ensures(Database::drop_trees, (self, names), reports)
                    && reported_names(reports@) == removable(names@),
            self.reports_answered(reports@),
            forall|i: int| 0 <= i < reports.len() ==> (#[trigger] reports[i]).name@ != reserved_tree_name(),
            drop_failures_only(reports@),
    {
        let names = tree_names(&self.db);
        assert(self.engine_listed(names));
        let reports = self.drop_trees(names);
        assert(call_ensures(Database::drop_trees, (self, names), reports));
        proof {
            let keep = |name: Vec<u8>| name@ != reserved_tree_name();
            assert forall|i: int| 0 <= i < reports.len() implies (#[trigger] reports[i]).name@
                != reserved_tree_name() by {
                assert(reported_names(reports@)[i] == reports[i].name);
                names@.lemma_filter_pred(keep, i);
            }
        }
        reports
    }

    /// Removes the partitions of the given names, but never the engine's own:
    /// that name is passed over.
    ///
    /// For each other name, in the order given, the engine is asked to remove
    /// the partition, also after it has failed to remove another, and its
    /// answer stands in the report of that name.
    pub fn drop_trees(self: &Arc<Self>, names: Vec<Vec<u8>>) -> (reports: Vec<DropReport>)
        ensures
            reported_names(reports@) == removable(names@),
            self.reports_answered(reports@),
            drop_failures_only(reports@),
    {
        let mut reports: Vec<DropReport> = Vec::new();
        let ghost keep = |name: Vec<u8>| name@ != reserved_tree_name();
        for name in it: names.into_iter()
            invariant
                it.seq() == names@,
                keep == |name: Vec<u8>| name@ != reserved_tree_name(),
                reported_names(reports@) == names@.take(it.index() as int).filter(keep),
                self.reports_answered(reports@),
                drop_failures_only(reports@),
        {
            proof {
                let i = it.index() as int;
                assert(names@.take(i + 1) =~= names@.take(i).push(names@[i]));
                names@.take(i).lemma_filter_push(names@[i], keep);
            }
            if !is_reserved_name(name.as_slice()) {
                let raw = drop_tree(&self.db, name.as_slice());
                assert(self.engine_dropped(name@, raw));
                let ghost answer = raw;
                let outcome = drop_outcome(raw);
                let ghost before = reports@;
                let ghost report = DropReport { name, outcome };
                reports.push(DropReport { name, outcome });
                assert(reported_names(reports@) =~= reported_names(before).push(name));
                assert forall|i: int| 0 <= i < reports.len() implies self.report_answered(
                    #[trigger] reports[i],
                ) by {
                    if i < before.len() {
                        assert(self.report_answered(before[i]));
                    } else {
                        assert(reports[i] == report);
                        assert(self.engine_dropped(report.name@, answer) && drop_mapped(
                            answer,
                            report.outcome,
                        ));
                    }
                }
            }
        }
        assert(names@.take(names@.len() as int) =~= names@);
        reports
    }
}

} // verus!
