//! The storage engine as the rest of the library sees it: its types, what its
//! configuration holds, and one small function for each call into it. Nothing
//! in this file is proved; every contract here restates the engine's source.
use crate::order::bytes_lt;
use vstd::prelude::*;
use vstd::string::StringSliceAdditionalSpecFns;

verus! {

/// `sled::Config`: how the engine is to be opened. What it holds is known
/// only through `config_settings`.
#[verifier::external_type_specification]
#[verifier::external_body]
pub struct ExConfig(sled::Config);

/// `sled::Mode`: the engine's two modes, `LowSpace` and `HighThroughput`.
#[verifier::external_type_specification]
pub struct ExMode(sled::Mode);

/// `sled::Db`: a handle to an opened store.
#[verifier::external_type_specification]
#[verifier::external_body]
pub struct ExDb(sled::Db);

/// `sled::Tree`: a handle to one partition. Nothing is said here of what a
/// partition holds: it lives on disk and is shared by all its handles.
#[verifier::external_type_specification]
#[verifier::external_body]
pub struct ExTree(sled::Tree);

/// `sled::Batch`: writes that wait to be applied. What it holds is known only
/// through `batch_writes`.
#[verifier::external_type_specification]
#[verifier::external_body]
pub struct ExBatch(sled::Batch);

/// `sled::IVec`: the bytes of a key or a value as the engine hands them out.
/// The library copies them into a `Vec<u8>` at once; the type is declared
/// because the items of `sled::Iter` are made of it.
#[verifier::external_type_specification]
#[verifier::external_body]
pub struct ExIVec(sled::IVec);

/// `sled::Iter`: an iterator over a partition. Of its state only the bound
/// named by `iter_floor` is known.
#[verifier::external_type_specification]
#[verifier::external_body]
pub struct ExIter(sled::Iter);

/// `sled::Error`: a failure of the engine.
#[verifier::external_type_specification]
#[verifier::external_body]
pub struct ExError(sled::Error);

/// The settings of an engine configuration: the public fields of
/// `sled::config::Inner`. The six that this library sets come first; the
/// others it leaves as the engine made them.
///
/// Two things that a configuration also holds are left out, because they are
/// no settings: the path that the engine draws from the clock for a
/// temporary store, and the slot in which a running store keeps its first
/// fatal error.
pub struct ConfigSettings {
    pub path: Seq<char>,
    pub cache_capacity: u64,
    pub use_compression: bool,
    pub compression_factor: i32,
    pub mode: sled::Mode,
    pub print_profile_on_drop: bool,
    pub flush_every_ms: Option<u64>,
    pub segment_size: usize,
    pub create_new: bool,
    pub temporary: bool,
    pub idgen_persist_interval: u64,
    pub version: (usize, usize),
}

/// What a configuration holds in the fields that `ConfigSettings` lists.
pub uninterp spec fn config_settings(c: sled::Config) -> ConfigSettings;

/// The settings of a configuration that was only given a path: the engine's
/// defaults, as `Default for sled::config::Inner` sets them.
pub open spec fn default_settings(path: Seq<char>) -> ConfigSettings {
    ConfigSettings {
        path,
        cache_capacity: 1_073_741_824,
        use_compression: false,
        compression_factor: 5,
        mode: sled::Mode::LowSpace,
        print_profile_on_drop: false,
        flush_every_ms: Some(500),
        segment_size: 524_288,
        create_new: false,
        temporary: false,
        idgen_persist_interval: 1_000_000,
        version: (0, 34),
    }
}

/// `sled::Config::new` followed by `sled::Config::path`: a configuration with
/// the engine's defaults and the given path. The two calls stand together
/// because `path` panics on a configuration that is shared, and a new one is
/// not.
#[verifier::external_body]
pub(crate) fn new_config(path: &str) -> (c: sled::Config)
    ensures
        config_settings(c) == default_settings(path@),
{
    sled::Config::new().path(path)
}

/// `sled::Config::cache_capacity`: sets the page cache's size in bytes and
/// leaves the other settings as they were.
#[verifier::external_body]
pub(crate) fn with_cache_capacity(c: sled::Config, to: u64) -> (r: sled::Config)
    ensures
        config_settings(r) == (ConfigSettings { cache_capacity: to, ..config_settings(c) }),
{
    c.cache_capacity(to)
}

/// `sled::Config::use_compression`: switches compression on or off and leaves
/// the other settings as they were.
#[verifier::external_body]
pub(crate) fn with_compression(c: sled::Config, to: bool) -> (r: sled::Config)
    ensures
        config_settings(r) == (ConfigSettings { use_compression: to, ..config_settings(c) }),
{
    c.use_compression(to)
}

/// `sled::Config::compression_factor`: sets the compression factor and leaves
/// the other settings as they were.
#[verifier::external_body]
pub(crate) fn with_compression_factor(c: sled::Config, to: i32) -> (r: sled::Config)
    ensures
        config_settings(r) == (ConfigSettings { compression_factor: to, ..config_settings(c) }),
{
    c.compression_factor(to)
}

/// `sled::Config::mode`: sets the space/throughput mode and leaves the other
/// settings as they were.
#[verifier::external_body]
pub(crate) fn with_mode(c: sled::Config, to: sled::Mode) -> (r: sled::Config)
    ensures
        config_settings(r) == (ConfigSettings { mode: to, ..config_settings(c) }),
{
    c.mode(to)
}

/// `sled::Config::print_profile_on_drop`: sets whether profiling statistics
/// are printed when the store is closed, and leaves the other settings as
/// they were.
#[verifier::external_body]
pub(crate) fn with_profile_on_drop(c: sled::Config, to: bool) -> (r: sled::Config)
    ensures
        config_settings(r) == (ConfigSettings { print_profile_on_drop: to, ..config_settings(c) }),
{
    c.print_profile_on_drop(to)
}

/// `sled::Config::open`: opens the store that the configuration describes.
#[verifier::external_body]
pub(crate) fn open_db(config: &sled::Config) -> (opened: Result<sled::Db, sled::Error>) {
    config.open()
}

/// The name under which the engine keeps its own default partition
/// (`DEFAULT_TREE_ID` in the engine's source).
pub open spec fn reserved_tree_name() -> Seq<u8> {
    "__sled__default".spec_bytes()
}

/// `sled::Db::open_tree`: a handle to the partition of that name, which is
/// created if it does not exist.
#[verifier::external_body]
pub(crate) fn open_tree(db: &sled::Db, name: &str) -> (opened: Result<sled::Tree, sled::Error>) {
    db.open_tree(name)
}

/// `sled::Db::tree_names`: the names of the partitions that the store holds.
#[verifier::external_body]
pub(crate) fn tree_names(db: &sled::Db) -> (names: Vec<Vec<u8>>) {
    db.tree_names().iter().map(|name| name.to_vec()).collect()
}

/// `sled::Db::drop_tree`: removes a partition, and says whether there was one
/// of that name. The engine refuses to remove its own default partition;
/// this library never asks it to.
#[verifier::external_body]
pub(crate) fn drop_tree(db: &sled::Db, name: &[u8]) -> (dropped: Result<bool, sled::Error>)
    requires
        name@ != reserved_tree_name(),
{
    db.drop_tree(name)
}

/// `Deref for sled::Db`: the store's default partition.
#[verifier::external_body]
pub(crate) fn default_tree(db: &sled::Db) -> (tree: &sled::Tree) {
    db
}

/// `Clone for sled::Db`: another handle to the same store.
pub assume_specification[ <sled::Db as Clone>::clone ](db: &sled::Db) -> (handle: sled::Db)
;

/// `Clone for sled::Tree`: another handle to the same partition.
pub assume_specification[ <sled::Tree as Clone>::clone ](tree: &sled::Tree) -> (handle: sled::Tree)
;

/// `sled::Tree::is_empty`: whether a pass over the partition finds nothing.
#[verifier::external_body]
pub(crate) fn tree_is_empty(tree: &sled::Tree) -> (empty: bool) {
    tree.is_empty()
}

/// What an iterator holds as the exclusive lower bound of the keys that it
/// yields next (`Bound::Excluded` in the field `lo` of `sled::Iter`); `None`
/// where it holds no such bound.
pub uninterp spec fn iter_floor(it: sled::Iter) -> Option<Seq<u8>>;

/// `sled::Tree::iter`: an iterator over the whole partition. It starts with
/// an inclusive lower bound, the empty key, so it excludes no key yet.
#[verifier::external_body]
pub(crate) fn tree_iter(tree: &sled::Tree) -> (it: sled::Iter)
    ensures
        iter_floor(it) is None,
{
    tree.iter()
}

/// `Iterator::next` of `sled::Iter`: one step of a pass, returned together
/// with the iterator after the step.
///
/// Where the step yields an entry, its key lies above the bound that the
/// iterator excluded before, in the order of bytes, and the iterator makes
/// that key the exclusive lower bound of what follows (`Iter::next_inner`).
/// Of a step that fails or ends the pass nothing is said.
#[verifier::external_body]
pub(crate) fn iter_step(it: sled::Iter) -> (stepped: (
    Option<Result<(Vec<u8>, Vec<u8>), sled::Error>>,
    sled::Iter,
))
    ensures
        stepped.0 matches Some(Ok(entry)) ==> iter_floor(stepped.1) == Some(entry.0@) && (iter_floor(it)
            matches Some(floor) ==> bytes_lt(floor, entry.0@)),
{
    let mut it = it;
    let read = it.next().map(|read| read.map(|(key, value)| (key.to_vec(), value.to_vec())));
    (read, it)
}

/// `sled::Tree::contains_key`: whether the partition holds a value under the
/// key.
#[verifier::external_body]
pub(crate) fn tree_contains_key(tree: &sled::Tree, key: &[u8]) -> (found: Result<bool, sled::Error>) {
    tree.contains_key(key)
}

/// `sled::Tree::flush`: makes what was written durable, and says how many
/// bytes that took.
#[verifier::external_body]
pub(crate) fn tree_flush(tree: &sled::Tree) -> (flushed: Result<usize, sled::Error>) {
    tree.flush()
}

/// `sled::Tree::get`: the value that the partition holds under the key.
#[verifier::external_body]
pub(crate) fn tree_get(tree: &sled::Tree, key: &[u8]) -> (value: Result<Option<Vec<u8>>, sled::Error>) {
    tree.get(key).map(|found| found.map(|value| value.to_vec()))
}

/// `sled::Tree::insert`: writes the value under the key, and returns the
/// value that the partition held there before.
#[verifier::external_body]
pub(crate) fn tree_insert(tree: &sled::Tree, key: &[u8], value: Vec<u8>) -> (previous: Result<
    Option<Vec<u8>>,
    sled::Error,
>) {
    tree.insert(key, value).map(|found| found.map(|value| value.to_vec()))
}

/// `sled::Tree::apply_batch`: writes all of a batch to the partition in one
/// step.
#[verifier::external_body]
pub(crate) fn tree_apply_batch(tree: &sled::Tree, batch: sled::Batch) -> (applied: Result<(), sled::Error>) {
    tree.apply_batch(batch)
}

/// What a batch holds: for each key that was written to it, the value to
/// store (`None` where the key is to be removed).
pub uninterp spec fn batch_writes(batch: sled::Batch) -> Map<Seq<u8>, Option<Seq<u8>>>;

/// A write-set that holds nothing.
pub open spec fn no_writes() -> Map<Seq<u8>, Option<Seq<u8>>> {
    Map::empty()
}

/// `Default for sled::Batch`: a batch that holds nothing.
#[verifier::external_body]
pub(crate) fn new_batch() -> (batch: sled::Batch)
    ensures
        batch_writes(batch) == no_writes(),
{
    sled::Batch::default()
}

/// `Clone for sled::Batch`: a batch that holds the same writes.
pub assume_specification[ <sled::Batch as Clone>::clone ](batch: &sled::Batch) -> (copy: sled::Batch)
    ensures
        batch_writes(copy) == batch_writes(*batch),
;

/// `sled::Batch::insert`: sets the key to the value in the batch, in place of
/// what the batch held for that key.
#[verifier::external_body]
pub(crate) fn batch_insert(batch: &mut sled::Batch, key: &[u8], value: Vec<u8>)
    ensures
        batch_writes(*final(batch)) == batch_writes(*old(batch)).insert(key@, Some(value@)),
{
    batch.insert(key, value)
}

} // verus!
