use borsh::BorshSerialize;
use typed_db::config::DbOpts;
use typed_db::tree::stored_value;
use typed_db::types::{DbKey, DbTrees};
use typed_db::{Database, DbBatch, DbError, KeyError};

struct Entry {
    key: Vec<u8>,
    value: u32,
}

impl BorshSerialize for Entry {
    fn serialize<W: borsh::io::Write>(&self, writer: &mut W) -> borsh::io::Result<()> {
        BorshSerialize::serialize(&self.value, writer)
    }
}

impl DbKey for Entry {
    fn key(&self) -> Result<&[u8], KeyError> {
        Ok(&self.key)
    }
}

/// A record that has no key.
struct Keyless;

impl BorshSerialize for Keyless {
    fn serialize<W: borsh::io::Write>(&self, _writer: &mut W) -> borsh::io::Result<()> {
        Ok(())
    }
}

impl DbKey for Keyless {
    fn key(&self) -> Result<&[u8], KeyError> {
        Err(KeyError { reason: "no id".to_string() })
    }
}

/// A record that cannot be encoded.
struct Unwritable;

impl BorshSerialize for Unwritable {
    fn serialize<W: borsh::io::Write>(&self, _writer: &mut W) -> borsh::io::Result<()> {
        Err(borsh::io::Error::new(borsh::io::ErrorKind::Other, "refused"))
    }
}

impl DbKey for Unwritable {
    fn key(&self) -> Result<&[u8], KeyError> {
        Ok(b"unwritable")
    }
}

fn open(name: &str) -> std::sync::Arc<Database> {
    let opts = DbOpts { path: format!("/tmp/typed_db_batch_{}.db", name), ..DbOpts::default() };
    let db = Database::new(&opts).unwrap();
    db.destroy();
    db
}

#[test]
fn new_batch_is_empty() {
    assert_eq!(DbBatch::new().count(), 0);
    assert_eq!(DbBatch::default().count(), 0);
}

#[test]
fn count_is_the_number_of_inserts() {
    let mut batch = DbBatch::new();
    batch.insert(&Entry { key: vec![1], value: 10 }).unwrap();
    assert_eq!(batch.count(), 1);
    batch.insert(&Entry { key: vec![2], value: 20 }).unwrap();
    assert_eq!(batch.count(), 2);
    batch.insert(&Entry { key: vec![1], value: 30 }).unwrap();
    assert_eq!(batch.count(), 3);
    batch.insert_entry(&[3], vec![0, 0, 0, 0]);
    assert_eq!(batch.count(), 4);
}

#[test]
fn batch_insert_writes_nothing_until_applied() {
    let db = open("pending");
    let tree = db.open_tree(DbTrees::Custom("pending")).unwrap();
    let mut batch = DbBatch::new();
    batch.insert(&Entry { key: vec![7], value: 7 }).unwrap();
    assert_eq!(tree.len(), 0);
    assert_eq!(tree.get(&[7]).unwrap(), None);
    tree.apply_batch(&mut batch).unwrap();
    assert_eq!(tree.get(&[7]).unwrap(), Some(vec![7, 0, 0, 0]));
    db.destroy();
}

#[test]
fn insert_entry_writes_the_given_bytes_under_the_given_key() {
    let db = open("entries");
    let tree = db.open_tree(DbTrees::Custom("entries")).unwrap();
    let mut batch = DbBatch::new();
    batch.insert_entry(b"k1", vec![1, 2, 3]);
    batch.insert_entry(b"k2", vec![]);
    batch.insert_entry(b"k1", vec![9]);
    assert_eq!(batch.count(), 3);
    tree.apply_batch(&mut batch).unwrap();
    assert_eq!(tree.len(), 2);
    assert_eq!(tree.get(b"k1").unwrap(), Some(vec![9]));
    assert_eq!(tree.get(b"k2").unwrap(), Some(vec![]));
    db.destroy();
}

#[test]
fn record_without_key_is_refused_before_any_write() {
    let db = open("keyless");
    let tree = db.open_tree(DbTrees::Custom("keyless")).unwrap();
    let mut batch = DbBatch::new();
    assert_eq!(batch.insert(&Keyless), Err(DbError::KeyDerivation("no id".to_string())));
    assert_eq!(batch.count(), 0);
    assert_eq!(tree.insert(&Keyless), Err(DbError::KeyDerivation("no id".to_string())));
    assert_eq!(tree.len(), 0);
    db.destroy();
}

#[test]
fn record_that_cannot_be_encoded_is_refused() {
    let db = open("unwritable");
    let tree = db.open_tree(DbTrees::Custom("unwritable")).unwrap();
    let mut batch = DbBatch::new();
    assert!(matches!(batch.insert(&Unwritable), Err(DbError::Serialization(_))));
    assert_eq!(batch.count(), 0);
    tree.apply_batch(&mut batch).unwrap();
    assert!(matches!(tree.insert(&Unwritable), Err(DbError::Serialization(_))));
    assert_eq!(tree.len(), 0);
    assert_eq!(tree.contains_key(b"unwritable"), Ok(false));
    db.destroy();
}

#[test]
fn taken_batch_holds_the_writes_and_leaves_none() {
    let db = open("taken");
    let tree = db.open_tree(DbTrees::Custom("taken")).unwrap();
    let mut batch = DbBatch::new();
    batch.insert(&Entry { key: vec![1], value: 1 }).unwrap();
    batch.insert(&Entry { key: vec![2], value: 2 }).unwrap();
    tree.tree.apply_batch(batch.inner().clone()).unwrap();
    assert_eq!(tree.len(), 2);
    assert_eq!(batch.count(), 2);

    let other = db.open_tree(DbTrees::Custom("taken_other")).unwrap();
    let taken = batch.take_inner();
    assert_eq!(batch.count(), 0);
    other.tree.apply_batch(taken).unwrap();
    assert_eq!(other.len(), 2);
    assert_eq!(other.get(&[2]).unwrap(), Some(vec![2, 0, 0, 0]));

    let third = db.open_tree(DbTrees::Custom("taken_third")).unwrap();
    third.tree.apply_batch(batch.take_inner()).unwrap();
    assert_eq!(third.len(), 0);
    db.destroy();
}

#[test]
fn cloned_batch_holds_the_same_writes() {
    let db = open("cloned");
    let mut batch = DbBatch::new();
    batch.insert(&Entry { key: vec![1], value: 1 }).unwrap();
    let mut copy = batch.clone();
    assert_eq!(copy.count(), 1);
    copy.insert(&Entry { key: vec![2], value: 2 }).unwrap();
    assert_eq!(copy.count(), 2);
    assert_eq!(batch.count(), 1);
    let first = db.open_tree(DbTrees::Custom("first")).unwrap();
    let second = db.open_tree(DbTrees::Custom("second")).unwrap();
    first.apply_batch(&mut batch).unwrap();
    second.apply_batch(&mut copy).unwrap();
    assert_eq!(first.len(), 1);
    assert_eq!(second.len(), 2);
    db.destroy();
}

#[test]
fn stored_value_tells_absence_from_failure() {
    assert_eq!(stored_value(Ok(Some(vec![1, 2]))), Ok(vec![1, 2]));
    assert_eq!(stored_value(Ok(Some(vec![]))), Ok(vec![]));
    assert_eq!(stored_value(Ok(None)), Err(DbError::MissingValue));
    assert_eq!(
        stored_value(Err(DbError::Io("disk".to_string()))),
        Err(DbError::Io("disk".to_string()))
    );
}
