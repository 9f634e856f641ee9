use typed_db::error::{
    apply_outcome, decode_outcome, drop_outcome, encode_outcome, io_outcome, key_outcome,
    open_outcome,
};
use typed_db::{DbError, KeyError};

fn unsupported(why: &str) -> sled::Error {
    sled::Error::Unsupported(why.to_string())
}

fn refused(why: &str) -> borsh::io::Error {
    borsh::io::Error::new(borsh::io::ErrorKind::Other, why.to_string())
}

#[test]
fn failed_open_becomes_engine_open() {
    assert_eq!(open_outcome(Ok(7u8)), Ok(7u8));
    assert_eq!(
        open_outcome::<u8>(Err(unsupported("locked"))),
        Err(DbError::EngineOpen("Unsupported: locked".to_string()))
    );
}

#[test]
fn failed_read_or_write_becomes_io() {
    assert_eq!(io_outcome(Ok(Some(vec![1u8]))), Ok(Some(vec![1u8])));
    assert_eq!(io_outcome(Ok(false)), Ok(false));
    assert_eq!(
        io_outcome::<usize>(Err(sled::Error::ReportableBug("lost page".to_string()))),
        Err(DbError::Io(
            "Unexpected bug has happened: lost page. PLEASE REPORT THIS BUG!".to_string()
        ))
    );
    assert_eq!(
        io_outcome::<bool>(Err(sled::Error::Io(refused("disk full")))),
        Err(DbError::Io("IO error: disk full".to_string()))
    );
}

#[test]
fn failed_batch_becomes_apply() {
    assert_eq!(apply_outcome(Ok(())), Ok(()));
    assert_eq!(
        apply_outcome(Err(unsupported("too large"))),
        Err(DbError::Apply("Unsupported: too large".to_string()))
    );
}

#[test]
fn failed_removal_becomes_partition_drop() {
    assert_eq!(drop_outcome(Ok(true)), Ok(true));
    assert_eq!(drop_outcome(Ok(false)), Ok(false));
    assert_eq!(
        drop_outcome(Err(unsupported("cannot remove the core structures"))),
        Err(DbError::PartitionDrop(
            "Unsupported: cannot remove the core structures".to_string()
        ))
    );
}

#[test]
fn failed_key_becomes_key_derivation() {
    let key: &[u8] = b"id";
    assert_eq!(key_outcome(Ok(key)), Ok(key));
    assert_eq!(
        key_outcome(Err(KeyError { reason: "id missing".to_string() })),
        Err(DbError::KeyDerivation("id missing".to_string()))
    );
}

#[test]
fn failed_encoding_becomes_serialization() {
    assert_eq!(encode_outcome(Ok(vec![1, 2, 3])), Ok(vec![1, 2, 3]));
    assert_eq!(encode_outcome(Ok(vec![])), Ok(vec![]));
    assert_eq!(
        encode_outcome(Err(refused("too long"))),
        Err(DbError::Serialization("too long".to_string()))
    );
}

#[test]
fn failed_decoding_becomes_decode() {
    assert_eq!(decode_outcome(Ok(5u32)), Ok(5u32));
    assert_eq!(
        decode_outcome::<u32>(Err(refused("not all bytes read"))),
        Err(DbError::Decode("not all bytes read".to_string()))
    );
}
