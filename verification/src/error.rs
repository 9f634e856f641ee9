//! The errors that the store reports, and how the failures of the engine, of
//! key derivation and of the encoding become such errors.
use vstd::prelude::*;
use vstd::string::to_string_from_display_ensures;

verus! {

/// Why an operation of the store failed. Each variant but `MissingValue`
/// carries the reason as text.
#[derive(Debug, Clone, PartialEq, Eq)]
pub enum DbError {
    /// The engine could not be opened, or a partition of it could not.
    EngineOpen(String),
    /// A record's value could not be encoded.
    Serialization(String),
    /// A record's key could not be derived.
    KeyDerivation(String),
    /// A typed lookup found no value under the key.
    MissingValue,
    /// A typed lookup found bytes that do not decode as the requested type.
    Decode(String),
    /// The engine refused or failed a batch.
    Apply(String),
    /// The engine could not remove a partition.
    PartitionDrop(String),
    /// A flush, a raw read or a raw write failed in the engine.
    Io(String),
}

/// Why a record could not derive its key.
#[derive(Debug, Clone, PartialEq, Eq)]
pub struct KeyError {
    pub reason: String,
}

/// `mapped` is what this library makes of the engine's answer to an open: the
/// answer itself, or the failure as `EngineOpen` with the engine's own words.
pub open spec fn open_mapped<T>(outcome: Result<T, sled::Error>, mapped: Result<T, DbError>) -> bool {
    match outcome {
        Ok(value) => mapped == Ok::<T, DbError>(value),
        Err(cause) => mapped matches Err(DbError::EngineOpen(reason))
            && to_string_from_display_ensures(&cause, reason),
    }
}

/// `mapped` is what this library makes of the engine's answer to a flush, a
/// raw read or a raw write: the answer itself, or the failure as `Io` with the
/// engine's own words.
pub open spec fn io_mapped<T>(outcome: Result<T, sled::Error>, mapped: Result<T, DbError>) -> bool {
    match outcome {
        Ok(value) => mapped == Ok::<T, DbError>(value),
        Err(cause) => mapped matches Err(DbError::Io(reason)) && to_string_from_display_ensures(
            &cause,
            reason,
        ),
    }
}

/// `mapped` is what this library makes of what decoding gave: the record, or
/// the failure as `Decode` with the decoder's own words.
pub open spec fn decode_mapped<T>(outcome: Result<T, std::io::Error>, mapped: Result<T, DbError>) -> bool {
    match outcome {
        Ok(record) => mapped == Ok::<T, DbError>(record),
        Err(cause) => mapped matches Err(DbError::Decode(reason)) && to_string_from_display_ensures(
            &cause,
            reason,
        ),
    }
}

/// `mapped` is what this library makes of the engine's answer to a batch:
/// success, or the failure as `Apply` with the engine's own words.
pub open spec fn apply_mapped(outcome: Result<(), sled::Error>, mapped: Result<(), DbError>) -> bool {
    match outcome {
        Ok(_) => mapped is Ok,
        Err(cause) => mapped matches Err(DbError::Apply(reason)) && to_string_from_display_ensures(
            &cause,
            reason,
        ),
    }
}

/// `mapped` is what this library makes of the engine's answer to the removal
/// of a partition: whether there was one, or the failure as `PartitionDrop`
/// with the engine's own words.
pub open spec fn drop_mapped(outcome: Result<bool, sled::Error>, mapped: Result<bool, DbError>) -> bool {
    match outcome {
        Ok(dropped) => mapped == Ok::<bool, DbError>(dropped),
        Err(cause) => mapped matches Err(DbError::PartitionDrop(reason))
            && to_string_from_display_ensures(&cause, reason),
    }
}

/// `mapped` is what this library makes of what encoding gave: the bytes, or
/// the failure as `Serialization` with the encoder's own words.
pub open spec fn encode_mapped(outcome: Result<Vec<u8>, std::io::Error>, mapped: Result<Vec<u8>, DbError>) -> bool {
    match outcome {
        Ok(data) => mapped == Ok::<Vec<u8>, DbError>(data),
        Err(cause) => mapped matches Err(DbError::Serialization(reason))
            && to_string_from_display_ensures(&cause, reason),
    }
}

/// What the engine answered when it was asked to open the store or a
/// partition: the answer itself, or the failure as `EngineOpen` with the
/// engine's own words.
pub fn open_outcome<T>(outcome: Result<T, sled::Error>) -> (mapped: Result<T, DbError>)
    ensures
        open_mapped(outcome, mapped),
{
    match outcome {
        Ok(value) => Ok(value),
        Err(cause) => Err(DbError::EngineOpen(cause.to_string())),
    }
}

/// What the engine answered to a flush, a raw read or a raw write: the answer
/// itself, or the failure as `Io` with the engine's own words.
pub fn io_outcome<T>(outcome: Result<T, sled::Error>) -> (mapped: Result<T, DbError>)
    ensures
        io_mapped(outcome, mapped),
{
    match outcome {
        Ok(value) => Ok(value),
        Err(cause) => Err(DbError::Io(cause.to_string())),
    }
}

/// What the engine answered to a batch: success, or the failure as `Apply`
/// with the engine's own words.
pub fn apply_outcome(outcome: Result<(), sled::Error>) -> (mapped: Result<(), DbError>)
    ensures
        apply_mapped(outcome, mapped),
{
    match outcome {
        Ok(()) => Ok(()),
        Err(cause) => Err(DbError::Apply(cause.to_string())),
    }
}

/// What the engine answered when it was asked to remove a partition: whether
/// there was one, or the failure as `PartitionDrop` with the engine's own
/// words.
pub fn drop_outcome(outcome: Result<bool, sled::Error>) -> (mapped: Result<bool, DbError>)
    ensures
        drop_mapped(outcome, mapped),
{
    match outcome {
        Ok(dropped) => Ok(dropped),
        Err(cause) => Err(DbError::PartitionDrop(cause.to_string())),
    }
}

/// What a record answered when it was asked for its key: the key, or the
/// failure as `KeyDerivation` with the record's reason.
pub fn key_outcome<'a>(outcome: Result<&'a [u8], KeyError>) -> (mapped: Result<&'a [u8], DbError>)
    ensures
        mapped == match outcome {
            Ok(key) => Ok::<&[u8], DbError>(key),
            Err(cause) => Err(DbError::KeyDerivation(cause.reason)),
        },
{
    match outcome {
        Ok(key) => Ok(key),
        Err(cause) => Err(DbError::KeyDerivation(cause.reason)),
    }
}

/// What encoding a record gave: the bytes, or the failure as `Serialization`
/// with the encoder's own words.
pub fn encode_outcome(outcome: Result<Vec<u8>, std::io::Error>) -> (mapped: Result<Vec<u8>, DbError>)
    ensures
        encode_mapped(outcome, mapped),
{
    match outcome {
        Ok(data) => Ok(data),
        Err(cause) => Err(DbError::Serialization(cause.to_string())),
    }
}

/// What decoding stored bytes gave: the record, or the failure as `Decode`
/// with the decoder's own words.
pub fn decode_outcome<T>(outcome: Result<T, std::io::Error>) -> (mapped: Result<T, DbError>)
    ensures
        decode_mapped(outcome, mapped),
{
    match outcome {
        Ok(record) => Ok(record),
        Err(cause) => Err(DbError::Decode(cause.to_string())),
    }
}

} // verus!
