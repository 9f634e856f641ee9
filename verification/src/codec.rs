//! The binary encoding of records. The encoding itself is each record type's
//! own; nothing is known here of the bytes it gives. What the contracts of
//! the library can say is that bytes are what the encoder gave for a record
//! (`encoded_as`), or a record what the decoder gave for bytes
//! (`decoded_from`): both are known only from a call.
use vstd::prelude::*;

verus! {

/// `std::io::Error`: the failure that encoding and decoding report.
#[verifier::external_type_specification]
#[verifier::external_body]
pub struct ExIoError(std::io::Error);

/// `borsh::to_vec`: the record's encoding, or why the record's type could not
/// write it.
#[verifier::external_body]
pub(crate) fn encode<T: borsh::BorshSerialize>(value: &T) -> (encoded: Result<Vec<u8>, std::io::Error>) {
    borsh::to_vec(value)
}

/// `borsh::BorshDeserialize::try_from_slice`: the record that the bytes
/// encode, or why they do not encode one of this type.
#[verifier::external_body]
pub(crate) fn decode<T: borsh::BorshDeserialize>(bytes: &[u8]) -> (decoded: Result<T, std::io::Error>) {
    T::try_from_slice(bytes)
}

/// `encoded` is what encoding the record gave.
pub closed spec fn encoded_as<T: borsh::BorshSerialize>(value: &T, encoded: Result<Vec<u8>, std::io::Error>) -> bool {
    call_ensures(encode::<T>, (value,), encoded)
}

/// `decoded` is what decoding the bytes as a `T` gave.
pub closed spec fn decoded_from<T: borsh::BorshDeserialize>(
    bytes: Seq<u8>,
    decoded: Result<T, std::io::Error>,
) -> bool {
    exists|slice: &[u8]| slice@ == bytes && #[trigger] call_ensures(decode::<T>, (slice,), decoded)
}

/// Encodes the record.
pub(crate) fn encode_record<T: borsh::BorshSerialize>(value: &T) -> (encoded: Result<
    Vec<u8>,
    std::io::Error,
>)
    ensures
        encoded_as(value, encoded),
{
    encode(value)
}

/// Decodes the bytes as a `T`.
pub(crate) fn decode_record<T: borsh::BorshDeserialize>(bytes: &[u8]) -> (decoded: Result<
    T,
    std::io::Error,
>)
    ensures
        decoded_from(bytes@, decoded),
{
    decode::<T>(bytes)
}

} // verus!
