//! The frame of a serialized artifact: a header that marks it, the
//! version of the format, the length of what it holds, and then that payload.

use crate::bytes::append_bytes;
use crate::codec::Codec;
use crate::error::DeserializeError;
use vstd::bytes::{
    lemma_auto_spec_u32_to_from_le_bytes, lemma_auto_spec_u64_to_from_le_bytes,
    spec_u32_from_le_bytes, spec_u32_to_le_bytes, spec_u64_from_le_bytes, spec_u64_to_le_bytes,
    u32_from_le_bytes, u64_from_le_bytes,
};
use vstd::prelude::*;
use vstd::slice::slice_subrange;

verus! {

/// The 16 bytes with which every serialized artifact starts: the letters
/// of `universal-engine`.
pub open spec fn magic_header() -> Seq<u8> {
    seq![117u8, 110u8, 105u8, 118u8, 101u8, 114u8, 115u8, 97u8, 108u8, 45u8, 101u8, 110u8, 103u8,
        105u8, 110u8, 101u8]
}

/// The length of the header that marks a serialized artifact.
pub const MAGIC_HEADER_LEN: usize = 16;

/// The version of the format that this library writes and reads.
pub const FORMAT_VERSION: u32 = 1;

/// The length of what stands between the header and the payload: the
/// version, a 32-bit integer, and the length of the payload, a 64-bit integer.
pub const METADATA_HEADER_LEN: usize = 12;

/// A serialized artifact that holds `payload`: the header, the version of
/// the format as a 32-bit integer and the length of the payload as a 64-bit
/// integer, both least significant byte first, and the payload.
pub open spec fn framed(payload: Seq<u8>) -> Seq<u8> {
    magic_header() + spec_u32_to_le_bytes(FORMAT_VERSION) + spec_u64_to_le_bytes(
        payload.len() as u64,
    ) + payload
}

/// Whether `bytes` start with the header that marks a serialized artifact.
pub open spec fn looks_serialized(bytes: Seq<u8>) -> bool {
    bytes.len() >= 16 && bytes.take(16) == magic_header()
}

/// The payload of the serialized artifact `bytes`. Bytes that do not start
/// with the header are incompatible; bytes of another version of the format
/// are refused with that version; bytes in which the header is not followed
/// by a version, a length and exactly as many bytes are corrupted.
pub open spec fn unframed(bytes: Seq<u8>) -> Result<Seq<u8>, DeserializeError> {
    if !looks_serialized(bytes) {
        Err(DeserializeError::Incompatible)
    } else if bytes.len() < 20 {
        Err(DeserializeError::CorruptedBinary)
    } else if spec_u32_from_le_bytes(bytes.subrange(16, 20)) != FORMAT_VERSION {
        Err(DeserializeError::Version(spec_u32_from_le_bytes(bytes.subrange(16, 20))))
    } else if bytes.len() < 28 || spec_u64_from_le_bytes(bytes.subrange(20, 28)) != bytes.len()
        - 28 {
        Err(DeserializeError::CorruptedBinary)
    } else {
        Ok(bytes.skip(28))
    }
}

/// The round trip of the frame: a serialized artifact holds its payload.
pub proof fn lemma_frame_round_trip(payload: Seq<u8>)
    requires
        payload.len() <= u64::MAX,
    ensures
        looks_serialized(framed(payload)),
        unframed(framed(payload)) == Ok::<_, DeserializeError>(payload),
{
    let bytes = framed(payload);
    lemma_auto_spec_u32_to_from_le_bytes();
    lemma_auto_spec_u64_to_from_le_bytes();
    assert(bytes.take(16) =~= magic_header());
    assert(bytes.subrange(16, 20) =~= spec_u32_to_le_bytes(FORMAT_VERSION));
    assert(bytes.subrange(20, 28) =~= spec_u64_to_le_bytes(payload.len() as u64));
    assert(bytes.skip(28) =~= payload);
}

/// The header that marks a serialized artifact.
pub fn magic() -> (header: Vec<u8>)
    ensures
        header@ == magic_header(),
{
    let header: Vec<u8> = vec![
        117u8,
        110u8,
        105u8,
        118u8,
        101u8,
        114u8,
        115u8,
        97u8,
        108u8,
        45u8,
        101u8,
        110u8,
        103u8,
        105u8,
        110u8,
        101u8,
    ];
    assert(header@ =~= magic_header());
    header
}

/// Whether `bytes` start with the header that marks a serialized artifact.
pub fn starts_with_magic(bytes: &[u8]) -> (looks: bool)
    ensures
        looks == looks_serialized(bytes@),
{
    if bytes.len() < MAGIC_HEADER_LEN {
        return false;
    }
    let header = magic();
    let mut i: usize = 0;
    while i < MAGIC_HEADER_LEN
        invariant
            i <= 16,
            bytes@.len() >= 16,
            header@ == magic_header(),
            forall|k: int| 0 <= k < i ==> bytes@[k] == header@[k],
        decreases 16 - i,
    {
        if bytes[i] != header[i] {
            assert(bytes@.take(16)[i as int] != magic_header()[i as int]);
            return false;
        }
        i = i + 1;
    }
    assert(bytes@.take(16) =~= magic_header());
    true
}

/// The serialized artifact that holds `payload`.
pub fn frame(payload: &[u8]) -> (bytes: Vec<u8>)
    ensures
        bytes@ == framed(payload@),
{
    let mut metadata_binary = magic();
    FORMAT_VERSION.write(&mut metadata_binary);
    let len: u64 = payload.len() as u64;
    len.write(&mut metadata_binary);
    append_bytes(&mut metadata_binary, payload);
    metadata_binary
}

/// The payload of the serialized artifact `bytes`.
///
/// Bytes that do not start with the header are incompatible; bytes of
/// another version of the format are refused with that version; bytes in
/// which the header is not followed by a version, a length and exactly as
/// many bytes are corrupted.
pub fn unframe(bytes: &[u8]) -> (res: Result<&[u8], DeserializeError>)
    ensures
        match unframed(bytes@) {
            Ok(payload) => res matches Ok(found) && found@ == payload,
            Err(e) => res == Err::<&[u8], _>(e),
        },
{
    if !starts_with_magic(bytes) {
        return Err(DeserializeError::Incompatible);
    }
    if bytes.len() < MAGIC_HEADER_LEN + 4 {
        return Err(DeserializeError::CorruptedBinary);
    }
    let version = u32_from_le_bytes(slice_subrange(bytes, 16, 20));
    if version != FORMAT_VERSION {
        return Err(DeserializeError::Version(version));
    }
    if bytes.len() < MAGIC_HEADER_LEN + METADATA_HEADER_LEN {
        return Err(DeserializeError::CorruptedBinary);
    }
    let metadata_len = u64_from_le_bytes(slice_subrange(bytes, 20, 28));
    if metadata_len != (bytes.len() - 28) as u64 {
        return Err(DeserializeError::CorruptedBinary);
    }
    let metadata_slice = slice_subrange(bytes, 28, bytes.len());
    assert(metadata_slice@ =~= bytes@.skip(28));
    Ok(metadata_slice)
}

} // verus!
