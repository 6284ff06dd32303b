use universal_engine::codec::Codec;
use universal_engine::compilation::{
    CompiledFunctionUnwindInfo, CustomSection, CustomSectionProtection, FunctionBody, Relocation,
    RelocationKind, RelocationTarget,
};
use universal_engine::error::{DeserializeError, SerializeError};
use universal_engine::module::{FunctionType, MemoryStyle, MemoryType, TableStyle, Type};
use universal_engine::serialize::{
    to_serialize_error, ArchivedSerializableModule, Features, SerializableModule,
};

fn written<T: Codec>(value: &T) -> Vec<u8> {
    let mut out = vec![0xAB];
    value.write(&mut out);
    assert_eq!(out[0], 0xAB);
    out[1..].to_vec()
}

fn round_trip<T: Codec + PartialEq + std::fmt::Debug>(value: T) -> Vec<u8> {
    let bytes = written(&value);
    let mut input = vec![1, 2, 3];
    input.extend_from_slice(&bytes);
    input.extend_from_slice(&[9, 9]);
    assert_eq!(T::read(&input, 3), Some((value, 3 + bytes.len())));
    for cut in 0..bytes.len() {
        assert!(T::read(&bytes[..cut], 0).is_none());
    }
    bytes
}

#[test]
fn integers_are_written_least_significant_byte_first() {
    assert_eq!(round_trip(0x12u8), vec![0x12]);
    assert_eq!(round_trip(0x1234_5678u32), vec![0x78, 0x56, 0x34, 0x12]);
    assert_eq!(round_trip(0x0102_0304_0506_0708u64), vec![8, 7, 6, 5, 4, 3, 2, 1]);
    assert_eq!(round_trip(u64::MAX), vec![0xFF; 8]);
}

#[test]
fn signed_integers_are_shifted_into_the_unsigned_range() {
    assert_eq!(round_trip(0i64), vec![0, 0, 0, 0, 0, 0, 0, 0x80]);
    assert_eq!(round_trip(-1i64), vec![0xFF, 0xFF, 0xFF, 0xFF, 0xFF, 0xFF, 0xFF, 0x7F]);
    assert_eq!(round_trip(1i64), vec![1, 0, 0, 0, 0, 0, 0, 0x80]);
    assert_eq!(round_trip(i64::MIN), vec![0; 8]);
    assert_eq!(round_trip(i64::MAX), vec![0xFF; 8]);
}

#[test]
fn booleans_and_options_are_tagged() {
    assert_eq!(round_trip(false), vec![0]);
    assert_eq!(round_trip(true), vec![1]);
    assert_eq!(bool::read(&[2], 0), None);
    assert_eq!(round_trip(None::<u32>), vec![0]);
    assert_eq!(round_trip(Some(7u32)), vec![1, 7, 0, 0, 0]);
    assert_eq!(Option::<u32>::read(&[2, 7, 0, 0, 0], 0), None);
    assert_eq!(round_trip(Some(Some(true))), vec![1, 1, 1]);
}

#[test]
fn lists_are_written_with_their_length() {
    assert_eq!(round_trip(Vec::<u8>::new()), vec![0; 8]);
    assert_eq!(round_trip(vec![5u8, 6, 7]), vec![3, 0, 0, 0, 0, 0, 0, 0, 5, 6, 7]);
    assert_eq!(
        round_trip(vec![vec![1u32], vec![]]),
        vec![2, 0, 0, 0, 0, 0, 0, 0, 1, 0, 0, 0, 0, 0, 0, 0, 1, 0, 0, 0, 0, 0, 0, 0, 0, 0, 0, 0]
    );
    // A length that promises more than there is.
    assert_eq!(Vec::<u8>::read(&[4, 0, 0, 0, 0, 0, 0, 0, 5, 6, 7], 0), None);
    assert_eq!(Vec::<u8>::read(&[0xFF; 8], 0), None);
}

#[test]
fn pairs_are_written_one_part_after_the_other() {
    assert_eq!(round_trip((7u8, 0x0102u32)), vec![7, 2, 1, 0, 0]);
    assert_eq!(round_trip((true, (None::<u8>, 1u8))), vec![1, 0, 1]);
}

#[test]
fn enumerations_are_written_as_the_number_of_the_variant() {
    let types = [Type::I32, Type::I64, Type::F32, Type::F64, Type::V128, Type::ExternRef, Type::FuncRef];
    for (i, ty) in types.into_iter().enumerate() {
        assert_eq!(round_trip(ty), vec![i as u8]);
    }
    assert_eq!(Type::read(&[7], 0), None);
    assert_eq!(round_trip(RelocationKind::Abs8), vec![0]);
    assert_eq!(round_trip(RelocationKind::PcRel4), vec![1]);
    assert_eq!(round_trip(RelocationKind::PcRel8), vec![2]);
    assert_eq!(RelocationKind::read(&[3], 0), None);
    assert_eq!(round_trip(CustomSectionProtection::Read), vec![0]);
    assert_eq!(round_trip(CustomSectionProtection::ReadExecute), vec![1]);
    assert_eq!(round_trip(TableStyle::CallerChecksSignature), vec![0]);
    assert_eq!(TableStyle::read(&[1], 0), None);
    assert_eq!(round_trip(RelocationTarget::LocalFunc(1)), vec![0, 1, 0, 0, 0]);
    assert_eq!(round_trip(RelocationTarget::LibCall(2)), vec![1, 2, 0, 0, 0]);
    assert_eq!(round_trip(RelocationTarget::CustomSection(3)), vec![2, 3, 0, 0, 0]);
    assert_eq!(RelocationTarget::read(&[3, 3, 0, 0, 0], 0), None);
    assert_eq!(
        round_trip(MemoryStyle::Dynamic { offset_guard_size: 5 }),
        vec![0, 5, 0, 0, 0, 0, 0, 0, 0]
    );
    assert_eq!(
        round_trip(MemoryStyle::Static { bound: 2, offset_guard_size: 5 }),
        vec![1, 2, 0, 0, 0, 5, 0, 0, 0, 0, 0, 0, 0]
    );
    assert_eq!(MemoryStyle::read(&[2, 2, 0, 0, 0, 5, 0, 0, 0, 0, 0, 0, 0], 0), None);
    assert_eq!(round_trip(CompiledFunctionUnwindInfo::Dwarf), vec![1]);
    assert_eq!(
        round_trip(CompiledFunctionUnwindInfo::WindowsX64(vec![8, 9])),
        vec![0, 2, 0, 0, 0, 0, 0, 0, 0, 8, 9]
    );
}

#[test]
fn records_are_written_field_by_field() {
    let relocation = Relocation {
        kind: RelocationKind::PcRel4,
        reloc_target: RelocationTarget::LibCall(3),
        offset: 0x10,
        addend: -4,
    };
    assert_eq!(
        round_trip(relocation),
        vec![1, 1, 3, 0, 0, 0, 0x10, 0, 0, 0, 0xFC, 0xFF, 0xFF, 0xFF, 0xFF, 0xFF, 0xFF, 0x7F]
    );
    let body = FunctionBody { body: vec![0xC3], unwind_info: Some(CompiledFunctionUnwindInfo::Dwarf) };
    assert_eq!(round_trip(body), vec![1, 0, 0, 0, 0, 0, 0, 0, 0xC3, 1, 1]);
    let section = CustomSection { protection: CustomSectionProtection::ReadExecute, bytes: vec![4, 5] };
    assert_eq!(round_trip(section), vec![1, 2, 0, 0, 0, 0, 0, 0, 0, 4, 5]);
    let signature = FunctionType { params: vec![Type::I64], results: vec![] };
    assert_eq!(
        round_trip(signature),
        vec![1, 0, 0, 0, 0, 0, 0, 0, 1, 0, 0, 0, 0, 0, 0, 0, 0]
    );
    let memory = MemoryType { minimum: 1, maximum: Some(2), shared: true };
    assert_eq!(round_trip(memory), vec![1, 0, 0, 0, 1, 2, 0, 0, 0, 1]);
    let features =
        Features { threads: true, reference_types: false, simd: true, bulk_memory: false, multi_value: true };
    assert_eq!(round_trip(features), vec![1, 0, 1, 0, 1]);
}

#[test]
fn a_value_is_read_where_it_stands() {
    let input = [0xFFu8, 0xFF, 3, 0, 0, 0, 0, 0, 0, 0, 1, 2, 3, 0xFF];
    assert_eq!(Vec::<u8>::read(&input, 2), Some((vec![1, 2, 3], 13)));
    assert_eq!(u8::read(&input, 14), None);
    assert_eq!(u32::read(&input, 11), None);
    assert_eq!(u32::read(&input, 10), Some((0xFF03_0201, 14)));
    // Behind the input there is nothing to read.
    assert_eq!(u8::read(&input, 15), None);
    assert_eq!(u32::read(&input, 15), None);
    assert_eq!(u64::read(&input, usize::MAX), None);
    assert_eq!(i64::read(&input, 20), None);
    assert_eq!(bool::read(&input, 15), None);
    assert_eq!(Vec::<u8>::read(&input, 15), None);
    assert_eq!(Option::<u8>::read(&input, 15), None);
    assert_eq!(Type::read(&input, 15), None);
    assert_eq!(Relocation::read(&input, 15), None);
    assert_eq!(FunctionBody::read(&input, 15), None);
}

#[test]
fn a_module_has_to_fill_its_bytes() {
    assert_eq!(SerializableModule::deserialize(&[]), Err(DeserializeError::CorruptedBinary));
    assert_eq!(SerializableModule::deserialize(&[0; 7]), Err(DeserializeError::CorruptedBinary));
    let archived = ArchivedSerializableModule::from_slice(&[1, 2, 3]);
    assert_eq!(
        SerializableModule::deserialize_from_archive(&archived),
        Err(DeserializeError::CorruptedBinary)
    );
}

#[test]
fn the_error_of_a_codec_carries_its_message() {
    assert_eq!(
        to_serialize_error("out of memory".to_string()),
        SerializeError::Generic("out of memory".to_string())
    );
}
