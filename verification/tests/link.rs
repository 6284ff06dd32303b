use universal_engine::code_memory::{CodeMemory, SegmentView};
use universal_engine::compilation::{
    CustomSection, CustomSectionProtection, FunctionBody, Relocation, RelocationKind,
    RelocationTarget,
};
use universal_engine::link::{encode_relocation, link_module, LinkError};
use universal_engine::unwind::UnwindRegistry;

const BASE: usize = 0x10_0000;

struct Image {
    memory: CodeMemory,
    functions: Vec<SegmentView>,
    sections: Vec<SegmentView>,
}

/// Two functions of 32 and 16 bytes, an executable section of 24 bytes that
/// holds three trampolines of 8 bytes, and a data section of 16 bytes.
fn image() -> Image {
    let f0 = FunctionBody { body: vec![0x90; 32], unwind_info: None };
    let f1 = FunctionBody { body: vec![0xC3; 16], unwind_info: None };
    let trampolines =
        CustomSection { protection: CustomSectionProtection::ReadExecute, bytes: vec![0xF4; 24] };
    let data = CustomSection { protection: CustomSectionProtection::Read, bytes: vec![0x11; 16] };
    let mut memory = CodeMemory::new();
    let mut registry = UnwindRegistry::new();
    let (functions, executable, datas) = memory
        .allocate_with_page_size(&mut registry, &[&f0, &f1], &[&trampolines], &[&data], 4096, BASE)
        .unwrap();
    assert_eq!(functions[0].offset, 0);
    assert_eq!(functions[1].offset, 32);
    assert_eq!(executable[0].offset, 48);
    assert_eq!(datas[0].offset, 4096);
    Image { memory, functions, sections: vec![executable[0], datas[0]] }
}

fn relocation(kind: RelocationKind, target: RelocationTarget, offset: u32, addend: i64) -> Relocation {
    Relocation { kind, reloc_target: target, offset, addend }
}

fn link(image: &mut Image, functions: Vec<Vec<Relocation>>, sections: Vec<Vec<Relocation>>) -> Result<(), LinkError> {
    link_module(&mut image.memory, &image.functions, &functions, &image.sections, &sections, 0, 8)
}

#[test]
fn an_absolute_relocation_writes_the_address_of_the_target() {
    let mut image = image();
    let r = relocation(RelocationKind::Abs8, RelocationTarget::LocalFunc(1), 4, 3);
    assert_eq!(link(&mut image, vec![vec![r]], vec![]), Ok(()));
    let bytes = image.memory.to_vec();
    let expected = (BASE as u64 + 32 + 3).to_le_bytes();
    assert_eq!(&bytes[4..12], &expected);
    assert_eq!(&bytes[..4], &[0x90; 4]);
    assert_eq!(&bytes[12..32], &[0x90; 20]);
    assert_eq!(&bytes[32..48], &[0xC3; 16]);
}

#[test]
fn a_relative_relocation_writes_the_distance_to_the_target() {
    let mut image = image();
    // From function 1, at offset 2, to function 0: a distance of -34, less 4.
    let r = relocation(RelocationKind::PcRel4, RelocationTarget::LocalFunc(0), 2, -4);
    assert_eq!(link(&mut image, vec![vec![], vec![r]], vec![]), Ok(()));
    let bytes = image.memory.to_vec();
    assert_eq!(&bytes[34..38], &(-38i32).to_le_bytes());
    assert_eq!(&bytes[32..34], &[0xC3; 2]);
    assert_eq!(&bytes[38..48], &[0xC3; 10]);

    let mut image = self::image();
    let r = relocation(RelocationKind::PcRel8, RelocationTarget::CustomSection(1), 8, 0);
    assert_eq!(link(&mut image, vec![vec![r]], vec![]), Ok(()));
    let bytes = image.memory.to_vec();
    assert_eq!(&bytes[8..16], &(4096i64 - 8).to_le_bytes());
}

#[test]
fn relocations_are_encoded_least_significant_byte_first() {
    assert_eq!(
        encode_relocation(RelocationKind::Abs8, 0x1122_3344_5566_7788, 0, 0),
        vec![0x88, 0x77, 0x66, 0x55, 0x44, 0x33, 0x22, 0x11]
    );
    assert_eq!(encode_relocation(RelocationKind::Abs8, 5, -5, 99), vec![0; 8]);
    assert_eq!(encode_relocation(RelocationKind::Abs8, 0, -1, 0), vec![0xFF; 8]);
    assert_eq!(encode_relocation(RelocationKind::Abs8, u64::MAX, 1, 0), vec![0; 8]);
    assert_eq!(encode_relocation(RelocationKind::PcRel4, 0x1000, 0, 0x1010), vec![0xF0, 0xFF, 0xFF, 0xFF]);
    assert_eq!(encode_relocation(RelocationKind::PcRel4, 0x1010, 4, 0x1000), vec![0x14, 0, 0, 0]);
    assert_eq!(
        encode_relocation(RelocationKind::PcRel4, 0x1_0000_0010, 0, 0x10),
        vec![0, 0, 0, 0]
    );
    assert_eq!(
        encode_relocation(RelocationKind::PcRel8, 0x1000, 0, 0x1010),
        vec![0xF0, 0xFF, 0xFF, 0xFF, 0xFF, 0xFF, 0xFF, 0xFF]
    );
    assert_eq!(
        encode_relocation(RelocationKind::PcRel8, 0x1_0000_0010, 0, 0x10),
        vec![0, 0, 0, 0, 1, 0, 0, 0]
    );
}

#[test]
fn a_libcall_resolves_to_its_trampoline() {
    let mut image = image();
    let r = relocation(RelocationKind::Abs8, RelocationTarget::LibCall(2), 0, 0);
    assert_eq!(link(&mut image, vec![vec![r]], vec![]), Ok(()));
    let bytes = image.memory.to_vec();
    assert_eq!(&bytes[0..8], &(BASE as u64 + 48 + 16).to_le_bytes());

    // The section holds three trampolines of 8 bytes: there is no fourth.
    let mut image = self::image();
    let r = relocation(RelocationKind::Abs8, RelocationTarget::LibCall(3), 0, 0);
    assert_eq!(link(&mut image, vec![vec![r]], vec![]), Err(LinkError::UnresolvedTarget));
}

#[test]
fn a_relocation_behind_the_end_of_its_section_is_refused() {
    let mut image = image();
    let before = image.memory.to_vec();
    // The data section has 16 bytes.
    let r = relocation(RelocationKind::Abs8, RelocationTarget::LocalFunc(0), 17, 0);
    assert_eq!(link(&mut image, vec![], vec![vec![], vec![r]]), Err(LinkError::OutOfBounds));
    assert_eq!(image.memory.to_vec(), before);
    let section = image.sections[1];
    assert_eq!(image.memory.slice(&section).unwrap(), vec![0x11; 16]);
}

#[test]
fn a_relocation_has_to_end_within_its_owner() {
    for (kind, offset, ok) in [
        (RelocationKind::Abs8, 8u32, true),
        (RelocationKind::Abs8, 9, false),
        (RelocationKind::PcRel8, 9, false),
        (RelocationKind::PcRel4, 12, true),
        (RelocationKind::PcRel4, 13, false),
        (RelocationKind::PcRel4, 16, false),
        (RelocationKind::PcRel4, u32::MAX, false),
    ] {
        let mut image = image();
        let before = image.memory.to_vec();
        let r = relocation(kind, RelocationTarget::LocalFunc(0), offset, 0);
        let res = link(&mut image, vec![vec![], vec![r]], vec![]);
        if ok {
            assert_eq!(res, Ok(()));
            assert_ne!(image.memory.to_vec(), before);
        } else {
            assert_eq!(res, Err(LinkError::OutOfBounds));
            assert_eq!(image.memory.to_vec(), before);
        }
    }
}

#[test]
fn one_malformed_relocation_keeps_all_from_being_applied() {
    let mut image = image();
    let before = image.memory.to_vec();
    let good = relocation(RelocationKind::Abs8, RelocationTarget::LocalFunc(1), 0, 0);
    let bad = relocation(RelocationKind::Abs8, RelocationTarget::LocalFunc(2), 8, 0);
    let res = link(&mut image, vec![vec![good, bad]], vec![vec![good]]);
    assert_eq!(res, Err(LinkError::UnresolvedTarget));
    assert_eq!(image.memory.to_vec(), before);
}

#[test]
fn the_first_fault_is_reported() {
    let unresolved = relocation(RelocationKind::Abs8, RelocationTarget::CustomSection(2), 0, 0);
    let outside = relocation(RelocationKind::Abs8, RelocationTarget::LocalFunc(0), 100, 0);
    // Sections come before functions.
    let mut image = image();
    let res = link(&mut image, vec![vec![outside]], vec![vec![unresolved]]);
    assert_eq!(res, Err(LinkError::UnresolvedTarget));
    let res = link(&mut image, vec![vec![unresolved, outside]], vec![]);
    assert_eq!(res, Err(LinkError::UnresolvedTarget));
    let res = link(&mut image, vec![vec![outside, unresolved]], vec![]);
    assert_eq!(res, Err(LinkError::OutOfBounds));
    // Bounds come before the target.
    let both = relocation(RelocationKind::Abs8, RelocationTarget::LocalFunc(9), 100, 0);
    let res = link(&mut image, vec![vec![both]], vec![]);
    assert_eq!(res, Err(LinkError::OutOfBounds));
}

#[test]
fn relocations_need_an_owner() {
    let mut image = image();
    let before = image.memory.to_vec();
    let res = link(&mut image, vec![vec![], vec![], vec![]], vec![]);
    assert_eq!(res, Err(LinkError::UnknownOwner));
    let res = link(&mut image, vec![], vec![vec![], vec![], vec![]]);
    assert_eq!(res, Err(LinkError::UnknownOwner));
    assert_eq!(image.memory.to_vec(), before);
    assert_eq!(link(&mut image, vec![vec![]], vec![vec![]]), Ok(()));
    assert_eq!(image.memory.to_vec(), before);
}

#[test]
fn an_owner_outside_the_image_is_refused() {
    let mut image = image();
    image.functions[1] = SegmentView { offset: 4160, len: 16, align: 16 };
    let r = relocation(RelocationKind::PcRel4, RelocationTarget::LocalFunc(0), 0, 0);
    assert_eq!(link(&mut image, vec![vec![], vec![r]], vec![]), Err(LinkError::OutOfBounds));
    let r = relocation(RelocationKind::PcRel4, RelocationTarget::LocalFunc(1), 0, 0);
    assert_eq!(link(&mut image, vec![vec![r]], vec![]), Err(LinkError::UnresolvedTarget));
}

#[test]
fn a_published_image_is_not_linked() {
    let mut image = image();
    image.memory.publish(Ok(())).unwrap();
    let before = image.memory.to_vec();
    let r = relocation(RelocationKind::Abs8, RelocationTarget::LocalFunc(1), 0, 0);
    assert_eq!(link(&mut image, vec![vec![r]], vec![]), Err(LinkError::Published));
    assert_eq!(link(&mut image, vec![], vec![]), Err(LinkError::Published));
    assert_eq!(image.memory.to_vec(), before);
}

#[test]
fn later_relocations_overwrite_earlier_ones() {
    let mut image = image();
    let first = relocation(RelocationKind::Abs8, RelocationTarget::LocalFunc(0), 0, 0);
    let second = relocation(RelocationKind::PcRel4, RelocationTarget::LocalFunc(0), 4, 1);
    assert_eq!(link(&mut image, vec![vec![first, second]], vec![]), Ok(()));
    let bytes = image.memory.to_vec();
    assert_eq!(&bytes[0..4], &(BASE as u32).to_le_bytes());
    assert_eq!(&bytes[4..8], &(-3i32).to_le_bytes());
}

#[test]
fn the_width_of_a_relocation_follows_its_kind() {
    assert_eq!(RelocationKind::Abs8.width(), 8);
    assert_eq!(RelocationKind::PcRel4.width(), 4);
    assert_eq!(RelocationKind::PcRel8.width(), 8);
}
