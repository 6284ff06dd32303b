use universal_engine::code_memory::{
    allocation_len, any_unwind_info, checked_function_allocation_size, function_allocation_size,
    is_valid_page_size, AllocationError, CodeMemory, ProtectRequest, Protection, SegmentView,
    WriteError,
};
use universal_engine::compilation::{
    CompiledFunctionUnwindInfo, CustomSection, CustomSectionProtection, FunctionBody,
};
use universal_engine::unwind::{UnwindRegistrationError, UnwindRegistry};

const BASE: usize = 0x7f00_0000_0000;

fn function(len: usize) -> FunctionBody {
    FunctionBody { body: (0..len).map(|i| (i % 251) as u8 + 1).collect(), unwind_info: None }
}

fn windows_function(len: usize, table: Vec<u8>) -> FunctionBody {
    FunctionBody {
        body: (0..len).map(|i| (i % 13) as u8 + 0x40).collect(),
        unwind_info: Some(CompiledFunctionUnwindInfo::WindowsX64(table)),
    }
}

fn section(protection: CustomSectionProtection, bytes: Vec<u8>) -> CustomSection {
    CustomSection { protection, bytes }
}

#[test]
fn three_functions_and_one_executable_section_take_one_page() {
    let f0 = function(10);
    let f1 = function(17);
    let f2 = function(40);
    let section = section(CustomSectionProtection::ReadExecute, vec![1, 2, 3, 4, 5]);
    let mut memory = CodeMemory::new();
    let mut registry = UnwindRegistry::new();
    let (functions, executable, data) = memory
        .allocate_with_page_size(&mut registry, &[&f0, &f1, &f2], &[&section], &[], 4096, BASE)
        .unwrap();
    assert_eq!(memory.len(), 4096);
    assert_eq!(allocation_len(&[&f0, &f1, &f2], &[&section], &[], 4096), Ok(4096));
    assert_eq!(
        functions,
        vec![
            SegmentView { offset: 0, len: 10, align: 16 },
            SegmentView { offset: 16, len: 17, align: 16 },
            SegmentView { offset: 48, len: 40, align: 16 },
        ]
    );
    assert_eq!(executable, vec![SegmentView { offset: 96, len: 5, align: 16 }]);
    assert!(data.is_empty());
    assert_eq!(memory.executable_len(), 112);
    assert_eq!(memory.address(), BASE);
    assert_eq!(memory.host_page_size(), 4096);
    assert_eq!(registry.len(), 0);
    for pair in functions.windows(2) {
        assert!(pair[0].offset < pair[1].offset);
    }
}

#[test]
fn data_sections_start_behind_a_page_boundary() {
    let f0 = function(100);
    let code = section(CustomSectionProtection::ReadExecute, vec![9; 33]);
    let d0 = section(CustomSectionProtection::Read, vec![7; 65]);
    let d1 = section(CustomSectionProtection::Read, vec![8; 1]);
    let mut memory = CodeMemory::new();
    let mut registry = UnwindRegistry::new();
    let (functions, executable, data) = memory
        .allocate_with_page_size(&mut registry, &[&f0], &[&code], &[&d0, &d1], 4096, BASE)
        .unwrap();
    // 100 -> 112, 33 -> 48: the executable partition has 160 bytes.
    assert_eq!(memory.executable_len(), 160);
    assert_eq!(functions, vec![SegmentView { offset: 0, len: 100, align: 16 }]);
    assert_eq!(executable, vec![SegmentView { offset: 112, len: 33, align: 16 }]);
    assert_eq!(
        data,
        vec![
            SegmentView { offset: 4096, len: 65, align: 64 },
            SegmentView { offset: 4096 + 128, len: 1, align: 64 },
        ]
    );
    // 4096 + 128 + 64
    assert_eq!(memory.len(), 4288);
    assert_eq!(allocation_len(&[&f0], &[&code], &[&d0, &d1], 4096), Ok(4288));
    assert!(memory.executable_len() <= memory.len());
    let padding = 4096 - memory.executable_len();
    assert!(padding < 4096);
    assert_eq!(memory.len(), 112 + 48 + padding + 128 + 64);
}

#[test]
fn every_segment_starts_at_a_multiple_of_its_alignment() {
    let bodies: Vec<FunctionBody> = (0..20).map(|i| function(i * 7 + 1)).collect();
    let refs: Vec<&FunctionBody> = bodies.iter().collect();
    let codes: Vec<CustomSection> =
        (0..5).map(|i| section(CustomSectionProtection::ReadExecute, vec![1; i * 9])).collect();
    let code_refs: Vec<&CustomSection> = codes.iter().collect();
    let datas: Vec<CustomSection> =
        (0..5).map(|i| section(CustomSectionProtection::Read, vec![2; i * 50 + 3])).collect();
    let data_refs: Vec<&CustomSection> = datas.iter().collect();
    for page_size in [64usize, 4096, 16384, 65536] {
        let base = page_size * 12345;
        let mut memory = CodeMemory::new();
        let mut registry = UnwindRegistry::new();
        let (functions, executable, data) = memory
            .allocate_with_page_size(&mut registry, &refs, &code_refs, &data_refs, page_size, base)
            .unwrap();
        for view in functions.iter().chain(executable.iter()) {
            assert_eq!(view.align, 16);
            assert_eq!(memory.address_of(view).unwrap() % 16, 0);
            assert!(view.offset + view.len <= memory.executable_len());
        }
        let boundary = memory.executable_len();
        let data_start = (boundary + page_size - 1) / page_size * page_size;
        for view in data.iter() {
            assert_eq!(view.align, 64);
            assert_eq!(memory.address_of(view).unwrap() % 64, 0);
            assert!(view.offset >= data_start);
            assert!(view.offset + view.len <= memory.len());
        }
        assert_eq!(data[0].offset, data_start);
    }
}

#[test]
fn what_went_in_is_read_back() {
    let f0 = function(10);
    let f1 = windows_function(17, vec![0xAA, 0xBB, 0xCC]);
    let code = section(CustomSectionProtection::ReadExecute, vec![5, 4, 3, 2, 1]);
    let data = section(CustomSectionProtection::Read, vec![0xD0; 70]);
    let mut memory = CodeMemory::new();
    let mut registry = UnwindRegistry::new();
    let (functions, executable, datas) = memory
        .allocate_with_page_size(&mut registry, &[&f0, &f1], &[&code], &[&data], 4096, BASE)
        .unwrap();
    assert_eq!(memory.slice(&functions[0]).unwrap(), f0.body);
    assert_eq!(memory.slice(&functions[1]).unwrap(), f1.body);
    assert_eq!(memory.slice(&executable[0]).unwrap(), code.bytes);
    assert_eq!(memory.slice(&datas[0]).unwrap(), data.bytes);

    // The second function: 17 bytes of code, 3 bytes of padding, the table.
    assert_eq!(functions[1], SegmentView { offset: 16, len: 17, align: 16 });
    let image = memory.to_vec();
    assert_eq!(&image[16 + 17..16 + 20], &[0, 0, 0]);
    assert_eq!(&image[16 + 20..16 + 23], &[0xAA, 0xBB, 0xCC]);
    // 23 bytes rounded up to 32: the section follows at 48.
    assert_eq!(executable[0].offset, 48);
    assert!(image[16 + 23..48].iter().all(|b| *b == 0));
    assert!(image[10..16].iter().all(|b| *b == 0));
    assert!(image[53..4096].iter().all(|b| *b == 0));
    assert!(image[4096 + 70..].iter().all(|b| *b == 0));
    assert_eq!(image.len(), 4096 + 128);
}

#[test]
fn the_size_of_a_function_counts_an_inline_table() {
    assert_eq!(function_allocation_size(&function(17)), 17);
    assert_eq!(function_allocation_size(&windows_function(17, vec![1, 2, 3])), 23);
    assert_eq!(function_allocation_size(&windows_function(16, vec![1, 2, 3])), 19);
    assert_eq!(function_allocation_size(&windows_function(0, vec![])), 0);
    assert_eq!(checked_function_allocation_size(&windows_function(17, vec![1, 2, 3])), Some(23));
    let dwarf = FunctionBody { body: vec![1; 9], unwind_info: Some(CompiledFunctionUnwindInfo::Dwarf) };
    assert_eq!(function_allocation_size(&dwarf), 9);
}

#[test]
fn functions_with_unwind_information_are_registered() {
    let f0 = function(10);
    let f1 = windows_function(17, vec![0xAA, 0xBB, 0xCC]);
    let f2 = FunctionBody { body: vec![1; 40], unwind_info: Some(CompiledFunctionUnwindInfo::Dwarf) };
    let f3 = function(3);
    assert!(any_unwind_info(&[&f0, &f1]));
    assert!(!any_unwind_info(&[&f0, &f3]));
    let mut memory = CodeMemory::new();
    let mut registry = UnwindRegistry::new();
    let (functions, _, _) = memory
        .allocate_with_page_size(&mut registry, &[&f0, &f1, &f2, &f3], &[], &[], 4096, BASE)
        .unwrap();
    assert_eq!(registry.len(), 2);
    assert_eq!(registry.address(0), Some(BASE + functions[1].offset));
    assert_eq!(registry.length(0), Some(17));
    assert_eq!(registry.table(0), Some(vec![0xAA, 0xBB, 0xCC]));
    assert_eq!(registry.address(1), Some(BASE + functions[2].offset));
    assert_eq!(registry.length(1), Some(40));
    assert_eq!(registry.table(1), Some(Vec::<u8>::new()));
}

#[test]
fn a_page_size_that_is_no_power_of_two_is_refused() {
    let f0 = function(10);
    for page_size in [0usize, 1, 16, 32, 63, 100, 4095, 4097] {
        assert!(!is_valid_page_size(page_size));
        let mut memory = CodeMemory::new();
        let mut registry = UnwindRegistry::new();
        let res = memory.allocate_with_page_size(&mut registry, &[&f0], &[], &[], page_size, 0);
        assert_eq!(res, Err(AllocationError::PageSize));
        assert_eq!(memory.len(), 0);
        assert_eq!(allocation_len(&[&f0], &[], &[], page_size), Err(AllocationError::PageSize));
    }
    assert!(is_valid_page_size(64));
    assert!(is_valid_page_size(4096));
}

#[test]
fn a_base_that_is_not_page_aligned_is_refused() {
    let f0 = function(10);
    let mut memory = CodeMemory::new();
    let mut registry = UnwindRegistry::new();
    let res = memory.allocate_with_page_size(&mut registry, &[&f0], &[], &[], 4096, 4096 + 16);
    assert_eq!(res, Err(AllocationError::BaseAddress));
    assert_eq!(memory.len(), 0);
    assert_eq!(registry.len(), 0);
}

#[test]
fn an_image_that_does_not_fit_behind_the_base_is_refused() {
    let f0 = function(10);
    let mut memory = CodeMemory::new();
    let mut registry = UnwindRegistry::new();
    let base = usize::MAX - 4095;
    let res = memory.allocate_with_page_size(&mut registry, &[&f0], &[], &[], 4096, base);
    assert_eq!(res, Err(AllocationError::TooLarge));
    let base = usize::MAX - 2 * 4096 + 1;
    let res = memory.allocate_with_page_size(&mut registry, &[&f0], &[], &[], 4096, base);
    assert!(res.is_ok());
    assert_eq!(memory.len(), 4096);
}

#[test]
fn a_published_registry_refuses_a_function_with_unwind_information() {
    let f0 = function(10);
    let f1 = windows_function(17, vec![1]);
    let mut registry = UnwindRegistry::new();
    registry.publish(None).unwrap();
    let mut memory = CodeMemory::new();
    let res = memory.allocate_with_page_size(&mut registry, &[&f0, &f1], &[], &[], 4096, BASE);
    assert_eq!(res, Err(AllocationError::Unwind(UnwindRegistrationError::AlreadyPublished)));
    assert_eq!(memory.len(), 0);
    assert_eq!(registry.len(), 0);
    // Without unwind information nothing has to be registered.
    let res = memory.allocate_with_page_size(&mut registry, &[&f0], &[], &[], 4096, BASE);
    assert!(res.is_ok());
}

#[test]
fn an_empty_image_has_nothing_to_publish() {
    let mut memory = CodeMemory::new();
    assert!(memory.is_empty());
    assert_eq!(memory.len(), 0);
    assert_eq!(memory.address(), 0);
    assert_eq!(memory.host_page_size(), 0);
    assert_eq!(memory.executable_len(), 0);
    assert_eq!(memory.unwind_registry_count(), 0);
    assert_eq!(memory.protect_request(), None);
    assert!(memory.publish(Err("never asked".to_string())).is_ok());
    assert!(!memory.published());

    // Only data: the image is not empty, yet nothing is executable.
    let data = section(CustomSectionProtection::Read, vec![1; 10]);
    let mut registry = UnwindRegistry::new();
    memory.allocate_with_page_size(&mut registry, &[], &[], &[&data], 4096, BASE).unwrap();
    assert_eq!(memory.len(), 64);
    assert_eq!(memory.executable_len(), 0);
    assert_eq!(memory.protect_request(), None);
    assert!(memory.publish(Ok(())).is_ok());
    assert!(!memory.published());
    assert_eq!(memory.protection_at(0), Some(Protection::ReadWrite));
}

#[test]
fn publishing_makes_the_code_executable_and_leaves_the_data_writable() {
    let f0 = function(100);
    let data = section(CustomSectionProtection::Read, vec![1; 10]);
    let mut memory = CodeMemory::new();
    let mut registry = UnwindRegistry::new();
    let (_, _, datas) = memory
        .allocate_with_page_size(&mut registry, &[&f0], &[], &[&data], 4096, BASE)
        .unwrap();
    for offset in [0usize, 50, 111, 112, 4095, 4096, 4159] {
        assert_eq!(memory.protection_at(offset), Some(Protection::ReadWrite));
    }
    assert_eq!(memory.protection_at(4160), None);
    assert_eq!(memory.protect_request(), Some(ProtectRequest { address: BASE, len: 112 }));

    assert!(memory.publish(Ok(())).is_ok());
    assert!(memory.published());
    for offset in 0..112 {
        assert_eq!(memory.protection_at(offset), Some(Protection::ReadExecute));
    }
    for offset in 112..4160 {
        assert_eq!(memory.protection_at(offset), Some(Protection::ReadWrite));
    }
    assert_eq!(datas[0].offset, 4096);

    // The code can no longer be written, the data can.
    assert_eq!(memory.write(0, &[1]), Err(WriteError::Protected));
    assert_eq!(memory.write(111, &[1, 2]), Err(WriteError::Protected));
    assert_eq!(memory.write(4096, &[0xEE]), Ok(()));
    assert_eq!(memory.to_vec()[4096], 0xEE);

    // A second publication has nothing to ask and changes nothing.
    assert_eq!(memory.protect_request(), None);
    assert!(memory.publish(Err("ignored".to_string())).is_ok());
    assert!(memory.published());
}

#[test]
fn a_refusal_of_the_host_fails_the_publication() {
    let f0 = function(100);
    let mut memory = CodeMemory::new();
    let mut registry = UnwindRegistry::new();
    memory.allocate_with_page_size(&mut registry, &[&f0], &[], &[], 4096, BASE).unwrap();
    let error = memory.publish(Err("mprotect failed".to_string())).unwrap_err();
    assert_eq!(error.reason, "mprotect failed");
    assert!(!memory.published());
    assert_eq!(memory.protection_at(0), Some(Protection::ReadWrite));
    assert_eq!(memory.protect_request(), Some(ProtectRequest { address: BASE, len: 112 }));
}

#[test]
fn writes_stay_within_the_image() {
    let f0 = function(16);
    let mut memory = CodeMemory::new();
    let mut registry = UnwindRegistry::new();
    memory.allocate_with_page_size(&mut registry, &[&f0], &[], &[], 64, 0).unwrap();
    assert_eq!(memory.len(), 64);
    let before = memory.to_vec();
    assert_eq!(memory.write(63, &[1, 2]), Err(WriteError::OutOfBounds));
    assert_eq!(memory.write(65, &[]), Err(WriteError::OutOfBounds));
    assert_eq!(memory.write(usize::MAX, &[1]), Err(WriteError::OutOfBounds));
    assert_eq!(memory.to_vec(), before);
    assert_eq!(memory.write(62, &[1, 2]), Ok(()));
    assert_eq!(memory.write(64, &[]), Ok(()));
    let after = memory.to_vec();
    assert_eq!(&after[..62], &before[..62]);
    assert_eq!(&after[62..], &[1, 2]);
}

#[test]
fn views_outside_the_image_have_no_address() {
    let f0 = function(16);
    let mut memory = CodeMemory::new();
    let mut registry = UnwindRegistry::new();
    memory.allocate_with_page_size(&mut registry, &[&f0], &[], &[], 64, 128).unwrap();
    assert_eq!(memory.address_of(&SegmentView { offset: 60, len: 4, align: 1 }), Some(188));
    assert_eq!(memory.address_of(&SegmentView { offset: 60, len: 5, align: 1 }), None);
    assert_eq!(memory.slice(&SegmentView { offset: 60, len: 5, align: 1 }), None);
    assert_eq!(memory.slice(&SegmentView { offset: 0, len: 2, align: 1 }), Some(vec![1, 2]));
}

#[test]
fn allocation_for_the_host_uses_its_page_size() {
    let f0 = function(10);
    let data = section(CustomSectionProtection::Read, vec![1; 10]);
    let mut memory = CodeMemory::new();
    let mut registry = UnwindRegistry::new();
    let (functions, _, datas) = memory.allocate(&mut registry, &[&f0], &[], &[&data], 0).unwrap();
    let page_size = memory.host_page_size();
    assert!(is_valid_page_size(page_size));
    assert_eq!(functions[0].offset, 0);
    assert_eq!(datas[0].offset, page_size);
    assert_eq!(memory.len(), page_size + 64);
}

#[test]
fn an_allocation_replaces_the_image() {
    let f0 = function(10);
    let f1 = function(20);
    let mut memory = CodeMemory::new();
    let mut registry = UnwindRegistry::new();
    memory.allocate_with_page_size(&mut registry, &[&f0], &[], &[], 4096, BASE).unwrap();
    memory.publish(Ok(())).unwrap();
    memory.publish_unwind_registry(UnwindRegistry::new());
    assert_eq!(memory.unwind_registry_count(), 1);
    memory.allocate_with_page_size(&mut registry, &[&f1], &[], &[], 64, 64).unwrap();
    assert!(!memory.published());
    assert_eq!(memory.len(), 64);
    assert_eq!(memory.address(), 64);
    assert_eq!(memory.unwind_registry_count(), 1);
}

#[test]
fn a_code_memory_can_be_handed_to_another_thread() {
    fn assert_send_sync<T: Send + Sync>() {}
    assert_send_sync::<CodeMemory>();
}
