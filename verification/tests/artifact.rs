use universal_engine::artifact::{
    CompiledModule, FunctionBodyPtr, FunctionExtent, LinkedArtifact, UniversalArtifact,
    UniversalArtifactBuild, VMTrampoline,
};
use universal_engine::code_memory::{AllocationError, ProtectRequest, Protection};
use universal_engine::compilation::{
    CompiledFunctionUnwindInfo, CustomSection, CustomSectionProtection, FunctionBody, Relocation,
    RelocationKind, RelocationTarget,
};
use universal_engine::engine::UniversalEngineInner;
use universal_engine::error::{CompileError, DeserializeError};
use universal_engine::frame::{frame, magic, unframe};
use universal_engine::link::LinkError;
use universal_engine::module::{
    BaseTunables, FunctionType, MemoryStyle, MemoryType, ModuleInfo, TableStyle, TableType, Type,
};
use universal_engine::serialize::{
    CompiledFunctionFrameInfo, Dwarf, Features, InstructionAddressMap, OwnedDataInitializer,
    SerializableCompilation, SerializableModule, TrapInformation,
};
use universal_engine::signature::VMSharedSignatureIndex;
use universal_engine::target::{Architecture, OperatingSystem, Triple};
use universal_engine::unwind::FrameTable;

const BASE: usize = 0x4000_0000;

fn body(len: usize, fill: u8) -> FunctionBody {
    FunctionBody { body: vec![fill; len], unwind_info: None }
}

fn frame_info(offset: u32) -> CompiledFunctionFrameInfo {
    CompiledFunctionFrameInfo {
        traps: vec![TrapInformation { code_offset: offset, trap_code: 2 }],
        address_map: vec![InstructionAddressMap { srcloc: 7, code_offset: 0, code_len: offset }],
    }
}

/// A module of two local functions, one of them with an inline unwind
/// table, one trampoline of either kind, a section of call frame
/// information, a section of libcall trampolines and a data section.
fn compiled() -> CompiledModule {
    let f0 = body(10, 0x90);
    let f1 = FunctionBody {
        body: vec![0xC3; 17],
        unwind_info: Some(CompiledFunctionUnwindInfo::WindowsX64(vec![1, 2, 3, 4, 5])),
    };
    CompiledModule {
        features: Features {
            threads: false,
            reference_types: true,
            simd: true,
            bulk_memory: false,
            multi_value: true,
        },
        module: ModuleInfo {
            signatures: vec![
                FunctionType { params: vec![Type::I32], results: vec![Type::I32] },
                FunctionType { params: vec![], results: vec![] },
            ],
            memories: vec![MemoryType { minimum: 1, maximum: Some(16), shared: false }],
            tables: vec![TableType { ty: Type::FuncRef, minimum: 0, maximum: None }],
        },
        compilation: SerializableCompilation {
            function_bodies: vec![f0, f1],
            function_relocations: vec![
                vec![Relocation {
                    kind: RelocationKind::Abs8,
                    reloc_target: RelocationTarget::CustomSection(0),
                    offset: 2,
                    addend: 0,
                }],
                vec![Relocation {
                    kind: RelocationKind::PcRel4,
                    reloc_target: RelocationTarget::LibCall(1),
                    offset: 1,
                    addend: -4,
                }],
            ],
            function_frame_info: vec![frame_info(4), frame_info(9)],
            function_call_trampolines: vec![body(8, 0xAA)],
            dynamic_function_trampolines: vec![body(12, 0xBB)],
            custom_sections: vec![
                CustomSection { protection: CustomSectionProtection::Read, bytes: vec![0xEE; 40] },
                CustomSection {
                    protection: CustomSectionProtection::ReadExecute,
                    bytes: vec![0xF4; 32],
                },
                CustomSection { protection: CustomSectionProtection::Read, bytes: vec![0xDD; 4] },
            ],
            custom_section_relocations: vec![
                vec![],
                vec![],
                vec![Relocation {
                    kind: RelocationKind::PcRel4,
                    reloc_target: RelocationTarget::LocalFunc(1),
                    offset: 0,
                    addend: 0,
                }],
            ],
            debug: Some(Dwarf { eh_frame: 0 }),
            libcall_trampolines: 1,
            libcall_trampoline_len: 16,
        },
        data_initializers: vec![OwnedDataInitializer {
            memory_index: 0,
            offset: 8,
            data: vec![1, 2, 3],
        }],
        cpu_features: 0b1011,
    }
}

fn tunables() -> BaseTunables {
    BaseTunables {
        static_memory_bound: 0x1_0000,
        static_memory_offset_guard_size: 0x8000_0000,
        dynamic_memory_offset_guard_size: 0x1_0000,
    }
}

fn build() -> UniversalArtifactBuild {
    UniversalArtifact::new_build(Some(compiled()), &tunables()).unwrap()
}

fn linked(engine: &mut UniversalEngineInner) -> LinkedArtifact {
    UniversalArtifact::from_build(engine, build(), BASE).unwrap()
}

fn artifact(engine: &mut UniversalEngineInner) -> UniversalArtifact {
    linked(engine).publish(Ok(())).unwrap()
}

#[test]
fn a_build_gets_its_styles_from_the_tunables() {
    let build = build();
    let info = &build.serializable.compile_info;
    assert_eq!(
        info.memory_styles,
        vec![MemoryStyle::Static { bound: 0x1_0000, offset_guard_size: 0x8000_0000 }]
    );
    assert_eq!(info.table_styles, vec![TableStyle::CallerChecksSignature]);
    assert_eq!(info.module, compiled().module);
    assert_eq!(info.features, compiled().features);
    assert_eq!(build.serializable.compilation, compiled().compilation);
    assert_eq!(build.serializable.data_initializers, compiled().data_initializers);
    assert_eq!(build.serializable.cpu_features, 0b1011);
}

#[test]
fn without_a_code_generator_nothing_is_compiled() {
    let res = UniversalArtifact::new_build(None, &tunables());
    assert_eq!(
        res,
        Err(CompileError::Codegen("Compilation is not enabled in the engine".to_string()))
    );
}

#[test]
fn a_module_is_placed_linked_and_published() {
    let mut engine = UniversalEngineInner::new(4096);
    let linked = linked(&mut engine);
    // Bodies: 10 -> 16; 17 + 3 + 5 = 25 -> 32; 8 -> 16; 12 -> 16. The
    // executable section of 32 bytes follows at 80.
    assert_eq!(linked.protect_request(), Some(ProtectRequest { address: BASE, len: 112 }));
    assert_eq!(linked.unwind_entry_count(), 1);
    let image = linked.image();
    // 4096, then the data sections of 40 and 4 bytes, each rounded up to 64.
    assert_eq!(image.len(), 4096 + 64 + 64);
    // Function 0, offset 2: the address of section 0, the first data section.
    assert_eq!(&image[2..10], &(BASE as u64 + 4096).to_le_bytes());
    // Function 1 at 16, offset 1: the distance to the second libcall
    // trampoline at 80 + 16, less 4.
    assert_eq!(&image[17..21], &(96i32 - 17 - 4).to_le_bytes());
    // Section 2 at 4096 + 64: the distance back to function 1.
    assert_eq!(&image[4160..4164], &(16i32 - 4160).to_le_bytes());
    assert_eq!(&image[4164..4167], &[0; 3]);

    let artifact = linked.publish(Ok(())).unwrap();
    assert_eq!(artifact.finished_functions(), &vec![FunctionBodyPtr(BASE), FunctionBodyPtr(BASE + 16)]);
    assert_eq!(artifact.finished_function_lengths(), &vec![10, 17]);
    assert_eq!(artifact.finished_function_call_trampolines(), &vec![VMTrampoline(BASE + 48)]);
    assert_eq!(artifact.finished_dynamic_function_trampolines(), &vec![FunctionBodyPtr(BASE + 64)]);
    assert_eq!(artifact.signatures(), &vec![VMSharedSignatureIndex(0), VMSharedSignatureIndex(1)]);
    let memory = artifact.code_memory();
    assert!(memory.published());
    assert_eq!(memory.to_vec(), image);
    assert_eq!(memory.executable_len(), 112);
    assert_eq!(memory.protection_at(111), Some(Protection::ReadExecute));
    assert_eq!(memory.protection_at(112), Some(Protection::ReadWrite));
    assert_eq!(memory.protection_at(4096), Some(Protection::ReadWrite));
    assert_eq!(memory.unwind_registry_count(), 1);
    assert_eq!(engine.signature_registry().len(), 2);
}

#[test]
fn the_unwind_registry_is_closed_with_the_call_frame_information() {
    let mut engine = UniversalEngineInner::new(4096);
    let linked = linked(&mut engine);
    // Section 0 is the first data section: it lies at the page boundary and
    // has 40 bytes.
    let table = FrameTable { address: BASE + 4096, len: 40 };
    assert_eq!(linked.eh_frame(), Some(table));
    let artifact = linked.publish(Ok(())).unwrap();
    let memory = artifact.code_memory();
    assert_eq!(memory.unwind_registry_count(), 1);
    assert!(memory.unwind_registry(1).is_none());
    let registry = memory.unwind_registry(0).unwrap();
    assert!(registry.published());
    assert_eq!(registry.eh_frame(), Some(table));
    // Of the four function bodies one has unwind information: function 1.
    assert_eq!(registry.len(), 1);
    assert_eq!(registry.address(0), Some(BASE + 16));
    assert_eq!(registry.length(0), Some(17));
    assert_eq!(registry.table(0), Some(vec![1, 2, 3, 4, 5]));
}

#[test]
fn debug_information_has_to_name_a_section_of_the_module() {
    let mut engine = UniversalEngineInner::new(4096);
    let mut broken = compiled();
    broken.compilation.debug = Some(Dwarf { eh_frame: 3 });
    let build = UniversalArtifact::new_build(Some(broken), &tunables()).unwrap();
    let res = UniversalArtifact::from_build(&mut engine, build, BASE);
    assert_eq!(res.unwrap_err(), CompileError::Debug);
    assert_eq!(engine.signature_registry().len(), 0);

    let mut without = compiled();
    without.compilation.debug = None;
    let build = UniversalArtifact::new_build(Some(without), &tunables()).unwrap();
    let linked = UniversalArtifact::from_build(&mut engine, build, BASE).unwrap();
    assert_eq!(linked.eh_frame(), None);
    let artifact = linked.publish(Ok(())).unwrap();
    assert_eq!(artifact.code_memory().unwind_registry(0).unwrap().eh_frame(), None);
}

#[test]
fn a_refusal_of_the_host_leaves_no_artifact() {
    let mut engine = UniversalEngineInner::new(4096);
    let linked = linked(&mut engine);
    let res = linked.publish(Err("no permission".to_string()));
    match res {
        Err(CompileError::Publish(e)) => assert_eq!(e.reason, "no permission"),
        other => panic!("unexpected {:?}", other.map(|_| ())),
    }
}

#[test]
fn a_module_without_code_needs_no_permission() {
    let mut module = compiled();
    module.compilation = SerializableCompilation {
        function_bodies: vec![],
        function_relocations: vec![],
        function_frame_info: vec![],
        function_call_trampolines: vec![],
        dynamic_function_trampolines: vec![],
        custom_sections: vec![],
        custom_section_relocations: vec![],
        debug: None,
        libcall_trampolines: 0,
        libcall_trampoline_len: 0,
    };
    let build = UniversalArtifact::new_build(Some(module), &tunables()).unwrap();
    let mut engine = UniversalEngineInner::new(4096);
    let linked = UniversalArtifact::from_build(&mut engine, build, BASE).unwrap();
    assert_eq!(linked.protect_request(), None);
    assert_eq!(linked.unwind_entry_count(), 0);
    let mut artifact = linked.publish(Err("never asked".to_string())).unwrap();
    assert!(artifact.finished_functions().is_empty());
    assert!(!artifact.code_memory().published());
    artifact.register_frame_info();
    assert!(artifact.frame_info_registration().is_none());
}

#[test]
fn a_malformed_relocation_fails_the_build() {
    let mut module = compiled();
    module.compilation.custom_section_relocations[2][0].offset = 1;
    let build = UniversalArtifact::new_build(Some(module), &tunables()).unwrap();
    let mut engine = UniversalEngineInner::new(4096);
    let res = UniversalArtifact::from_build(&mut engine, build, BASE);
    assert_eq!(res.unwrap_err(), CompileError::Link(LinkError::OutOfBounds));
    assert_eq!(engine.signature_registry().len(), 0);

    let mut module = compiled();
    module.compilation.function_relocations[0][0].reloc_target = RelocationTarget::LocalFunc(2);
    let build = UniversalArtifact::new_build(Some(module), &tunables()).unwrap();
    let res = UniversalArtifact::from_build(&mut engine, build, BASE);
    assert_eq!(res.unwrap_err(), CompileError::Link(LinkError::UnresolvedTarget));
    assert_eq!(engine.signature_registry().len(), 0);
}

#[test]
fn a_module_that_cannot_be_placed_fails_the_build() {
    let mut engine = UniversalEngineInner::new(4096);
    let res = UniversalArtifact::from_build(&mut engine, build(), BASE + 1);
    assert_eq!(res.unwrap_err(), CompileError::Resource(AllocationError::BaseAddress));
    let mut engine = UniversalEngineInner::new(1000);
    let res = UniversalArtifact::from_build(&mut engine, build(), 0);
    assert_eq!(res.unwrap_err(), CompileError::Resource(AllocationError::PageSize));
    let mut engine = UniversalEngineInner::new(4096);
    let res = UniversalArtifact::from_build(&mut engine, build(), usize::MAX - 4095);
    assert_eq!(res.unwrap_err(), CompileError::Resource(AllocationError::TooLarge));
    assert_eq!(engine.signature_registry().len(), 0);
    assert_eq!(engine.host_page_size(), 4096);
}

#[test]
fn artifacts_of_one_engine_share_their_signatures() {
    let mut engine = UniversalEngineInner::new(4096);
    let first = artifact(&mut engine);
    let mut module = compiled();
    module.module.signatures = vec![
        FunctionType { params: vec![Type::F64], results: vec![] },
        FunctionType { params: vec![], results: vec![] },
        FunctionType { params: vec![Type::I32], results: vec![Type::I32] },
    ];
    let build = UniversalArtifact::new_build(Some(module), &tunables()).unwrap();
    let second =
        UniversalArtifact::from_build(&mut engine, build, BASE + 0x10000).unwrap().publish(Ok(())).unwrap();
    assert_eq!(first.signatures(), &vec![VMSharedSignatureIndex(0), VMSharedSignatureIndex(1)]);
    assert_eq!(
        second.signatures(),
        &vec![VMSharedSignatureIndex(2), VMSharedSignatureIndex(1), VMSharedSignatureIndex(0)]
    );
    assert_eq!(engine.signature_registry().len(), 3);
}

#[test]
fn frame_information_is_registered_once() {
    let mut engine = UniversalEngineInner::new(4096);
    let mut artifact = artifact(&mut engine);
    assert!(artifact.frame_info_registration().is_none());
    assert!(artifact.frame_info_at(BASE).is_none());
    artifact.register_frame_info();
    let registration = artifact.frame_info_registration().unwrap();
    assert_eq!(registration.len(), 2);
    let first = FunctionExtent { ptr: FunctionBodyPtr(BASE), length: 10 };
    let second = FunctionExtent { ptr: FunctionBodyPtr(BASE + 16), length: 17 };
    assert_eq!(registration.extent(0), Some(first));
    assert_eq!(registration.extent(1), Some(second));
    assert_eq!(registration.extent(2), None);
    let image = artifact.code_memory().to_vec();
    let pointers = artifact.finished_functions().clone();

    artifact.register_frame_info();
    let again = artifact.frame_info_registration().unwrap();
    assert_eq!(again.len(), 2);
    assert_eq!(again.extent(0), Some(first));
    assert_eq!(again.extent(1), Some(second));
    assert_eq!(artifact.code_memory().to_vec(), image);
    assert_eq!(artifact.finished_functions(), &pointers);
}

#[test]
fn an_address_leads_to_the_frame_information_of_its_function() {
    let mut engine = UniversalEngineInner::new(4096);
    let mut artifact = artifact(&mut engine);
    artifact.register_frame_info();
    let registration = artifact.frame_info_registration().unwrap();
    assert_eq!(registration.lookup(BASE), Some(0));
    assert_eq!(registration.lookup(BASE + 9), Some(0));
    assert_eq!(registration.lookup(BASE + 10), None);
    assert_eq!(registration.lookup(BASE + 16), Some(1));
    assert_eq!(registration.lookup(BASE + 32), Some(1));
    assert_eq!(registration.lookup(BASE + 33), None);
    assert_eq!(registration.lookup(BASE - 1), None);
    assert_eq!(registration.lookup(usize::MAX), None);
    assert_eq!(artifact.frame_info_at(BASE + 3), Some(&frame_info(4)));
    assert_eq!(artifact.frame_info_at(BASE + 20), Some(&frame_info(9)));
    assert_eq!(artifact.frame_info_at(BASE + 12), None);
}

#[test]
fn an_artifact_hands_out_its_record() {
    let mut engine = UniversalEngineInner::new(4096);
    let artifact = artifact(&mut engine);
    let build = build();
    assert_eq!(artifact.artifact(), &build);
    assert_eq!(artifact.create_module_info(), &build.serializable.compile_info.module);
    assert_eq!(artifact.features(), &build.serializable.compile_info.features);
    assert_eq!(artifact.cpu_features(), 0b1011);
    assert_eq!(artifact.data_initializers(), &build.serializable.data_initializers);
    assert_eq!(artifact.memory_styles(), &build.serializable.compile_info.memory_styles);
    assert_eq!(artifact.table_styles(), &build.serializable.compile_info.table_styles);
}

#[test]
fn a_serialized_artifact_builds_the_same_artifact_again() {
    let mut engine = UniversalEngineInner::new(4096);
    let linked = linked(&mut engine);
    let unwind_entries = linked.unwind_entry_count();
    let mut artifact = linked.publish(Ok(())).unwrap();
    let bytes = artifact.serialize().unwrap();
    assert!(UniversalArtifact::is_deserializable(&bytes));

    let mut other = UniversalEngineInner::new(4096);
    let linked = UniversalArtifact::deserialize(&mut other, &bytes, BASE).unwrap();
    assert_eq!(linked.unwind_entry_count(), unwind_entries);
    assert_eq!(unwind_entries, 1);
    let mut again = linked.publish(Ok(())).unwrap();
    assert_eq!(again.finished_functions().len(), artifact.finished_functions().len());
    assert_eq!(again.finished_functions(), artifact.finished_functions());
    assert_eq!(again.finished_function_lengths(), artifact.finished_function_lengths());
    assert_eq!(
        again.finished_function_call_trampolines(),
        artifact.finished_function_call_trampolines()
    );
    assert_eq!(
        again.finished_dynamic_function_trampolines(),
        artifact.finished_dynamic_function_trampolines()
    );
    assert_eq!(again.signatures(), artifact.signatures());
    assert_eq!(again.artifact(), artifact.artifact());
    assert_eq!(again.code_memory().to_vec(), artifact.code_memory().to_vec());
    assert_eq!(again.serialize().unwrap(), bytes);
    artifact.register_frame_info();
    again.register_frame_info();
    assert_eq!(again.frame_info_registration(), artifact.frame_info_registration());
}

#[test]
fn a_serialized_artifact_is_its_header_the_length_and_the_module() {
    let build = build();
    let bytes = build.serialize().unwrap();
    let module = build.serializable.serialize().unwrap();
    assert_eq!(&bytes[..16], b"universal-engine");
    assert_eq!(magic(), b"universal-engine".to_vec());
    assert_eq!(&bytes[16..20], &[1, 0, 0, 0]);
    assert_eq!(&bytes[20..28], &(module.len() as u64).to_le_bytes());
    assert_eq!(&bytes[28..], &module[..]);
    assert_eq!(frame(&module), bytes);
    assert_eq!(unframe(&bytes), Ok(&module[..]));
    assert_eq!(frame(&[]), [&b"universal-engine"[..], &[1, 0, 0, 0, 0, 0, 0, 0, 0, 0, 0, 0][..]].concat());
    assert_eq!(unframe(&frame(&[1, 2, 3])), Ok(&[1u8, 2, 3][..]));
    assert_eq!(unframe(b"universal-engine"), Err(DeserializeError::CorruptedBinary));
    assert_eq!(unframe(b"universal-engine\x01\0\0"), Err(DeserializeError::CorruptedBinary));
    assert_eq!(unframe(b"universal-engine\x01\0\0\0"), Err(DeserializeError::CorruptedBinary));
    assert_eq!(unframe(b"universal-engin"), Err(DeserializeError::Incompatible));
    assert_eq!(UniversalArtifactBuild::deserialize(&bytes), Ok(build));
}

#[test]
fn bytes_without_the_header_are_incompatible() {
    let mut engine = UniversalEngineInner::new(4096);
    for bytes in [&b""[..], &b"universal-engin"[..], &b"Universal-engine\0\0\0\0\0\0\0\0"[..]] {
        assert!(!UniversalArtifact::is_deserializable(bytes));
        assert!(!UniversalArtifactBuild::is_deserializable(bytes));
        let res = UniversalArtifact::deserialize(&mut engine, bytes, BASE);
        assert_eq!(res.unwrap_err(), DeserializeError::Incompatible);
    }
    assert!(UniversalArtifact::is_deserializable(b"universal-engine"));
    assert!(UniversalArtifact::is_deserializable(b"universal-engine and more"));
}

#[test]
fn bytes_of_another_version_are_refused() {
    let mut engine = UniversalEngineInner::new(4096);
    let mut bytes = build().serialize().unwrap();
    bytes[16] = 2;
    assert!(UniversalArtifact::is_deserializable(&bytes));
    assert_eq!(unframe(&bytes), Err(DeserializeError::Version(2)));
    let res = UniversalArtifact::deserialize(&mut engine, &bytes, BASE);
    assert_eq!(res.unwrap_err(), DeserializeError::Version(2));
    bytes[16] = 1;
    bytes[19] = 0x80;
    assert_eq!(
        UniversalArtifactBuild::deserialize(&bytes),
        Err(DeserializeError::Version(0x8000_0001))
    );
    assert_eq!(unframe(b"universal-engine\0\0\0\0"), Err(DeserializeError::Version(0)));
    assert_eq!(engine.signature_registry().len(), 0);
}

#[test]
fn damaged_bytes_are_corrupted() {
    let mut engine = UniversalEngineInner::new(4096);
    let bytes = build().serialize().unwrap();
    let mut short = bytes.clone();
    short.pop();
    let mut long = bytes.clone();
    long.push(0);
    let mut wrong_length = bytes.clone();
    wrong_length[20] ^= 1;
    let mut wrong_module = bytes.clone();
    // The first field is the number of functions: no module has that many.
    wrong_module[28 + 7] = 0xFF;
    let header_only = bytes[..16].to_vec();
    let no_module = [&bytes[..20], &[0u8; 8][..]].concat();
    for damaged in [short, long, wrong_length, wrong_module, header_only, no_module] {
        let res = UniversalArtifact::deserialize(&mut engine, &damaged, BASE);
        assert_eq!(res.unwrap_err(), DeserializeError::CorruptedBinary);
        assert_eq!(
            UniversalArtifactBuild::deserialize(&damaged),
            Err(DeserializeError::CorruptedBinary)
        );
    }
    assert_eq!(engine.signature_registry().len(), 0);
}

#[test]
fn a_serialized_module_that_cannot_be_built_is_refused() {
    let mut module = compiled();
    module.compilation.function_relocations[1][0].offset = 14;
    let build = UniversalArtifact::new_build(Some(module), &tunables()).unwrap();
    let bytes = build.serialize().unwrap();
    let mut engine = UniversalEngineInner::new(4096);
    let res = UniversalArtifact::deserialize(&mut engine, &bytes, BASE);
    assert_eq!(
        res.unwrap_err(),
        DeserializeError::Compiler(CompileError::Link(LinkError::OutOfBounds))
    );
}

#[test]
fn the_extension_of_serialized_artifacts_is_the_same_for_all_targets() {
    for architecture in [Architecture::X86_32, Architecture::X86_64, Architecture::Aarch64] {
        for operating_system in
            [OperatingSystem::Linux, OperatingSystem::Darwin, OperatingSystem::Windows]
        {
            let triple = Triple { architecture, operating_system };
            assert_eq!(UniversalArtifact::get_default_extension(&triple), "wasmu");
            assert_eq!(UniversalArtifactBuild::get_default_extension(&triple), "wasmu");
        }
    }
}

#[test]
fn an_engine_for_the_host_builds_with_its_page_size() {
    let mut engine = UniversalEngineInner::for_host();
    let page_size = engine.host_page_size();
    assert!(page_size >= 64 && page_size.is_power_of_two());
    let linked = UniversalArtifact::from_build(&mut engine, build(), page_size * 3).unwrap();
    assert_eq!(linked.image().len(), page_size + 128);
    let module = SerializableModule::deserialize(&build().serializable.serialize().unwrap());
    assert_eq!(module, Ok(build().serializable));
}
