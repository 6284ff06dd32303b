use universal_engine::target::{Architecture, OperatingSystem, Triple};
use universal_engine::module::{
    memory_styles, table_styles, BaseTunables, MemoryStyle, MemoryType, TableStyle, TableType,
    Tunables, Type,
};
use universal_engine::serialize::Features;
use universal_engine::store::{Build, Compiler, CompilerConfig, StoreError, StoreOptions};

fn features() -> Features {
    Features { threads: false, reference_types: true, simd: false, bulk_memory: true, multi_value: true }
}

fn options() -> StoreOptions {
    StoreOptions { singlepass: false, cranelift: false, llvm: false, backend: None, features: features() }
}

fn host(architecture: Architecture) -> Triple {
    Triple { architecture, operating_system: OperatingSystem::Linux }
}

fn build() -> Build {
    Build {
        singlepass: true,
        cranelift: true,
        llvm: true,
        compiler: true,
        engine: true,
        host: host(Architecture::X86_64),
    }
}

#[test]
fn compilers_have_names() {
    assert_eq!(Compiler::Singlepass.to_string(), "singlepass");
    assert_eq!(Compiler::Cranelift.to_string(), "cranelift");
    assert_eq!(Compiler::LLVM.to_string(), "llvm");
    assert_eq!(Compiler::from_str("singlepass"), Ok(Compiler::Singlepass));
    assert_eq!(Compiler::from_str("cranelift"), Ok(Compiler::Cranelift));
    assert_eq!(Compiler::from_str("llvm"), Ok(Compiler::LLVM));
    assert_eq!(Compiler::from_str("LLVM"), Err(StoreError::UnknownCompiler("LLVM".to_string())));
    assert_eq!(Compiler::from_str(""), Err(StoreError::UnknownCompiler(String::new())));
}

#[test]
fn a_flag_chooses_the_compiler() {
    let build = build();
    let mut o = options();
    o.singlepass = true;
    assert_eq!(o.get_compiler(&build), Ok(Compiler::Singlepass));
    o.llvm = true;
    assert_eq!(o.get_compiler(&build), Ok(Compiler::LLVM));
    o.cranelift = true;
    assert_eq!(o.get_compiler(&build), Ok(Compiler::Cranelift));
    o.backend = Some("nonsense".to_string());
    assert_eq!(o.get_compiler(&build), Ok(Compiler::Cranelift));
}

#[test]
fn the_backend_option_names_the_compiler() {
    let build = build();
    let mut o = options();
    o.backend = Some("llvm".to_string());
    assert_eq!(o.get_compiler(&build), Ok(Compiler::LLVM));
    o.backend = Some("gcc".to_string());
    assert_eq!(o.get_compiler(&build), Err(StoreError::UnknownCompiler("gcc".to_string())));
}

#[test]
fn without_a_choice_the_best_compiler_is_taken() {
    let o = options();
    let mut b = build();
    assert_eq!(o.get_compiler(&b), Ok(Compiler::Cranelift));
    b.cranelift = false;
    assert_eq!(o.get_compiler(&b), Ok(Compiler::Singlepass));
    b.singlepass = false;
    assert_eq!(o.get_compiler(&b), Ok(Compiler::LLVM));
    b.llvm = false;
    assert_eq!(o.get_compiler(&b), Err(StoreError::NoCompiler));
    let mut b = build();
    b.host = host(Architecture::Aarch64);
    assert_eq!(o.get_compiler(&b), Ok(Compiler::LLVM));
    b.llvm = false;
    assert_eq!(o.get_compiler(&b), Err(StoreError::NoCompiler));
}

#[test]
fn a_compiler_has_to_be_a_part_of_the_program() {
    let o = options();
    let mut b = build();
    b.llvm = false;
    assert_eq!(o.get_config(Compiler::LLVM, &b), Err(StoreError::NotIncluded(Compiler::LLVM)));
    assert_eq!(
        o.get_config(Compiler::Cranelift, &b),
        Ok(CompilerConfig { compiler: Compiler::Cranelift, features: features(), target: b.host })
    );
    let mut o = options();
    o.llvm = true;
    assert_eq!(o.get_compiler_config(&b), Err(StoreError::NotIncluded(Compiler::LLVM)));
    o.llvm = false;
    o.singlepass = true;
    let (config, name) = o.get_compiler_config(&b).unwrap();
    assert_eq!(config.compiler, Compiler::Singlepass);
    assert_eq!(name, "singlepass");
}

#[test]
fn tunables_follow_the_width_of_addresses() {
    let wide = BaseTunables::for_target(&host(Architecture::X86_64));
    assert_eq!(wide.static_memory_bound, 0x1_0000);
    assert_eq!(wide.static_memory_offset_guard_size, 0x8000_0000);
    assert_eq!(wide.dynamic_memory_offset_guard_size, 0x1_0000);
    assert_eq!(BaseTunables::for_target(&host(Architecture::Aarch64)), wide);
    let narrow = BaseTunables::for_target(&host(Architecture::X86_32));
    assert_eq!(narrow.static_memory_bound, 0x4000);
    assert_eq!(narrow.static_memory_offset_guard_size, 0x1_0000);
    assert_eq!(narrow.dynamic_memory_offset_guard_size, 0x1_0000);
    let o = options();
    let config = CompilerConfig { compiler: Compiler::LLVM, features: features(), target: host(Architecture::X86_32) };
    assert_eq!(o.get_tunables(&config), narrow);
}

#[test]
fn tunables_choose_the_styles() {
    let tunables = BaseTunables::for_target(&host(Architecture::X86_64));
    let small = MemoryType { minimum: 1, maximum: Some(0x1_0000), shared: false };
    let large = MemoryType { minimum: 1, maximum: Some(0x1_0001), shared: false };
    let open = MemoryType { minimum: 1, maximum: None, shared: false };
    assert_eq!(
        tunables.memory_style(&small),
        MemoryStyle::Static { bound: 0x1_0000, offset_guard_size: 0x8000_0000 }
    );
    assert_eq!(tunables.memory_style(&large), MemoryStyle::Dynamic { offset_guard_size: 0x1_0000 });
    assert_eq!(tunables.memory_style(&open), MemoryStyle::Dynamic { offset_guard_size: 0x1_0000 });
    assert_eq!(
        memory_styles(&vec![open, small], &tunables),
        vec![
            MemoryStyle::Dynamic { offset_guard_size: 0x1_0000 },
            MemoryStyle::Static { bound: 0x1_0000, offset_guard_size: 0x8000_0000 },
        ]
    );
    let table = TableType { ty: Type::FuncRef, minimum: 0, maximum: None };
    assert_eq!(tunables.table_style(&table), TableStyle::CallerChecksSignature);
    assert_eq!(table_styles(&vec![table, table], &tunables), vec![TableStyle::CallerChecksSignature; 2]);
}

#[test]
fn a_store_needs_an_engine() {
    let o = options();
    let mut b = build();
    b.engine = false;
    assert_eq!(o.get_store(&b).unwrap_err(), StoreError::NoEngine);
    b.compiler = false;
    assert_eq!(o.get_store(&b).unwrap_err(), StoreError::NoEngine);
}

#[test]
fn a_program_without_a_compiler_gets_a_headless_store() {
    let mut o = options();
    o.backend = Some("nonsense".to_string());
    let mut b = build();
    b.compiler = false;
    let (store, name) = o.get_store(&b).unwrap();
    assert_eq!(name, "headless");
    assert_eq!(store.compiler, None);
    assert_eq!(store.tunables, BaseTunables::for_target(&b.host));
    assert_eq!(store.engine.signature_registry().len(), 0);
}

#[test]
fn a_store_carries_the_chosen_compiler() {
    let mut o = options();
    o.singlepass = true;
    let b = build();
    let (store, name) = o.get_store(&b).unwrap();
    assert_eq!(name, "singlepass");
    assert_eq!(
        store.compiler,
        Some(CompilerConfig { compiler: Compiler::Singlepass, features: features(), target: b.host })
    );
    assert_eq!(store.tunables.static_memory_bound, 0x1_0000);
    let mut b = build();
    b.singlepass = false;
    assert_eq!(o.get_store(&b).unwrap_err(), StoreError::NotIncluded(Compiler::Singlepass));
    o.singlepass = false;
    o.backend = Some("x".to_string());
    assert_eq!(o.get_store(&b).unwrap_err(), StoreError::UnknownCompiler("x".to_string()));
}
