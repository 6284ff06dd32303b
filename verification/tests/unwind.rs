use universal_engine::compilation::CompiledFunctionUnwindInfo;
use universal_engine::unwind::{FrameTable, UnwindRegistrationError, UnwindRegistry};

#[test]
fn entries_are_kept_in_the_order_of_registration() {
    let mut registry = UnwindRegistry::new();
    assert_eq!(registry.len(), 0);
    assert!(!registry.published());
    registry.register(0x1000, 24, &CompiledFunctionUnwindInfo::WindowsX64(vec![1, 2, 3])).unwrap();
    registry.register(0x2000, 8, &CompiledFunctionUnwindInfo::Dwarf).unwrap();
    assert_eq!(registry.len(), 2);
    assert_eq!(registry.address(0), Some(0x1000));
    assert_eq!(registry.length(0), Some(24));
    assert_eq!(registry.table(0), Some(vec![1, 2, 3]));
    assert_eq!(registry.address(1), Some(0x2000));
    assert_eq!(registry.length(1), Some(8));
    assert_eq!(registry.table(1), Some(vec![]));
    assert_eq!(registry.table(2), None);
    assert_eq!(registry.address(2), None);
    assert_eq!(registry.length(2), None);
}

#[test]
fn a_registry_is_published_once() {
    let mut registry = UnwindRegistry::new();
    let table = FrameTable { address: 0x3000, len: 100 };
    assert_eq!(registry.publish(Some(table)), Ok(()));
    assert!(registry.published());
    assert_eq!(registry.eh_frame(), Some(table));
    assert_eq!(registry.publish(None), Err(UnwindRegistrationError::AlreadyPublished));
    assert_eq!(registry.eh_frame(), Some(table));
}

#[test]
fn a_published_registry_takes_no_entries() {
    let mut registry = UnwindRegistry::new();
    registry.register(0x1000, 24, &CompiledFunctionUnwindInfo::Dwarf).unwrap();
    registry.publish(None).unwrap();
    assert_eq!(
        registry.register(0x2000, 8, &CompiledFunctionUnwindInfo::Dwarf),
        Err(UnwindRegistrationError::AlreadyPublished)
    );
    assert_eq!(registry.len(), 1);
    assert_eq!(registry.eh_frame(), None);
}
