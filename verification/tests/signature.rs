use universal_engine::module::{FunctionType, Type};
use universal_engine::signature::{SignatureRegistry, VMSharedSignatureIndex};

fn signature(params: &[Type], results: &[Type]) -> FunctionType {
    FunctionType { params: params.to_vec(), results: results.to_vec() }
}

#[test]
fn the_same_signature_gets_the_same_index() {
    let mut registry = SignatureRegistry::new();
    let a = signature(&[Type::I32, Type::I64], &[Type::F32]);
    let b = signature(&[Type::I32], &[Type::I64, Type::F32]);
    let c = signature(&[], &[]);
    assert_eq!(registry.register(&a), VMSharedSignatureIndex(0));
    assert_eq!(registry.register(&b), VMSharedSignatureIndex(1));
    assert_eq!(registry.register(&a), VMSharedSignatureIndex(0));
    assert_eq!(registry.register(&c), VMSharedSignatureIndex(2));
    assert_eq!(registry.register(&signature(&[Type::I32, Type::I64], &[Type::F32])), VMSharedSignatureIndex(0));
    assert_eq!(registry.register(&b), VMSharedSignatureIndex(1));
    assert_eq!(registry.len(), 3);
    assert_eq!(registry.lookup(VMSharedSignatureIndex(1)), Some(b));
    assert_eq!(registry.lookup(VMSharedSignatureIndex(3)), None);
}

#[test]
fn signatures_are_interned_in_order() {
    let mut registry = SignatureRegistry::new();
    let a = signature(&[Type::I32], &[]);
    let b = signature(&[Type::F64], &[Type::V128]);
    registry.register(&b);
    let indices = registry.register_all(&vec![a.duplicate(), b.duplicate(), a.duplicate(), signature(&[], &[Type::FuncRef])]);
    assert_eq!(
        indices,
        vec![
            VMSharedSignatureIndex(1),
            VMSharedSignatureIndex(0),
            VMSharedSignatureIndex(1),
            VMSharedSignatureIndex(2)
        ]
    );
    assert_eq!(registry.len(), 3);
}

#[test]
fn signatures_are_compared_by_their_types() {
    let a = signature(&[Type::I32, Type::I64], &[]);
    assert!(a.same_as(&signature(&[Type::I32, Type::I64], &[])));
    assert!(!a.same_as(&signature(&[Type::I64, Type::I32], &[])));
    assert!(!a.same_as(&signature(&[Type::I32], &[Type::I64])));
    assert!(!a.same_as(&signature(&[Type::I32, Type::I64, Type::I64], &[])));
    assert_eq!(a.duplicate(), a);
}
