use wasm_rs::structure::modules::{FuncIdx, GlobalIdx, TypeIdx, TypedIdx};
use wasm_rs::structure::types::{FuncType, GlobalType, Limits, MemType, Mut, TableType, ValType};

#[test]
fn limits_match() {
    let l = |min, max| Limits { min, max };
    assert!(l(2, None).is_match(&l(1, None)));
    assert!(l(1, None).is_match(&l(1, None)));
    assert!(!l(0, None).is_match(&l(1, None)));
    assert!(!l(2, None).is_match(&l(1, Some(4))));
    assert!(l(2, Some(3)).is_match(&l(1, Some(4))));
    assert!(l(2, Some(4)).is_match(&l(1, Some(4))));
    assert!(!l(2, Some(5)).is_match(&l(1, Some(4))));
    assert!(l(2, Some(5)).is_match(&l(1, None)));
    assert!(TableType(l(3, None)).is_match(&TableType(l(2, None))));
    assert!(!MemType(l(1, None)).is_match(&MemType(l(2, None))));
}

#[test]
fn global_types_match_when_equal() {
    let a = GlobalType(Mut::Var, ValType::I32);
    assert!(a.is_match(&GlobalType(Mut::Var, ValType::I32)));
    assert!(!a.is_match(&GlobalType(Mut::Const, ValType::I32)));
    assert!(!a.is_match(&GlobalType(Mut::Var, ValType::I64)));
}

#[test]
fn func_types_match_when_equal() {
    let a = FuncType(vec![ValType::I32, ValType::I64], vec![ValType::F32]);
    assert!(a.is_match(&FuncType(vec![ValType::I32, ValType::I64], vec![ValType::F32])));
    assert!(!a.is_match(&FuncType(vec![ValType::I32], vec![ValType::F32])));
    assert!(!a.is_match(&FuncType(vec![ValType::I32, ValType::I64], vec![])));
    assert!(!a.is_match(&FuncType(vec![ValType::I64, ValType::I64], vec![ValType::F32])));
    let c = a.clone();
    assert!(c.is_match(&a));
}

#[test]
fn indices_convert() {
    assert_eq!(TypeIdx(3).to_idx(), 3);
    assert_eq!(FuncIdx(0).to_idx(), 0);
    assert_eq!(GlobalIdx(u32::MAX).to_idx(), u32::MAX as usize);
}
