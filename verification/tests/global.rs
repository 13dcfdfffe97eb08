use wasm_rs::exec::{GlobalAddr, GlobalInst, Store, Val};
use wasm_rs::structure::modules::GlobalIdx;
use wasm_rs::structure::types::{GlobalType, Mut, ValType};

#[test]
fn set_then_get_reads_back_the_value() {
    let mut store = Store::new();
    let g = GlobalAddr::new(&mut store, Mut::Var, Val::I32(1), GlobalIdx(0));
    assert_eq!(g, GlobalAddr(0, GlobalIdx(0)));
    assert_eq!(g.set(&mut store, Val::I32(42)), Some(()));
    assert_eq!(g.get(&store), Val::I32(42));
    assert_eq!(g.get_inst(&store), GlobalInst { value: Val::I32(42), mut_: Mut::Var });
}

#[test]
fn set_of_another_type_is_refused() {
    let mut store = Store::new();
    let g = GlobalAddr::new(&mut store, Mut::Var, Val::I32(1), GlobalIdx(0));
    assert_eq!(g.set(&mut store, Val::I64(2)), None);
    assert_eq!(g.get(&store), Val::I32(1));
    assert_eq!(g.type_(&store), GlobalType(Mut::Var, ValType::I32));
}

#[test]
fn set_of_a_constant_is_refused() {
    let mut store = Store::new();
    let g = GlobalAddr::new(&mut store, Mut::Const, Val::F64(0x4000_0000_0000_0000), GlobalIdx(3));
    assert_eq!(g.set(&mut store, Val::F64(0)), None);
    assert_eq!(g.get(&store), Val::F64(0x4000_0000_0000_0000));
    assert_eq!(g.type_(&store), GlobalType(Mut::Const, ValType::F64));
}

#[test]
fn handles_on_one_address_share_the_global() {
    let mut store = Store::new();
    let a = GlobalAddr::new(&mut store, Mut::Var, Val::I64(5), GlobalIdx(0));
    let other = GlobalAddr::new(&mut store, Mut::Var, Val::I64(6), GlobalIdx(1));
    let b = GlobalAddr(a.0, GlobalIdx(7));
    assert_eq!(b.set(&mut store, Val::I64(-9)), Some(()));
    assert_eq!(a.get(&store), Val::I64(-9));
    assert_eq!(other.get(&store), Val::I64(6));
}

#[test]
fn mut_inst_and_inst_set_replace_the_instance() {
    let mut store = Store::new();
    let g = GlobalAddr::new(&mut store, Mut::Const, Val::I32(1), GlobalIdx(0));
    g.mut_inst(&mut store).set(Val::F32(0x3f80_0000), Mut::Var);
    assert_eq!(*g.inst(&store), GlobalInst { value: Val::F32(0x3f80_0000), mut_: Mut::Var });
    assert_eq!(g.type_(&store), GlobalType(Mut::Var, ValType::F32));
}

#[test]
fn value_types_and_payload() {
    assert_eq!(Val::I32(-1).val_type(), ValType::I32);
    assert_eq!(Val::I64(-1).val_type(), ValType::I64);
    assert_eq!(Val::F32(0).val_type(), ValType::F32);
    assert_eq!(Val::F64(0).val_type(), ValType::F64);
    assert_eq!(Val::I32(-7).unwrap_i32(), -7);
}

#[test]
fn same_content_compares_what_the_globals_hold() {
    let mut store = Store::new();
    let a = GlobalAddr::new(&mut store, Mut::Var, Val::I64(9), GlobalIdx(3));
    let b = GlobalAddr::new(&mut store, Mut::Var, Val::I64(9), GlobalIdx(3));
    assert!(a != b);
    assert!(a.same_content(&b, &store));
    let c = GlobalAddr::new(&mut store, Mut::Const, Val::I64(9), GlobalIdx(3));
    assert!(!a.same_content(&c, &store));
    let d = GlobalAddr::new(&mut store, Mut::Var, Val::I64(9), GlobalIdx(4));
    assert!(!a.same_content(&d, &store));
    assert_eq!(b.set(&mut store, Val::I64(10)), Some(()));
    assert!(!a.same_content(&b, &store));
}
