use wasm_rs::exec::{
    ExternalModule, ExternalVal, FuncAddr, GlobalAddr, GlobalInst, ImportObjects, MemAddr, MemInst,
    ModuleInst, NameMap, PendingInst, Store, TableAddr, TypedIdxAccess, Val,
};
use wasm_rs::structure::instructions::{Expr, Instr};
use wasm_rs::structure::modules::{
    Data, Elem, Export, ExportDesc, Func, FuncIdx, Global, GlobalIdx, Import, ImportDesc, Mem, MemIdx,
    Module, Name, Start, Table, TableIdx, TypeIdx,
};
use wasm_rs::structure::types::{FuncType, GlobalType, Limits, MemType, Mut, TableType, ValType};
use wasm_rs::WasmError;

fn instantiate(store: &mut Store, m: &Module, objs: ImportObjects) -> Result<usize, WasmError> {
    ModuleInst::new(store, m, objs).and_then(|p| p.finish(Ok(())))
}

fn empty_module() -> Module {
    Module {
        types: vec![],
        funcs: vec![],
        tables: vec![],
        mems: vec![],
        globals: vec![],
        elem: vec![],
        data: vec![],
        start: None,
        imports: vec![],
        exports: vec![],
    }
}

fn name(s: &str) -> Name {
    Name(s.to_string())
}

fn export(n: &str, desc: ExportDesc) -> Export {
    Export { name: name(n), desc }
}

fn import(m: &str, n: &str, desc: ImportDesc) -> Import {
    Import { module: name(m), name: name(n), desc }
}

fn func(t: u32) -> Func {
    Func { type_: TypeIdx(t), locals: vec![], body: Expr(vec![Instr::Nop]) }
}

fn no_imports() -> ImportObjects {
    NameMap::new()
}

fn one_import(m: &str, n: &str, v: ExternalVal) -> ImportObjects {
    let mut inner: ExternalModule = NameMap::new();
    inner.insert(n.to_string(), v);
    let mut objs: ImportObjects = NameMap::new();
    objs.insert(m.to_string(), inner);
    objs
}

/// A module that defines a function, a table, a memory and a mutable global, and exports them.
fn provider() -> Module {
    let mut m = empty_module();
    m.types = vec![FuncType(vec![ValType::I32], vec![ValType::I32])];
    m.funcs = vec![func(0)];
    m.tables = vec![Table { type_: TableType(Limits { min: 4, max: Some(8) }) }];
    m.mems = vec![Mem { type_: MemType(Limits { min: 1, max: None }) }];
    m.globals = vec![Global { type_: GlobalType(Mut::Var, ValType::I32), init: Expr(vec![Instr::I32Const(10)]) }];
    m.exports = vec![
        export("f", ExportDesc::Func(FuncIdx(0))),
        export("table", ExportDesc::Table(TableIdx(0))),
        export("memory", ExportDesc::Mem(MemIdx(0))),
        export("g", ExportDesc::Global(GlobalIdx(0))),
    ];
    m
}

#[test]
fn instantiates_functions_table_memory_and_globals() {
    let mut store = Store::new();
    let a = instantiate(&mut store, &provider(), no_imports()).unwrap();
    assert_eq!(a, 0);
    assert_eq!(store.funcs.len(), 1);
    assert_eq!(store.funcs[0].module, 0);
    assert_eq!(store.tables.len(), 1);
    assert_eq!(store.tables[0].elem, vec![None; 4]);
    assert_eq!(store.tables[0].max, Some(8));
    assert_eq!(store.mems.len(), 1);
    assert_eq!(store.mems[0].data.len(), 65536);
    assert_eq!(store.globals, vec![GlobalInst { value: Val::I32(10), mut_: Mut::Var }]);
    let inst = &store.modules[0];
    assert_eq!(inst.funcs, vec![FuncAddr(0)]);
    assert_eq!(inst.table, Some(TableAddr(0)));
    assert_eq!(inst.mem, Some(MemAddr(0)));
    assert_eq!(inst.globals, vec![GlobalAddr(0, GlobalIdx(0))]);
    assert_eq!(inst.export("f"), ExternalVal::Func(FuncAddr(0)));
    assert_eq!(inst.export("memory").unwrap_mem(), MemAddr(0));
    assert_eq!(inst.export("table").unwrap_table(), TableAddr(0));
    assert_eq!(inst.export("g").unwrap_global(), GlobalAddr(0, GlobalIdx(0)));
    assert_eq!(inst.export("f").unwrap_func().type_(&store).0, vec![ValType::I32]);
}

#[test]
fn exported_global_is_shared_with_importer() {
    let mut store = Store::new();
    let a = instantiate(&mut store, &provider(), no_imports()).unwrap();
    let g = store.modules[a].export("g");
    let mut user = empty_module();
    user.imports = vec![import("env", "g", ImportDesc::Global(GlobalType(Mut::Var, ValType::I32)))];
    user.globals = vec![Global {
        type_: GlobalType(Mut::Const, ValType::I32),
        init: Expr(vec![Instr::GlobalGet(GlobalIdx(0))]),
    }];
    user.exports = vec![export("g", ExportDesc::Global(GlobalIdx(0))), export("copy", ExportDesc::Global(GlobalIdx(1)))];
    let b = instantiate(&mut store, &user, one_import("env", "g", g)).unwrap();
    assert_eq!(b, 1);
    let imported = store.modules[b].export("g").unwrap_global();
    assert_eq!(imported, g.unwrap_global());
    let copy = store.modules[b].export("copy").unwrap_global();
    assert_eq!(copy, GlobalAddr(1, GlobalIdx(1)));
    assert_eq!(copy.get(&store), Val::I32(10));
    assert_eq!(imported.set(&mut store, Val::I32(77)), Some(()));
    assert_eq!(g.unwrap_global().get(&store), Val::I32(77));
    assert_eq!(copy.get(&store), Val::I32(10));
    assert_eq!(copy.set(&mut store, Val::I32(1)), None);
}

#[test]
fn missing_import_is_a_link_error_and_changes_nothing() {
    let mut store = Store::new();
    let mut m = empty_module();
    m.imports = vec![import("env", "g", ImportDesc::Global(GlobalType(Mut::Const, ValType::I32)))];
    m.globals = vec![Global { type_: GlobalType(Mut::Const, ValType::I64), init: Expr(vec![Instr::I64Const(1)]) }];
    assert_eq!(instantiate(&mut store, &m, no_imports()).err(), Some(WasmError::LinkError));
    assert_eq!(store.globals.len(), 0);
    assert_eq!(store.modules.len(), 0);
}

#[test]
fn import_of_the_wrong_kind_or_type_is_a_link_error() {
    let mut store = Store::new();
    instantiate(&mut store, &provider(), no_imports()).unwrap();
    let g = store.modules[0].export("g");
    let f = store.modules[0].export("f");
    let mut m = empty_module();
    m.imports = vec![import("env", "x", ImportDesc::Global(GlobalType(Mut::Const, ValType::I32)))];
    assert_eq!(instantiate(&mut store, &m, one_import("env", "x", g)).err(), Some(WasmError::LinkError));
    assert_eq!(instantiate(&mut store, &m, one_import("env", "x", f)).err(), Some(WasmError::LinkError));
    let mut m2 = empty_module();
    m2.types = vec![FuncType(vec![], vec![])];
    m2.imports = vec![import("env", "x", ImportDesc::Func(TypeIdx(0)))];
    assert_eq!(instantiate(&mut store, &m2, one_import("env", "x", f)).err(), Some(WasmError::LinkError));
    assert_eq!(store.modules.len(), 1);
}

#[test]
fn imported_function_table_and_memory_link() {
    let mut store = Store::new();
    instantiate(&mut store, &provider(), no_imports()).unwrap();
    let exports = store.modules[0].exports();
    let mut m = empty_module();
    m.types = vec![FuncType(vec![ValType::I32], vec![ValType::I32])];
    m.imports = vec![
        import("env", "f", ImportDesc::Func(TypeIdx(0))),
        import("env", "table", ImportDesc::Table(TableType(Limits { min: 2, max: Some(8) }))),
        import("env", "memory", ImportDesc::Mem(MemType(Limits { min: 1, max: None }))),
    ];
    m.funcs = vec![func(0)];
    m.elem = vec![Elem { table: TableIdx(0), offset: Expr(vec![Instr::I32Const(1)]), init: vec![FuncIdx(1), FuncIdx(0)] }];
    m.data = vec![Data { data: MemIdx(0), offset: Expr(vec![Instr::I32Const(65534)]), init: vec![0xab, 0xcd] }];
    m.start = Some(Start { func: FuncIdx(1) });
    let mut objs: ImportObjects = NameMap::new();
    objs.insert("env".to_string(), exports);
    let pending = ModuleInst::new(&mut store, &m, objs).unwrap();
    assert_eq!(pending.start, Some(FuncAddr(1)));
    let b = pending.finish(Ok(())).unwrap();
    let inst = &store.modules[b];
    assert_eq!(inst.funcs, vec![FuncAddr(0), FuncAddr(1)]);
    assert_eq!(inst.table, Some(TableAddr(0)));
    assert_eq!(inst.mem, Some(MemAddr(0)));
    assert_eq!(store.tables.len(), 1);
    assert_eq!(store.tables[0].elem, vec![None, Some(FuncAddr(1)), Some(FuncAddr(0)), None]);
    assert_eq!(store.mems[0].data[65534], 0xab);
    assert_eq!(store.mems[0].data[65535], 0xcd);
    assert_eq!(store.mems[0].data[0], 0);
    assert_eq!(store.funcs[1].module, 1);
    assert_eq!(*inst.funcs.get_idx(FuncIdx(1)), FuncAddr(1));
}

#[test]
fn table_import_with_too_small_limits_is_a_link_error() {
    let mut store = Store::new();
    instantiate(&mut store, &provider(), no_imports()).unwrap();
    let t = store.modules[0].export("table");
    let mut m = empty_module();
    m.imports = vec![import("env", "t", ImportDesc::Table(TableType(Limits { min: 5, max: None })))];
    assert_eq!(instantiate(&mut store, &m, one_import("env", "t", t)).err(), Some(WasmError::LinkError));
    let mut m2 = empty_module();
    m2.imports = vec![import("env", "t", ImportDesc::Table(TableType(Limits { min: 1, max: Some(7) })))];
    assert_eq!(instantiate(&mut store, &m2, one_import("env", "t", t)).err(), Some(WasmError::LinkError));
    let mut m3 = empty_module();
    m3.imports = vec![import("env", "t", ImportDesc::Table(TableType(Limits { min: 4, max: Some(8) })))];
    assert!(instantiate(&mut store, &m3, one_import("env", "t", t)).is_ok());
}

#[test]
fn segment_out_of_bounds_is_a_link_error_after_allocation() {
    let mut store = Store::new();
    let mut m = empty_module();
    m.mems = vec![Mem { type_: MemType(Limits { min: 1, max: None }) }];
    m.globals = vec![Global { type_: GlobalType(Mut::Const, ValType::I32), init: Expr(vec![Instr::I32Const(65535)]) }];
    m.data = vec![
        Data { data: MemIdx(0), offset: Expr(vec![Instr::I32Const(0)]), init: vec![1] },
        Data { data: MemIdx(0), offset: Expr(vec![Instr::GlobalGet(GlobalIdx(0))]), init: vec![1, 2] },
    ];
    assert_eq!(instantiate(&mut store, &m, no_imports()).err(), Some(WasmError::LinkError));
    assert_eq!(store.mems.len(), 1);
    assert_eq!(store.mems[0].data[0], 0);
    assert_eq!(store.globals.len(), 1);
    assert_eq!(store.modules.len(), 0);
}

#[test]
fn negative_offset_does_not_fit() {
    let mut store = Store::new();
    let mut m = empty_module();
    m.tables = vec![Table { type_: TableType(Limits { min: 2, max: None }) }];
    m.types = vec![FuncType(vec![], vec![])];
    m.funcs = vec![func(0)];
    m.elem = vec![Elem { table: TableIdx(0), offset: Expr(vec![Instr::I32Const(-1)]), init: vec![FuncIdx(0)] }];
    assert_eq!(instantiate(&mut store, &m, no_imports()).err(), Some(WasmError::LinkError));
    assert_eq!(store.tables[0].elem, vec![None, None]);
}

#[test]
fn later_segments_overwrite_earlier_ones() {
    let mut store = Store::new();
    let mut m = empty_module();
    m.mems = vec![Mem { type_: MemType(Limits { min: 1, max: Some(1) }) }];
    m.data = vec![
        Data { data: MemIdx(0), offset: Expr(vec![Instr::I32Const(0)]), init: vec![1, 2, 3] },
        Data { data: MemIdx(0), offset: Expr(vec![Instr::I32Const(1)]), init: vec![9] },
    ];
    instantiate(&mut store, &m, no_imports()).unwrap();
    assert_eq!(&store.mems[0].data[0..4], &[1, 9, 3, 0]);
    assert_eq!(MemAddr(0).type_(&store), MemType(Limits { min: 1, max: Some(1) }));
}

#[test]
fn export_finds_the_first_and_exports_keeps_the_last() {
    let mut store = Store::new();
    let mut m = empty_module();
    m.globals = vec![
        Global { type_: GlobalType(Mut::Const, ValType::I32), init: Expr(vec![Instr::I32Const(1)]) },
        Global { type_: GlobalType(Mut::Const, ValType::I64), init: Expr(vec![Instr::I64Const(2)]) },
    ];
    m.exports = vec![export("a", ExportDesc::Global(GlobalIdx(0))), export("a", ExportDesc::Global(GlobalIdx(1))), export("b", ExportDesc::Global(GlobalIdx(1)))];
    let a = instantiate(&mut store, &m, no_imports()).unwrap();
    let inst = &store.modules[a];
    assert_eq!(inst.export("a"), ExternalVal::Global(GlobalAddr(0, GlobalIdx(0))));
    let all = inst.exports();
    assert_eq!(all.get("a"), Some(&ExternalVal::Global(GlobalAddr(1, GlobalIdx(1)))));
    assert_eq!(all.get("b"), Some(&inst.export("b")));
    assert_eq!(all.get("c"), None);
}

#[test]
fn restore_globals_and_memory() {
    let mut store = Store::new();
    let a = instantiate(&mut store, &provider(), no_imports()).unwrap();
    let inst = &store.modules[a];
    let (globals, mem_addr) = (inst.globals.clone(), inst.mem);
    let saved = vec![GlobalInst { value: Val::I64(3), mut_: Mut::Const }];
    let inst = ModuleInst {
        types: vec![],
        funcs: vec![],
        table: None,
        mem: mem_addr,
        globals,
        exports: vec![],
    };
    inst.restore_globals(&mut store, &saved);
    assert_eq!(store.globals[0], GlobalInst { value: Val::I64(3), mut_: Mut::Const });
    inst.restore_mem(&mut store, MemInst { data: vec![7; 3], max: Some(2) });
    assert_eq!(store.mems[0].data, vec![7, 7, 7]);
    assert_eq!(store.mems[0].max, Some(2));
}

#[test]
fn external_val_projections() {
    let v = ExternalVal::Func(FuncAddr(3));
    assert_eq!(v.as_func(), Some(FuncAddr(3)));
    assert_eq!(v.as_table(), None);
    assert_eq!(v.as_mem(), None);
    assert_eq!(v.as_global(), None);
    assert_eq!(ExternalVal::Table(TableAddr(1)).as_table(), Some(TableAddr(1)));
    assert_eq!(ExternalVal::Mem(MemAddr(2)).as_mem(), Some(MemAddr(2)));
    assert_eq!(ExternalVal::Global(GlobalAddr(4, GlobalIdx(0))).as_global(), Some(GlobalAddr(4, GlobalIdx(0))));
}

#[test]
fn start_function_absent() {
    let mut store = Store::new();
    let p = ModuleInst::new(&mut store, &provider(), no_imports()).unwrap();
    assert_eq!(p, PendingInst { addr: 0, start: None });
    assert_eq!(p.finish(Err(WasmError::LinkError)), Ok(0));
}

#[test]
fn failing_start_function_fails_the_instantiation() {
    let mut store = Store::new();
    let mut m = provider();
    m.start = Some(Start { func: FuncIdx(0) });
    let p = ModuleInst::new(&mut store, &m, no_imports()).unwrap();
    assert_eq!(p.start, Some(FuncAddr(0)));
    assert_eq!(p.addr, 0);
    assert_eq!(store.modules.len(), 1);
    assert_eq!(p.finish(Err(WasmError::LinkError)), Err(WasmError::LinkError));
    assert_eq!(p.finish(Ok(())), Ok(0));
}

#[test]
fn start_index_counts_imported_functions_first() {
    let mut store = Store::new();
    instantiate(&mut store, &provider(), no_imports()).unwrap();
    let exports = store.modules[0].exports();
    let mut m = empty_module();
    m.types = vec![FuncType(vec![ValType::I32], vec![ValType::I32])];
    m.imports = vec![import("env", "f", ImportDesc::Func(TypeIdx(0)))];
    m.funcs = vec![func(0)];
    m.start = Some(Start { func: FuncIdx(0) });
    let mut objs: ImportObjects = NameMap::new();
    objs.insert("env".to_string(), exports);
    let p = ModuleInst::new(&mut store, &m, objs).unwrap();
    assert_eq!(p.start, Some(FuncAddr(0)));
    assert_eq!(store.modules[p.addr].funcs, vec![FuncAddr(0), FuncAddr(1)]);
}

#[test]
fn every_address_of_a_new_instance_is_in_the_store() {
    let mut store = Store::new();
    let a = instantiate(&mut store, &provider(), no_imports()).unwrap();
    let inst = &store.modules[a];
    assert!(inst.funcs.iter().all(|f| f.0 < store.funcs.len()));
    assert!(inst.globals.iter().all(|g| g.0 < store.globals.len()));
    assert!(inst.table.unwrap().0 < store.tables.len());
    assert!(inst.mem.unwrap().0 < store.mems.len());
    for e in &inst.exports {
        let live = match e.value {
            ExternalVal::Func(f) => f.0 < store.funcs.len(),
            ExternalVal::Table(t) => t.0 < store.tables.len(),
            ExternalVal::Mem(m) => m.0 < store.mems.len(),
            ExternalVal::Global(g) => g.0 < store.globals.len(),
        };
        assert!(live);
    }
}

#[test]
fn failing_import_stops_before_the_rest_of_the_module() {
    let mut store = Store::new();
    let mut m = empty_module();
    m.imports = vec![import("env", "g", ImportDesc::Global(GlobalType(Mut::Const, ValType::I32)))];
    m.data = vec![Data { data: MemIdx(0), offset: Expr(vec![]), init: vec![1] }];
    m.exports = vec![export("x", ExportDesc::Global(GlobalIdx(9)))];
    assert_eq!(instantiate(&mut store, &m, no_imports()).err(), Some(WasmError::LinkError));
    assert_eq!(store.mems.len(), 0);
    assert_eq!(store.modules.len(), 0);
}

#[test]
fn failing_segment_stops_before_the_exports() {
    let mut store = Store::new();
    let mut m = empty_module();
    m.mems = vec![Mem { type_: MemType(Limits { min: 0, max: None }) }];
    m.data = vec![
        Data { data: MemIdx(0), offset: Expr(vec![Instr::I32Const(0)]), init: vec![1] },
        Data { data: MemIdx(0), offset: Expr(vec![]), init: vec![] },
    ];
    m.exports = vec![export("x", ExportDesc::Global(GlobalIdx(9)))];
    assert_eq!(instantiate(&mut store, &m, no_imports()).err(), Some(WasmError::LinkError));
    assert_eq!(store.mems.len(), 1);
    assert_eq!(store.modules.len(), 0);
}

#[test]
fn restoring_a_snapshot_through_aliased_handles() {
    let mut store = Store::new();
    let a = instantiate(&mut store, &provider(), no_imports()).unwrap();
    let g = store.modules[a].export("g").unwrap_global();
    let inst = ModuleInst {
        types: vec![],
        funcs: vec![],
        table: None,
        mem: None,
        globals: vec![g, GlobalAddr(g.0, GlobalIdx(1))],
        exports: vec![],
    };
    let snapshot: Vec<GlobalInst> = inst.globals.iter().map(|h| h.get_inst(&store)).collect();
    assert_eq!(g.set(&mut store, Val::I32(-5)), Some(()));
    inst.restore_globals(&mut store, &snapshot);
    assert_eq!(g.get_inst(&store), GlobalInst { value: Val::I32(10), mut_: Mut::Var });
}

#[test]
fn function_import_type_is_read_only_when_it_is_offered_a_function() {
    let mut store = Store::new();
    instantiate(&mut store, &provider(), no_imports()).unwrap();
    let g = store.modules[0].export("g");
    let mut m = empty_module();
    m.imports = vec![import("env", "x", ImportDesc::Func(TypeIdx(5)))];
    assert_eq!(ModuleInst::new(&mut store, &m, one_import("env", "x", g)).err(), Some(WasmError::LinkError));
    let mut m2 = empty_module();
    m2.imports = vec![
        import("env", "missing", ImportDesc::Global(GlobalType(Mut::Const, ValType::I32))),
        import("env", "x", ImportDesc::Func(TypeIdx(5))),
    ];
    let f = store.modules[0].export("f");
    assert_eq!(ModuleInst::new(&mut store, &m2, one_import("env", "x", f)).err(), Some(WasmError::LinkError));
    assert_eq!(store.modules.len(), 1);
}
