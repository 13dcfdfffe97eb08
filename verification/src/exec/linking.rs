//! What instantiation computes, stated over the store, the module and the
//! values offered for import.
use vstd::prelude::*;
use crate::exec::func::FuncAddr;
use crate::exec::global::{GlobalAddr, GlobalInst};
use crate::exec::instance::{ExternalVal, ImportObjects, ModuleInst};
use crate::exec::mem::{MemAddr, PAGE_SIZE};
use crate::exec::store::Store;
use crate::exec::table::{elem_entries, overwrite, TableAddr};
use crate::exec::val::{type_of, Val};
use crate::structure::instructions::Instr;
use crate::structure::modules::{same_func, Data, Elem, ExportDesc, GlobalIdx, Import, ImportDesc, Module};
use crate::structure::types::{
    limits_match, FuncType, GlobalType, Limits, MemType, TableType, ValType,
};

verus! {

/// Two function types with the same parameters and results.
pub open spec fn func_type_eq(a: FuncType, b: FuncType) -> bool {
    a.0@ == b.0@ && a.1@ == b.1@
}

/// Two lists of function types that agree element by element.
pub open spec fn types_eq(a: Seq<FuncType>, b: Seq<FuncType>) -> bool {
    a.len() == b.len() && forall|i: int| 0 <= i < a.len() ==> func_type_eq(#[trigger] a[i], b[i])
}

/// The value that `objs` offers for the import `imp`, if any.
pub open spec fn provided(objs: ImportObjects, imp: Import) -> Option<ExternalVal> {
    let m = imp.module.0@;
    let n = imp.name.0@;
    if objs@.contains_key(m) && objs@[m]@.contains_key(n) {
        Some(objs@[m]@[n])
    } else {
        None
    }
}

/// The current type of a table of the store.
pub open spec fn table_type_of(store: Store, a: TableAddr) -> TableType {
    TableType(
        Limits { min: store.tables@[a.0 as int].elem@.len() as u32, max: store.tables@[a.0 as int].max },
    )
}

/// The current type of a memory of the store.
pub open spec fn mem_type_of(store: Store, a: MemAddr) -> MemType {
    MemType(
        Limits {
            min: (store.mems@[a.0 as int].data@.len() / PAGE_SIZE as nat) as u32,
            max: store.mems@[a.0 as int].max,
        },
    )
}

/// The current type of a global of the store.
pub open spec fn global_type_of(store: Store, a: GlobalAddr) -> GlobalType {
    GlobalType(store.globals@[a.0 as int].mut_, type_of(store.globals@[a.0 as int].value))
}

/// The value's address names an instance of the store.
pub open spec fn live(store: Store, v: ExternalVal) -> bool {
    match v {
        ExternalVal::Func(f) => f.0 < store.funcs@.len(),
        ExternalVal::Table(t) => t.0 < store.tables@.len(),
        ExternalVal::Mem(m) => m.0 < store.mems@.len(),
        ExternalVal::Global(g) => g.0 < store.globals@.len(),
    }
}

/// The value `v` satisfies the import description `desc`: it is of the
/// same kind, and of a matching type.
pub open spec fn matches_import(store: Store, types: Seq<FuncType>, v: ExternalVal, desc: ImportDesc) -> bool {
    match (desc, v) {
        (ImportDesc::Func(t), ExternalVal::Func(f)) => func_type_eq(
            store.funcs@[f.0 as int].type_,
            types[t.0 as int],
        ),
        (ImportDesc::Table(tt), ExternalVal::Table(a)) => limits_match(table_type_of(store, a).0, tt.0),
        (ImportDesc::Mem(mt), ExternalVal::Mem(a)) => limits_match(mem_type_of(store, a).0, mt.0),
        (ImportDesc::Global(gt), ExternalVal::Global(a)) => global_type_of(store, a) == gt,
        _ => false,
    }
}

/// The import `imp` is offered a value that satisfies it.
pub open spec fn import_ok(store: Store, types: Seq<FuncType>, objs: ImportObjects, imp: Import) -> bool {
    match provided(objs, imp) {
        Some(v) => matches_import(store, types, v, imp.desc),
        None => false,
    }
}

/// Every import of the module is offered a value that satisfies it.
pub open spec fn imports_ok(store: Store, m: Module, objs: ImportObjects) -> bool {
    forall|i: int| 0 <= i < m.imports@.len() ==> import_ok(store, m.types@, objs, #[trigger] m.imports@[i])
}

/// Every value offered for an import of the module names an instance of the store.
pub open spec fn imports_live(store: Store, m: Module, objs: ImportObjects) -> bool {
    forall|i: int|
        0 <= i < m.imports@.len() ==> match provided(objs, #[trigger] m.imports@[i]) {
            Some(v) => live(store, v),
            None => true,
        }
}

/// The functions the imports provide, in order.
pub open spec fn imported_funcs(objs: ImportObjects, imps: Seq<Import>) -> Seq<FuncAddr>
    decreases imps.len(),
{
    if imps.len() == 0 {
        Seq::empty()
    } else {
        let r = imported_funcs(objs, imps.drop_last());
        match (imps.last().desc, provided(objs, imps.last())) {
            (ImportDesc::Func(_), Some(ExternalVal::Func(f))) => r.push(f),
            _ => r,
        }
    }
}

/// The globals the imports provide, in order.
pub open spec fn imported_globals(objs: ImportObjects, imps: Seq<Import>) -> Seq<GlobalAddr>
    decreases imps.len(),
{
    if imps.len() == 0 {
        Seq::empty()
    } else {
        let r = imported_globals(objs, imps.drop_last());
        match (imps.last().desc, provided(objs, imps.last())) {
            (ImportDesc::Global(_), Some(ExternalVal::Global(g))) => r.push(g),
            _ => r,
        }
    }
}

/// The table of the last table import.
pub open spec fn imported_table(objs: ImportObjects, imps: Seq<Import>) -> Option<TableAddr>
    decreases imps.len(),
{
    if imps.len() == 0 {
        None
    } else {
        match (imps.last().desc, provided(objs, imps.last())) {
            (ImportDesc::Table(_), Some(ExternalVal::Table(t))) => Some(t),
            _ => imported_table(objs, imps.drop_last()),
        }
    }
}

/// The memory of the last memory import.
pub open spec fn imported_mem(objs: ImportObjects, imps: Seq<Import>) -> Option<MemAddr>
    decreases imps.len(),
{
    if imps.len() == 0 {
        None
    } else {
        match (imps.last().desc, provided(objs, imps.last())) {
            (ImportDesc::Mem(_), Some(ExternalVal::Mem(a))) => Some(a),
            _ => imported_mem(objs, imps.drop_last()),
        }
    }
}

/// The number of function imports.
pub open spec fn n_func_imports(imps: Seq<Import>) -> nat
    decreases imps.len(),
{
    if imps.len() == 0 {
        0
    } else {
        n_func_imports(imps.drop_last()) + if imps.last().desc is Func {
            1nat
        } else {
            0nat
        }
    }
}

/// The value types that the global imports declare, in order.
pub open spec fn import_global_types(imps: Seq<Import>) -> Seq<ValType>
    decreases imps.len(),
{
    if imps.len() == 0 {
        Seq::empty()
    } else {
        let r = import_global_types(imps.drop_last());
        match imps.last().desc {
            ImportDesc::Global(gt) => r.push(gt.1),
            _ => r,
        }
    }
}

/// Some import is a table import.
pub open spec fn has_table_import(imps: Seq<Import>) -> bool {
    exists|i: int| 0 <= i < imps.len() && (#[trigger] imps[i]).desc is Table
}

/// Some import is a memory import.
pub open spec fn has_mem_import(imps: Seq<Import>) -> bool {
    exists|i: int| 0 <= i < imps.len() && (#[trigger] imps[i]).desc is Mem
}

/// The types of the values of the module's global index space, up to the
/// `j`-th global the module defines: an imported global has the type its
/// import declares, a defined global the type of its initializer.
pub open spec fn global_types_upto(m: Module, j: nat) -> Seq<ValType>
    decreases j,
{
    if j == 0 {
        import_global_types(m.imports@)
    } else {
        let t = global_types_upto(m, (j - 1) as nat);
        t.push(const_type(m.globals@[j - 1].init.0@, t))
    }
}

/// The types of the values of the module's global index space.
pub open spec fn global_types(m: Module) -> Seq<ValType> {
    global_types_upto(m, m.globals@.len())
}

/// The size of the module's function index space.
pub open spec fn n_funcs(m: Module) -> nat {
    n_func_imports(m.imports@) + m.funcs@.len()
}

/// The module has a table, imported or its own.
pub open spec fn has_table(m: Module) -> bool {
    m.tables@.len() > 0 || has_table_import(m.imports@)
}

/// The module has a memory, imported or its own.
pub open spec fn has_mem(m: Module) -> bool {
    m.mems@.len() > 0 || has_mem_import(m.imports@)
}

/// `e` is a single constant instruction, or a read of one of the first
/// `n` globals.
pub open spec fn const_expr_wf(e: Seq<Instr>, n: nat) -> bool {
    &&& e.len() == 1
    &&& match e[0] {
        Instr::I32Const(_) => true,
        Instr::I64Const(_) => true,
        Instr::F32Const(_) => true,
        Instr::F64Const(_) => true,
        Instr::GlobalGet(i) => i.0 < n,
        _ => false,
    }
}

/// The type of a constant expression, given the types of the globals.
pub open spec fn const_type(e: Seq<Instr>, types: Seq<ValType>) -> ValType {
    match e[0] {
        Instr::I32Const(_) => ValType::I32,
        Instr::I64Const(_) => ValType::I64,
        Instr::F32Const(_) => ValType::F32,
        Instr::F64Const(_) => ValType::F64,
        Instr::GlobalGet(i) => types[i.0 as int],
        _ => ValType::I32,
    }
}

/// The value of a constant expression, reading globals through `addrs`.
pub open spec fn const_value(e: Seq<Instr>, globals: Seq<GlobalInst>, addrs: Seq<GlobalAddr>) -> Val {
    match e[0] {
        Instr::I32Const(x) => Val::I32(x),
        Instr::I64Const(x) => Val::I64(x),
        Instr::F32Const(x) => Val::F32(x),
        Instr::F64Const(x) => Val::F64(x),
        Instr::GlobalGet(i) => globals[addrs[i.0 as int].0 as int].value,
        _ => Val::I32(0),
    }
}

/// The offset at which a segment is placed: its constant `i32` value, read
/// as an unsigned machine word.
pub open spec fn offset_of(e: Seq<Instr>, globals: Seq<GlobalInst>, addrs: Seq<GlobalAddr>) -> int {
    match const_value(e, globals, addrs) {
        Val::I32(x) => (x as usize) as int,
        _ => 0,
    }
}

/// Every function import names a type of the module.
pub open spec fn func_imports_typed(m: Module) -> bool {
    forall|i: int|
        0 <= i < m.imports@.len() ==> match (#[trigger] m.imports@[i]).desc {
            ImportDesc::Func(t) => t.0 < m.types@.len(),
            _ => true,
        }
}

/// Every function import that instantiation reaches, with each import
/// before it satisfied, and that is offered a function, names a type of the
/// module: the one function import whose type instantiation reads.
pub open spec fn func_imports_reached(store: Store, m: Module, objs: ImportObjects) -> bool {
    forall|i: int|
        0 <= i < m.imports@.len() ==> match (#[trigger] m.imports@[i]).desc {
            ImportDesc::Func(t) => ((forall|j: int|
                0 <= j < i ==> import_ok(store, m.types@, objs, #[trigger] m.imports@[j]))
                && (provided(objs, m.imports@[i]) matches Some(ExternalVal::Func(_))))
                ==> t.0 < m.types@.len(),
            _ => true,
        }
}

/// Once every import is satisfied, each function import names a type of the
/// module.
pub proof fn lemma_func_imports_typed(store: Store, m: Module, objs: ImportObjects)
    requires
        func_imports_reached(store, m, objs),
        imports_ok(store, m, objs),
    ensures
        func_imports_typed(m),
{
    assert forall|i: int| 0 <= i < m.imports@.len() implies match (#[trigger] m.imports@[i]).desc {
        ImportDesc::Func(t) => t.0 < m.types@.len(),
        _ => true,
    } by {
        assert(import_ok(store, m.types@, objs, m.imports@[i]));
        assert forall|j: int| 0 <= j < i implies import_ok(store, m.types@, objs, #[trigger] m.imports@[j]) by {}
    }
}

/// The module's functions, table, memory and globals can be allocated:
/// every function names a type of the module, every global initializer is
/// a single constant instruction or a read of an earlier global, and the
/// module's memory fits in the address space.
pub open spec fn module_allocatable(m: Module) -> bool {
    let nig = import_global_types(m.imports@).len();
    &&& forall|i: int| 0 <= i < m.funcs@.len() ==> (#[trigger] m.funcs@[i]).type_.0 < m.types@.len()
    &&& forall|j: int|
        0 <= j < m.globals@.len() ==> const_expr_wf((#[trigger] m.globals@[j]).init.0@, (nig + j) as nat)
    &&& m.mems@.len() > 0 ==> m.mems@[0].type_.0.min as int * PAGE_SIZE as int <= usize::MAX
}

/// The `k`-th element segment's offset is a constant `i32` expression
/// over the module's globals, and the module has a table.
pub open spec fn elem_offset_ok(m: Module, k: int) -> bool {
    let gt = global_types(m);
    &&& const_expr_wf(m.elem@[k].offset.0@, gt.len())
    &&& const_type(m.elem@[k].offset.0@, gt) == ValType::I32
    &&& has_table(m)
}

/// The `k`-th data segment's offset is a constant `i32` expression over
/// the module's globals, and the module has a memory.
pub open spec fn data_offset_ok(m: Module, k: int) -> bool {
    let gt = global_types(m);
    &&& const_expr_wf(m.data@[k].offset.0@, gt.len())
    &&& const_type(m.data@[k].offset.0@, gt) == ValType::I32
    &&& has_mem(m)
}

/// The `k`-th element segment fits in a table of `tlen` entries at its offset.
pub open spec fn elem_fits(m: Module, globals: Seq<GlobalInst>, addrs: Seq<GlobalAddr>, tlen: nat, k: int) -> bool {
    offset_of(m.elem@[k].offset.0@, globals, addrs) + m.elem@[k].init@.len() <= tlen
}

/// The `k`-th data segment fits in a memory of `mlen` bytes at its offset.
pub open spec fn data_fits(m: Module, globals: Seq<GlobalInst>, addrs: Seq<GlobalAddr>, mlen: nat, k: int) -> bool {
    offset_of(m.data@[k].offset.0@, globals, addrs) + m.data@[k].init@.len() <= mlen
}

/// The segments can be checked in order: every element segment that is
/// reached (all earlier ones fit) has a well-formed offset and a table,
/// and every data segment that is reached (all element segments and all
/// earlier data segments fit) has a well-formed offset and a memory.
pub open spec fn segments_checkable(
    m: Module,
    globals: Seq<GlobalInst>,
    addrs: Seq<GlobalAddr>,
    tlen: nat,
    mlen: nat,
) -> bool {
    &&& forall|k: int|
        0 <= k < m.elem@.len() && (forall|j: int| 0 <= j < k ==> #[trigger] elem_fits(m, globals, addrs, tlen, j))
            ==> #[trigger] elem_offset_ok(m, k)
    &&& forall|k: int|
        0 <= k < m.data@.len() && (forall|j: int| 0 <= j < m.elem@.len() ==> #[trigger] elem_fits(m, globals, addrs, tlen, j))
            && (forall|j: int| 0 <= j < k ==> #[trigger] data_fits(m, globals, addrs, mlen, j))
            ==> #[trigger] data_offset_ok(m, k)
}

/// Every segment offset is well formed and has a table or memory to go to.
pub open spec fn offsets_ok(m: Module) -> bool {
    &&& forall|k: int| 0 <= k < m.elem@.len() ==> #[trigger] elem_offset_ok(m, k)
    &&& forall|k: int| 0 <= k < m.data@.len() ==> #[trigger] data_offset_ok(m, k)
}

/// What instantiation reads once the segments have been written: every
/// function index of an element segment, every export index and the start
/// function's index is in range.
pub open spec fn module_tail_valid(m: Module) -> bool {
    &&& forall|k: int|
        0 <= k < m.elem@.len() ==> forall|l: int|
            0 <= l < (#[trigger] m.elem@[k]).init@.len() ==> (#[trigger] m.elem@[k].init@[l]).0 < n_funcs(m)
    &&& forall|i: int|
        0 <= i < m.exports@.len() ==> match (#[trigger] m.exports@[i]).desc {
            ExportDesc::Func(f) => f.0 < n_funcs(m),
            ExportDesc::Global(g) => g.0 < global_types(m).len(),
            ExportDesc::Table(_) => has_table(m),
            ExportDesc::Mem(_) => has_mem(m),
        }
    &&& m.start matches Some(s) ==> s.func.0 < n_funcs(m)
}

/// The module is one that instantiation can process to the end without
/// failing on it: every index it uses is in range, every initializer and
/// offset is a single constant instruction or a read of an earlier global,
/// every offset is an `i32`, every segment has a table or memory to go to,
/// and its memory fits in the address space.
pub open spec fn module_valid(m: Module) -> bool {
    &&& func_imports_typed(m)
    &&& module_allocatable(m)
    &&& offsets_ok(m)
    &&& module_tail_valid(m)
}

/// The function addresses of the instance: the imported ones, then one
/// fresh address per function of the module.
pub open spec fn inst_funcs(s: Store, m: Module, objs: ImportObjects) -> Seq<FuncAddr> {
    imported_funcs(objs, m.imports@) + Seq::new(
        m.funcs@.len(),
        |i: int| FuncAddr((s.funcs@.len() + i) as usize),
    )
}

/// The global addresses of the instance: the imported ones, then one fresh
/// address per global of the module, tagged with its global index.
pub open spec fn inst_globals(s: Store, m: Module, objs: ImportObjects) -> Seq<GlobalAddr> {
    let gi = imported_globals(objs, m.imports@);
    gi + Seq::new(
        m.globals@.len(),
        |j: int| GlobalAddr((s.globals@.len() + j) as usize, GlobalIdx((gi.len() + j) as u32)),
    )
}

/// The table of the instance: the module's own first table if it has one,
/// else the last imported one.
pub open spec fn inst_table(s: Store, m: Module, objs: ImportObjects) -> Option<TableAddr> {
    if m.tables@.len() > 0 {
        Some(TableAddr(s.tables@.len() as usize))
    } else {
        imported_table(objs, m.imports@)
    }
}

/// The memory of the instance: the module's own first memory if it has
/// one, else the last imported one.
pub open spec fn inst_mem(s: Store, m: Module, objs: ImportObjects) -> Option<MemAddr> {
    if m.mems@.len() > 0 {
        Some(MemAddr(s.mems@.len() as usize))
    } else {
        imported_mem(objs, m.imports@)
    }
}

/// The entries of the instance's table before the element segments are
/// written: empty entries for a new table, the current ones for an imported one.
pub open spec fn table_base(s: Store, m: Module, objs: ImportObjects) -> Seq<Option<FuncAddr>> {
    if m.tables@.len() > 0 {
        Seq::new(m.tables@[0].type_.0.min as nat, |i: int| None::<FuncAddr>)
    } else {
        s.tables@[imported_table(objs, m.imports@).unwrap().0 as int].elem@
    }
}

/// The maximum of the instance's table.
pub open spec fn table_max(s: Store, m: Module, objs: ImportObjects) -> Option<u32> {
    if m.tables@.len() > 0 {
        m.tables@[0].type_.0.max
    } else {
        s.tables@[imported_table(objs, m.imports@).unwrap().0 as int].max
    }
}

/// The bytes of the instance's memory before the data segments are
/// written: zeroes for a new memory, the current ones for an imported one.
pub open spec fn mem_base(s: Store, m: Module, objs: ImportObjects) -> Seq<u8> {
    if m.mems@.len() > 0 {
        Seq::new(m.mems@[0].type_.0.min as nat * PAGE_SIZE as nat, |i: int| 0u8)
    } else {
        s.mems@[imported_mem(objs, m.imports@).unwrap().0 as int].data@
    }
}

/// The maximum of the instance's memory.
pub open spec fn mem_max(s: Store, m: Module, objs: ImportObjects) -> Option<u32> {
    if m.mems@.len() > 0 {
        m.mems@[0].type_.0.max
    } else {
        s.mems@[imported_mem(objs, m.imports@).unwrap().0 as int].max
    }
}

/// Every element segment fits in a table of `tlen` entries and every data
/// segment in a memory of `mlen` bytes, at their offsets.
pub open spec fn segments_fit(
    m: Module,
    globals: Seq<GlobalInst>,
    addrs: Seq<GlobalAddr>,
    tlen: nat,
    mlen: nat,
) -> bool {
    &&& forall|k: int| 0 <= k < m.elem@.len() ==> #[trigger] elem_fits(m, globals, addrs, tlen, k)
    &&& forall|k: int| 0 <= k < m.data@.len() ==> #[trigger] data_fits(m, globals, addrs, mlen, k)
}

/// The table entries after the element segments are written in order.
pub open spec fn apply_elems(
    t: Seq<Option<FuncAddr>>,
    segs: Seq<Elem>,
    globals: Seq<GlobalInst>,
    addrs: Seq<GlobalAddr>,
    funcs: Seq<FuncAddr>,
) -> Seq<Option<FuncAddr>>
    decreases segs.len(),
{
    if segs.len() == 0 {
        t
    } else {
        overwrite(
            apply_elems(t, segs.drop_last(), globals, addrs, funcs),
            offset_of(segs.last().offset.0@, globals, addrs),
            elem_entries(funcs, segs.last().init@),
        )
    }
}

/// The memory bytes after the data segments are written in order.
pub open spec fn apply_data(d: Seq<u8>, segs: Seq<Data>, globals: Seq<GlobalInst>, addrs: Seq<GlobalAddr>) -> Seq<u8>
    decreases segs.len(),
{
    if segs.len() == 0 {
        d
    } else {
        overwrite(
            apply_data(d, segs.drop_last(), globals, addrs),
            offset_of(segs.last().offset.0@, globals, addrs),
            segs.last().init@,
        )
    }
}

} // verus!

verus! {

/// The value an export of the instance refers to.
pub open spec fn export_value(funcs: Seq<FuncAddr>, globals: Seq<GlobalAddr>, table: Option<TableAddr>, mem: Option<MemAddr>, desc: ExportDesc) -> ExternalVal {
    match desc {
        ExportDesc::Func(i) => ExternalVal::Func(funcs[i.0 as int]),
        ExportDesc::Global(i) => ExternalVal::Global(globals[i.0 as int]),
        ExportDesc::Table(_) => ExternalVal::Table(table.unwrap()),
        ExportDesc::Mem(_) => ExternalVal::Mem(mem.unwrap()),
    }
}

/// `f` holds, after the functions of `s`, one function instance per
/// function of the module, with its type, its code and the address the
/// module instance gets.
pub open spec fn funcs_allocated(s: Store, f: Store, m: Module) -> bool {
    let n0 = s.funcs@.len();
    &&& f.funcs@.len() == n0 + m.funcs@.len()
    &&& forall|i: int| 0 <= i < n0 ==> #[trigger] f.funcs@[i] == s.funcs@[i]
    &&& forall|i: int|
        0 <= i < m.funcs@.len() ==> {
            &&& func_type_eq(f.funcs@[n0 + i].type_, m.types@[(#[trigger] m.funcs@[i]).type_.0 as int])
            &&& same_func(f.funcs@[n0 + i].code, m.funcs@[i])
            &&& f.funcs@[n0 + i].module == s.modules@.len()
        }
}

/// `f` holds, after the globals of `s`, one global instance per global of
/// the module, with its mutability and the value of its initializer read
/// through the instance's globals `addrs`.
pub open spec fn globals_allocated(s: Store, f: Store, m: Module, addrs: Seq<GlobalAddr>) -> bool {
    let n0 = s.globals@.len();
    &&& f.globals@.len() == n0 + m.globals@.len()
    &&& forall|i: int| 0 <= i < n0 ==> #[trigger] f.globals@[i] == s.globals@[i]
    &&& forall|j: int|
        0 <= j < m.globals@.len() ==> f.globals@[n0 + j] == (GlobalInst {
            value: const_value((#[trigger] m.globals@[j]).init.0@, f.globals@, addrs),
            mut_: m.globals@[j].type_.0,
        })
}

/// `f` holds the tables of `s` unchanged and, when the module has a table,
/// a fresh one of its minimum size with no entries set.
pub open spec fn tables_allocated(s: Store, f: Store, m: Module) -> bool {
    let n0 = s.tables@.len();
    &&& f.tables@.len() == n0 + if m.tables@.len() > 0 { 1nat } else { 0nat }
    &&& forall|i: int| 0 <= i < n0 ==> #[trigger] f.tables@[i] == s.tables@[i]
    &&& m.tables@.len() > 0 ==> {
        &&& f.tables@[n0 as int].elem@ == Seq::new(m.tables@[0].type_.0.min as nat, |i: int| None::<FuncAddr>)
        &&& f.tables@[n0 as int].max == m.tables@[0].type_.0.max
    }
}

/// `f` holds the memories of `s` unchanged and, when the module has a
/// memory, a fresh zeroed one of its minimum size.
pub open spec fn mems_allocated(s: Store, f: Store, m: Module) -> bool {
    let n0 = s.mems@.len();
    &&& f.mems@.len() == n0 + if m.mems@.len() > 0 { 1nat } else { 0nat }
    &&& forall|i: int| 0 <= i < n0 ==> #[trigger] f.mems@[i] == s.mems@[i]
    &&& m.mems@.len() > 0 ==> {
        &&& f.mems@[n0 as int].data@ == Seq::new(m.mems@[0].type_.0.min as nat * PAGE_SIZE as nat, |i: int| 0u8)
        &&& f.mems@[n0 as int].max == m.mems@[0].type_.0.max
    }
}

/// `f` holds the tables of `s` with a fresh one for a module that has a
/// table, and the element segments written, in order, into the instance's table.
pub open spec fn tables_initialized(s: Store, f: Store, m: Module, objs: ImportObjects) -> bool {
    let n0 = s.tables@.len();
    let t = inst_table(s, m, objs);
    &&& f.tables@.len() == n0 + if m.tables@.len() > 0 { 1nat } else { 0nat }
    &&& forall|i: int|
        0 <= i < n0 && t != Some(TableAddr(i as usize)) ==> #[trigger] f.tables@[i] == s.tables@[i]
    &&& t matches Some(a) ==> {
        &&& f.tables@[a.0 as int].elem@ == apply_elems(
            table_base(s, m, objs),
            m.elem@,
            f.globals@,
            inst_globals(s, m, objs),
            inst_funcs(s, m, objs),
        )
        &&& f.tables@[a.0 as int].max == table_max(s, m, objs)
    }
}

/// `f` holds the memories of `s` with a fresh one for a module that has a
/// memory, and the data segments written, in order, into the instance's memory.
pub open spec fn mems_initialized(s: Store, f: Store, m: Module, objs: ImportObjects) -> bool {
    let n0 = s.mems@.len();
    let t = inst_mem(s, m, objs);
    &&& f.mems@.len() == n0 + if m.mems@.len() > 0 { 1nat } else { 0nat }
    &&& forall|i: int|
        0 <= i < n0 && t != Some(MemAddr(i as usize)) ==> #[trigger] f.mems@[i] == s.mems@[i]
    &&& t matches Some(a) ==> {
        &&& f.mems@[a.0 as int].data@ == apply_data(
            mem_base(s, m, objs),
            m.data@,
            f.globals@,
            inst_globals(s, m, objs),
        )
        &&& f.mems@[a.0 as int].max == mem_max(s, m, objs)
    }
}

/// The length of the instance's table before instantiation writes to it.
pub open spec fn table_len(s: Store, m: Module, objs: ImportObjects) -> nat {
    if inst_table(s, m, objs) is Some {
        table_base(s, m, objs).len()
    } else {
        0
    }
}

/// The length of the instance's memory before instantiation writes to it.
pub open spec fn mem_len(s: Store, m: Module, objs: ImportObjects) -> nat {
    if inst_mem(s, m, objs) is Some {
        mem_base(s, m, objs).len()
    } else {
        0
    }
}

/// `inst` is the instance of module `m` instantiated in store `s` with
/// imports `objs`: the module's types, its function and global addresses,
/// its table and memory, and its exports by name.
pub open spec fn instance_of(s: Store, inst: ModuleInst, m: Module, objs: ImportObjects) -> bool {
    &&& types_eq(inst.types@, m.types@)
    &&& inst.funcs@ == inst_funcs(s, m, objs)
    &&& inst.globals@ == inst_globals(s, m, objs)
    &&& inst.table == inst_table(s, m, objs)
    &&& inst.mem == inst_mem(s, m, objs)
    &&& inst.exports@.len() == m.exports@.len()
    &&& forall|i: int|
        0 <= i < m.exports@.len() ==> {
            &&& (#[trigger] inst.exports@[i]).name@ == m.exports@[i].name.0@
            &&& inst.exports@[i].value == export_value(
                inst.funcs@,
                inst.globals@,
                inst.table,
                inst.mem,
                m.exports@[i].desc,
            )
        }
}

/// `e` is a single constant instruction, or reads a global that `addrs`
/// maps to an instance of `globals`.
pub open spec fn const_readable(e: Seq<Instr>, globals: Seq<GlobalInst>, addrs: Seq<GlobalAddr>) -> bool {
    &&& e.len() == 1
    &&& match e[0] {
        Instr::I32Const(_) => true,
        Instr::I64Const(_) => true,
        Instr::F32Const(_) => true,
        Instr::F64Const(_) => true,
        Instr::GlobalGet(i) => i.0 < addrs.len() && addrs[i.0 as int].0 < globals.len(),
        _ => false,
    }
}

/// A constant expression that reads only the first `n` globals keeps its
/// value when the globals it reads keep theirs.
pub proof fn lemma_const_value_stable(
    e: Seq<Instr>,
    g1: Seq<GlobalInst>,
    g2: Seq<GlobalInst>,
    a1: Seq<GlobalAddr>,
    a2: Seq<GlobalAddr>,
    n: nat,
)
    requires
        e.len() == 1,
        e[0] matches Instr::GlobalGet(i) ==> i.0 < n,
        n <= a1.len(),
        n <= a2.len(),
        forall|i: int| 0 <= i < n ==> a1[i] == a2[i],
        forall|i: int| 0 <= i < n ==> (#[trigger] a1[i]).0 < g1.len(),
        g1.len() <= g2.len(),
        forall|k: int| 0 <= k < g1.len() ==> g2[k] == g1[k],
    ensures
        const_value(e, g1, a1) == const_value(e, g2, a2),
{
    if let Instr::GlobalGet(i) = e[0] {
        assert(a1[i.0 as int] == a2[i.0 as int]);
        assert(a1[i.0 as int].0 < g1.len());
    }
}

/// A constant expression over globals of known types yields a value of
/// its type.
pub proof fn lemma_const_value_type(
    e: Seq<Instr>,
    types: Seq<ValType>,
    n: nat,
    globals: Seq<GlobalInst>,
    addrs: Seq<GlobalAddr>,
)
    requires
        const_expr_wf(e, n),
        n <= addrs.len(),
        n <= types.len(),
        forall|i: int|
            0 <= i < n ==> (#[trigger] addrs[i]).0 < globals.len() && type_of(globals[addrs[i].0 as int].value)
                == types[i],
    ensures
        type_of(const_value(e, globals, addrs)) == const_type(e, types),
        const_readable(e, globals, addrs),
{
    if let Instr::GlobalGet(i) = e[0] {
        assert(addrs[i.0 as int].0 < globals.len());
    }
}

/// The types up to the `j`-th defined global are a prefix of those up to
/// the `k`-th.
proof fn lemma_global_types_prefix(m: Module, j: nat, k: nat)
    requires
        j <= k,
    ensures
        global_types_upto(m, k).len() == import_global_types(m.imports@).len() + k,
        forall|i: int|
            0 <= i < import_global_types(m.imports@).len() + j ==> #[trigger] global_types_upto(m, k)[i]
                == global_types_upto(m, j)[i],
    decreases k,
{
    if k > 0 {
        if j < k {
            lemma_global_types_prefix(m, j, (k - 1) as nat);
            assert forall|i: int|
                0 <= i < import_global_types(m.imports@).len() + j implies #[trigger] global_types_upto(m, k)[i]
                    == global_types_upto(m, j)[i] by {
                assert(global_types_upto(m, k)[i] == global_types_upto(m, (k - 1) as nat)[i]);
            }
        } else {
            lemma_global_types_prefix(m, (k - 1) as nat, (k - 1) as nat);
        }
    }
}

/// The type of the `j`-th defined global is the type of its initializer,
/// read over the module's global types.
pub proof fn lemma_global_type_at(m: Module, j: int)
    requires
        module_allocatable(m),
        0 <= j < m.globals@.len(),
    ensures
        global_types(m).len() == import_global_types(m.imports@).len() + m.globals@.len(),
        global_types(m)[import_global_types(m.imports@).len() + j] == const_type(
            m.globals@[j].init.0@,
            global_types(m),
        ),
{
    let nig = import_global_types(m.imports@).len();
    let gt = global_types(m);
    lemma_global_types_prefix(m, (j + 1) as nat, m.globals@.len());
    lemma_global_types_prefix(m, j as nat, m.globals@.len());
    lemma_global_types_prefix(m, j as nat, (j + 1) as nat);
    let e = m.globals@[j].init.0@;
    assert(const_expr_wf(e, (nig + j) as nat));
    assert(gt[nig + j] == global_types_upto(m, (j + 1) as nat)[nig + j]);
    if let Instr::GlobalGet(i) = e[0] {
        assert(gt[i.0 as int] == global_types_upto(m, j as nat)[i.0 as int]);
    }
}

/// The types of the imported globals begin the module's global types.
pub proof fn lemma_global_types_imported(m: Module)
    ensures
        global_types(m).len() == import_global_types(m.imports@).len() + m.globals@.len(),
        forall|i: int|
            0 <= i < import_global_types(m.imports@).len() ==> #[trigger] global_types(m)[i]
                == import_global_types(m.imports@)[i],
{
    lemma_global_types_prefix(m, 0, m.globals@.len());
}

/// The globals that satisfied imports provide are globals of the store,
/// holding values of the types the imports declare.
proof fn lemma_imported_globals_typed(s: Store, types: Seq<FuncType>, objs: ImportObjects, imps: Seq<Import>)
    requires
        forall|i: int| 0 <= i < imps.len() ==> import_ok(s, types, objs, #[trigger] imps[i]),
        forall|i: int|
            0 <= i < imps.len() ==> match provided(objs, #[trigger] imps[i]) {
                Some(v) => live(s, v),
                None => true,
            },
    ensures
        imported_globals(objs, imps).len() == import_global_types(imps).len(),
        forall|k: int|
            0 <= k < imported_globals(objs, imps).len() ==> {
                &&& (#[trigger] imported_globals(objs, imps)[k]).0 < s.globals@.len()
                &&& type_of(s.globals@[imported_globals(objs, imps)[k].0 as int].value)
                    == import_global_types(imps)[k]
            },
    decreases imps.len(),
{
    if imps.len() > 0 {
        let t = imps.drop_last();
        assert forall|i: int| 0 <= i < t.len() implies import_ok(s, types, objs, #[trigger] t[i]) by {
            assert(t[i] == imps[i]);
        }
        assert forall|i: int|
            0 <= i < t.len() implies match provided(objs, #[trigger] t[i]) {
                Some(v) => live(s, v),
                None => true,
            } by {
            assert(t[i] == imps[i]);
        }
        lemma_imported_globals_typed(s, types, objs, t);
        assert(import_ok(s, types, objs, imps[imps.len() - 1]));
        let _ = provided(objs, imps[imps.len() - 1]);
    }
}

/// The first `j` globals of the module, after the imported ones, hold
/// values of their declared types.
proof fn lemma_defined_globals_typed(s: Store, f: Store, m: Module, objs: ImportObjects, j: nat)
    requires
        module_valid(m),
        j <= m.globals@.len(),
        globals_allocated(s, f, m, inst_globals(s, m, objs)),
        imported_globals(objs, m.imports@).len() == import_global_types(m.imports@).len(),
        forall|k: int|
            0 <= k < imported_globals(objs, m.imports@).len() ==> {
                &&& (#[trigger] imported_globals(objs, m.imports@)[k]).0 < s.globals@.len()
                &&& type_of(s.globals@[imported_globals(objs, m.imports@)[k].0 as int].value)
                    == import_global_types(m.imports@)[k]
            },
    ensures
        forall|k: int|
            0 <= k < import_global_types(m.imports@).len() + j ==> {
                &&& (#[trigger] inst_globals(s, m, objs)[k]).0 < f.globals@.len()
                &&& type_of(f.globals@[inst_globals(s, m, objs)[k].0 as int].value) == global_types(m)[k]
            },
    decreases j,
{
    let addrs = inst_globals(s, m, objs);
    let gi = imported_globals(objs, m.imports@);
    let nig = import_global_types(m.imports@).len();
    let gt = global_types(m);
    assert(f.globals.len() == f.globals@.len());
    lemma_global_types_imported(m);
    if j == 0 {
        assert forall|k: int| 0 <= k < nig implies {
            &&& (#[trigger] addrs[k]).0 < f.globals@.len()
            &&& type_of(f.globals@[addrs[k].0 as int].value) == gt[k]
        } by {
            assert(addrs[k] == gi[k]);
            assert(f.globals@[gi[k].0 as int] == s.globals@[gi[k].0 as int]);
        }
    } else {
        let jj = (j - 1) as nat;
        lemma_defined_globals_typed(s, f, m, objs, jj);
        let e = m.globals@[jj as int].init.0@;
        lemma_global_type_at(m, jj as int);
        assert(const_expr_wf(e, nig + jj));
        lemma_const_value_type(e, gt, nig + jj, f.globals@, addrs);
        let k = nig + jj;
        assert(addrs[k as int].0 == s.globals@.len() + jj);
        assert(f.globals@[(s.globals@.len() + jj) as int] == (GlobalInst {
            value: const_value(m.globals@[jj as int].init.0@, f.globals@, addrs),
            mut_: m.globals@[jj as int].type_.0,
        }));
    }
}

/// After a successful import phase and the allocation of the module's
/// globals, every global of the instance is a global of the store that
/// holds a value of the type its module declares.
pub proof fn law_instance_globals_typed(s: Store, f: Store, m: Module, objs: ImportObjects)
    requires
        module_valid(m),
        imports_ok(s, m, objs),
        imports_live(s, m, objs),
        globals_allocated(s, f, m, inst_globals(s, m, objs)),
    ensures
        inst_globals(s, m, objs).len() == global_types(m).len(),
        forall|k: int|
            0 <= k < global_types(m).len() ==> {
                &&& (#[trigger] inst_globals(s, m, objs)[k]).0 < f.globals@.len()
                &&& type_of(f.globals@[inst_globals(s, m, objs)[k].0 as int].value) == global_types(m)[k]
            },
{
    lemma_imported_globals_typed(s, m.types@, objs, m.imports@);
    lemma_global_types_imported(m);
    lemma_defined_globals_typed(s, f, m, objs, m.globals@.len());
}

/// Instantiation shares, and does not copy, what it imports: every
/// function and every global that the imports provide to the instance is
/// the very address that `objs` offers for one of the module's imports
/// of that kind.
pub proof fn law_imports_are_shared(objs: ImportObjects, imps: Seq<Import>)
    ensures
        forall|k: int|
            0 <= k < imported_globals(objs, imps).len() ==> exists|i: int|
                0 <= i < imps.len() && (#[trigger] imps[i]).desc is Global && provided(objs, imps[i]) == Some(
                    ExternalVal::Global(#[trigger] imported_globals(objs, imps)[k]),
                ),
        forall|k: int|
            0 <= k < imported_funcs(objs, imps).len() ==> exists|i: int|
                0 <= i < imps.len() && (#[trigger] imps[i]).desc is Func && provided(objs, imps[i]) == Some(
                    ExternalVal::Func(#[trigger] imported_funcs(objs, imps)[k]),
                ),
    decreases imps.len(),
{
    if imps.len() > 0 {
        let t = imps.drop_last();
        law_imports_are_shared(objs, t);
        let n = imps.len() - 1;
        assert forall|k: int| 0 <= k < imported_globals(objs, imps).len() implies exists|i: int|
            0 <= i < imps.len() && (#[trigger] imps[i]).desc is Global && provided(objs, imps[i]) == Some(
                ExternalVal::Global(#[trigger] imported_globals(objs, imps)[k]),
            ) by {
            if k < imported_globals(objs, t).len() {
                let i = choose|i: int|
                    0 <= i < t.len() && (#[trigger] t[i]).desc is Global && provided(objs, t[i]) == Some(
                        ExternalVal::Global(#[trigger] imported_globals(objs, t)[k]),
                    );
                assert(imps[i] == t[i]);
            } else {
                assert(imps[n] == imps.last());
            }
        }
        assert forall|k: int| 0 <= k < imported_funcs(objs, imps).len() implies exists|i: int|
            0 <= i < imps.len() && (#[trigger] imps[i]).desc is Func && provided(objs, imps[i]) == Some(
                ExternalVal::Func(#[trigger] imported_funcs(objs, imps)[k]),
            ) by {
            if k < imported_funcs(objs, t).len() {
                let i = choose|i: int|
                    0 <= i < t.len() && (#[trigger] t[i]).desc is Func && provided(objs, t[i]) == Some(
                        ExternalVal::Func(#[trigger] imported_funcs(objs, t)[k]),
                    );
                assert(imps[i] == t[i]);
            } else {
                assert(imps[n] == imps.last());
            }
        }
    }
}

/// Satisfied imports provide one function per function import, a table
/// when some import is a table import and a memory when some import is a
/// memory import, all of them instances of the store.
proof fn lemma_imports_resolved(s: Store, types: Seq<FuncType>, objs: ImportObjects, imps: Seq<Import>)
    requires
        forall|i: int| 0 <= i < imps.len() ==> import_ok(s, types, objs, #[trigger] imps[i]),
        forall|i: int|
            0 <= i < imps.len() ==> match provided(objs, #[trigger] imps[i]) {
                Some(v) => live(s, v),
                None => true,
            },
    ensures
        imported_funcs(objs, imps).len() == n_func_imports(imps),
        forall|k: int|
            0 <= k < imported_funcs(objs, imps).len() ==> (#[trigger] imported_funcs(objs, imps)[k]).0
                < s.funcs@.len(),
        imported_table(objs, imps) matches Some(t) ==> t.0 < s.tables@.len(),
        imported_mem(objs, imps) matches Some(a) ==> a.0 < s.mems@.len(),
        has_table_import(imps) ==> imported_table(objs, imps) is Some,
        has_mem_import(imps) ==> imported_mem(objs, imps) is Some,
    decreases imps.len(),
{
    if imps.len() > 0 {
        let t = imps.drop_last();
        let n = imps.len() - 1;
        assert forall|i: int| 0 <= i < t.len() implies import_ok(s, types, objs, #[trigger] t[i]) by {
            assert(t[i] == imps[i]);
        }
        assert forall|i: int|
            0 <= i < t.len() implies match provided(objs, #[trigger] t[i]) {
                Some(v) => live(s, v),
                None => true,
            } by {
            assert(t[i] == imps[i]);
        }
        lemma_imports_resolved(s, types, objs, t);
        assert(import_ok(s, types, objs, imps[n]));
        let _ = provided(objs, imps[n]);
        if has_table_import(imps) {
            let i = choose|i: int| 0 <= i < imps.len() && (#[trigger] imps[i]).desc is Table;
            if i < n {
                assert(t[i] == imps[i]);
            }
        }
        if has_mem_import(imps) {
            let i = choose|i: int| 0 <= i < imps.len() && (#[trigger] imps[i]).desc is Mem;
            if i < n {
                assert(t[i] == imps[i]);
            }
        }
    }
}

/// Every address that a new instance holds, and every value it exports,
/// names an instance of the store it was instantiated in; so the instance
/// can be imported from in turn.
pub proof fn law_instance_addresses_live(s: Store, f: Store, m: Module, objs: ImportObjects, inst: ModuleInst)
    requires
        module_valid(m),
        imports_ok(s, m, objs),
        imports_live(s, m, objs),
        funcs_allocated(s, f, m),
        globals_allocated(s, f, m, inst_globals(s, m, objs)),
        tables_initialized(s, f, m, objs),
        mems_initialized(s, f, m, objs),
        instance_of(s, inst, m, objs),
    ensures
        forall|k: int| 0 <= k < inst.funcs@.len() ==> (#[trigger] inst.funcs@[k]).0 < f.funcs@.len(),
        forall|k: int| 0 <= k < inst.globals@.len() ==> (#[trigger] inst.globals@[k]).0 < f.globals@.len(),
        inst.table matches Some(t) ==> t.0 < f.tables@.len(),
        inst.mem matches Some(a) ==> a.0 < f.mems@.len(),
        forall|i: int| 0 <= i < inst.exports@.len() ==> live(f, (#[trigger] inst.exports@[i]).value),
{
    lemma_imports_resolved(s, m.types@, objs, m.imports@);
    law_instance_globals_typed(s, f, m, objs);
    assert(f.funcs.len() == f.funcs@.len());
    assert(f.globals.len() == f.globals@.len());
    assert(f.tables.len() == f.tables@.len());
    assert(f.mems.len() == f.mems@.len());
    let gi = imported_funcs(objs, m.imports@);
    assert forall|k: int| 0 <= k < inst.funcs@.len() implies (#[trigger] inst.funcs@[k]).0 < f.funcs@.len() by {
        if k < gi.len() {
            assert(inst.funcs@[k] == gi[k]);
        } else {
            assert(inst.funcs@[k] == FuncAddr((s.funcs@.len() + (k - gi.len())) as usize));
        }
    }
    assert forall|i: int| 0 <= i < inst.exports@.len() implies live(f, (#[trigger] inst.exports@[i]).value) by {
        let d = m.exports@[i].desc;
        assert(match d {
            ExportDesc::Func(x) => x.0 < n_funcs(m),
            ExportDesc::Global(x) => x.0 < global_types(m).len(),
            ExportDesc::Table(_) => has_table(m),
            ExportDesc::Mem(_) => has_mem(m),
        });
        match d {
            ExportDesc::Func(x) => {
                assert(inst.funcs@[x.0 as int].0 < f.funcs@.len());
            },
            ExportDesc::Global(x) => {
                assert(inst.globals@[x.0 as int].0 < f.globals@.len());
            },
            _ => {},
        }
    }
}

/// The globals of the store after the module's first `j` globals are
/// allocated after `g`, each holding the value of its initializer read
/// through the instance's globals `addrs`.
pub open spec fn init_globals_upto(g: Seq<GlobalInst>, m: Module, addrs: Seq<GlobalAddr>, j: nat) -> Seq<GlobalInst>
    decreases j,
{
    if j == 0 {
        g
    } else {
        let p = init_globals_upto(g, m, addrs, (j - 1) as nat);
        p.push(GlobalInst { value: const_value(m.globals@[j - 1].init.0@, p, addrs), mut_: m.globals@[j - 1].type_.0 })
    }
}

/// The globals of store `s` after instantiating `m` with imports `objs`
/// has allocated the module's globals.
pub open spec fn init_globals(s: Store, m: Module, objs: ImportObjects) -> Seq<GlobalInst> {
    init_globals_upto(s.globals@, m, inst_globals(s, m, objs), m.globals@.len())
}

proof fn lemma_init_globals_prefix(s: Store, f: Store, m: Module, objs: ImportObjects, j: nat)
    requires
        module_allocatable(m),
        j <= m.globals@.len(),
        globals_allocated(s, f, m, inst_globals(s, m, objs)),
        imported_globals(objs, m.imports@).len() == import_global_types(m.imports@).len(),
        forall|k: int|
            0 <= k < imported_globals(objs, m.imports@).len() ==> (#[trigger] imported_globals(objs, m.imports@)[k]).0
                < s.globals@.len(),
    ensures
        f.globals@.take((s.globals@.len() + j) as int) == init_globals_upto(s.globals@, m, inst_globals(s, m, objs), j),
    decreases j,
{
    let addrs = inst_globals(s, m, objs);
    let g0 = s.globals@.len();
    let nig = import_global_types(m.imports@).len();
    if j == 0 {
        assert(f.globals@.take(g0 as int) =~= s.globals@);
    } else {
        let jj = (j - 1) as nat;
        lemma_init_globals_prefix(s, f, m, objs, jj);
        let p = init_globals_upto(s.globals@, m, addrs, jj);
        let e = m.globals@[jj as int].init.0@;
        assert(const_expr_wf(e, nig + jj));
        assert(s.globals.len() == s.globals@.len());
        assert(f.globals.len() == f.globals@.len());
        assert forall|i: int| 0 <= i < nig + jj implies (#[trigger] addrs[i]).0 < p.len() by {
            if i < nig {
                assert(addrs[i] == imported_globals(objs, m.imports@)[i]);
            } else {
                assert(addrs[i].0 == g0 + (i - nig));
            }
        }
        assert forall|k: int| 0 <= k < p.len() implies f.globals@[k] == p[k] by {
            assert(f.globals@.take((g0 + jj) as int)[k] == f.globals@[k]);
        }
        lemma_const_value_stable(e, p, f.globals@, addrs, addrs, nig + jj);
        assert(f.globals@[(g0 + jj) as int] == (GlobalInst {
            value: const_value(e, f.globals@, addrs),
            mut_: m.globals@[jj as int].type_.0,
        }));
        assert(f.globals@.take((g0 + j) as int) =~= init_globals_upto(s.globals@, m, addrs, j));
    }
}

/// Once the imports are satisfied, the globals that instantiation
/// allocates are those `init_globals` describes.
pub proof fn lemma_init_globals(s: Store, f: Store, m: Module, objs: ImportObjects)
    requires
        module_allocatable(m),
        imports_ok(s, m, objs),
        imports_live(s, m, objs),
        globals_allocated(s, f, m, inst_globals(s, m, objs)),
    ensures
        f.globals@ == init_globals(s, m, objs),
{
    lemma_imported_globals_typed(s, m.types@, objs, m.imports@);
    lemma_init_globals_prefix(s, f, m, objs, m.globals@.len());
    assert(f.globals@.take((s.globals@.len() + m.globals@.len()) as int) =~= f.globals@);
}

} // verus!
