//! The steps of instantiation: linking the imports, allocating the
//! module's functions, table, memory and globals, checking and writing the
//! segments, and recording the exports.
use vstd::prelude::*;
use crate::error::WasmError;
use crate::exec::func::FuncAddr;
use crate::exec::global::{GlobalAddr, GlobalInst};
use crate::exec::instance::{ExportInst, ExternalVal, ImportObjects, ModuleInst, TypedIdxAccess};
use crate::exec::linking::{
    apply_data, apply_elems, const_expr_wf, const_value, export_value, func_type_eq, funcs_allocated,
    global_types, globals_allocated, has_mem, has_mem_import, has_table, has_table_import,
    import_global_types, import_ok, imported_funcs, imported_globals, imported_mem, imported_table,
    imports_live, imports_ok, lemma_const_value_stable, lemma_const_value_type, lemma_global_type_at,
    lemma_global_types_imported, live, module_allocatable, func_imports_reached, segments_checkable,
    elem_fits, data_fits, elem_offset_ok, data_offset_ok, offsets_ok, module_tail_valid, n_func_imports, n_funcs, offset_of, provided,
    segments_fit, types_eq,
};
use crate::exec::mem::MemAddr;
use crate::exec::store::Store;
use crate::exec::table::TableAddr;
use crate::exec::val::type_of;
use crate::structure::modules::{same_func, ExportDesc, GlobalIdx, ImportDesc, Module, TypedIdx};

verus! {

/// The number of entries of the table at `t`, or zero without a table.
pub open spec fn current_table_len(store: Store, t: Option<TableAddr>) -> nat {
    match t {
        Some(a) => store.tables@[a.0 as int].elem@.len(),
        None => 0,
    }
}

/// The number of bytes of the memory at `m`, or zero without a memory.
pub open spec fn current_mem_len(store: Store, m: Option<MemAddr>) -> nat {
    match m {
        Some(a) => store.mems@[a.0 as int].data@.len(),
        None => 0,
    }
}

/// An offered value, if any, names an instance of the store.
spec fn live_or_none(store: Store, v: Option<ExternalVal>) -> bool {
    match v {
        Some(x) => live(store, x),
        None => true,
    }
}

/// Resolves the imports of `module` against `objs`, in order, into the
/// function, table, memory and global addresses of `result`.
pub(crate) fn link_imports(store: &Store, module: &Module, objs: &ImportObjects, result: &mut ModuleInst) -> (r: Result<(), WasmError>)
    requires
        old(result).funcs@.len() == 0,
        old(result).globals@.len() == 0,
        old(result).table is None,
        old(result).mem is None,
        types_eq(old(result).types@, module.types@),
        func_imports_reached(*store, *module, *objs),
        imports_live(*store, *module, *objs),
    ensures
        final(result).types == old(result).types,
        final(result).exports == old(result).exports,
        r is Ok <==> imports_ok(*store, *module, *objs),
        r matches Err(e) ==> e == WasmError::LinkError,
        r is Ok ==> {
            let imps = module.imports@;
            &&& final(result).funcs@ == imported_funcs(*objs, imps)
            &&& final(result).globals@ == imported_globals(*objs, imps)
            &&& final(result).table == imported_table(*objs, imps)
            &&& final(result).mem == imported_mem(*objs, imps)
            &&& final(result).funcs@.len() == n_func_imports(imps)
            &&& final(result).globals@.len() == import_global_types(imps).len()
            &&& forall|k: int| 0 <= k < final(result).funcs@.len() ==> (#[trigger] final(result).funcs@[k]).0 < store.funcs@.len()
            &&& forall|k: int|
                0 <= k < final(result).globals@.len() ==> {
                    &&& (#[trigger] final(result).globals@[k]).0 < store.globals@.len()
                    &&& type_of(store.globals@[final(result).globals@[k].0 as int].value) == import_global_types(imps)[k]
                }
            &&& final(result).table matches Some(t) ==> t.0 < store.tables@.len()
            &&& final(result).mem matches Some(a) ==> a.0 < store.mems@.len()
            &&& has_table_import(imps) ==> final(result).table is Some
            &&& has_mem_import(imps) ==> final(result).mem is Some
        },
{
    let ghost imps = module.imports@;
    let mut i: usize = 0;
    while i < module.imports.len()
        invariant
            i <= imps.len(),
            imps == module.imports@,
            result.types == old(result).types,
            result.exports == old(result).exports,
            types_eq(result.types@, module.types@),
            func_imports_reached(*store, *module, *objs),
            imports_live(*store, *module, *objs),
            forall|j: int| 0 <= j < i ==> import_ok(*store, module.types@, *objs, #[trigger] imps[j]),
            result.funcs@ == imported_funcs(*objs, imps.take(i as int)),
            result.globals@ == imported_globals(*objs, imps.take(i as int)),
            result.table == imported_table(*objs, imps.take(i as int)),
            result.mem == imported_mem(*objs, imps.take(i as int)),
            result.funcs@.len() == n_func_imports(imps.take(i as int)),
            result.globals@.len() == import_global_types(imps.take(i as int)).len(),
            forall|k: int| 0 <= k < result.funcs@.len() ==> (#[trigger] result.funcs@[k]).0 < store.funcs@.len(),
            forall|k: int|
                0 <= k < result.globals@.len() ==> {
                    &&& (#[trigger] result.globals@[k]).0 < store.globals@.len()
                    &&& type_of(store.globals@[result.globals@[k].0 as int].value) == import_global_types(imps.take(i as int))[k]
                },
            result.table matches Some(t) ==> t.0 < store.tables@.len(),
            result.mem matches Some(a) ==> a.0 < store.mems@.len(),
            has_table_import(imps.take(i as int)) ==> result.table is Some,
            has_mem_import(imps.take(i as int)) ==> result.mem is Some,
        decreases imps.len() - i,
    {
        let import = &module.imports[i];
        let ghost pre = imps.take(i as int);
        let ghost cur = imps.take(i + 1);
        proof {
            assert(cur.drop_last() =~= pre);
            assert(cur.last() == imps[i as int]);
            assert(live_or_none(*store, provided(*objs, imps[i as int])));
        }
        let found = match objs.get(import.module.0.as_str()) {
            Some(m) => m.get(import.name.0.as_str()),
            None => None,
        };
        let val = match found {
            Some(v) => *v,
            None => {
                return Err(WasmError::LinkError);
            },
        };
        assert(provided(*objs, imps[i as int]) == Some(val));
        match &import.desc {
            ImportDesc::Func(idx) => {
                match val.as_func() {
                    Some(func) => {
                        assert(idx.0 < module.types@.len()) by {
                            assert(provided(*objs, module.imports@[i as int]) == Some(val));
                        }
                        if func.type_(store).is_match(result.types.get_idx(*idx)) {
                            result.funcs.push(func);
                        } else {
                            return Err(WasmError::LinkError);
                        }
                    },
                    None => {
                        return Err(WasmError::LinkError);
                    },
                }
            },
            ImportDesc::Table(type_) => {
                match val.as_table() {
                    Some(table) => {
                        if table.type_(store).is_match(type_) {
                            result.table = Some(table);
                        } else {
                            return Err(WasmError::LinkError);
                        }
                    },
                    None => {
                        return Err(WasmError::LinkError);
                    },
                }
            },
            ImportDesc::Mem(type_) => {
                match val.as_mem() {
                    Some(mem) => {
                        if mem.type_(store).is_match(type_) {
                            result.mem = Some(mem);
                        } else {
                            return Err(WasmError::LinkError);
                        }
                    },
                    None => {
                        return Err(WasmError::LinkError);
                    },
                }
            },
            ImportDesc::Global(type_) => {
                match val.as_global() {
                    Some(global) => {
                        if global.type_(store).is_match(type_) {
                            result.globals.push(global);
                        } else {
                            return Err(WasmError::LinkError);
                        }
                    },
                    None => {
                        return Err(WasmError::LinkError);
                    },
                }
            },
        }
        proof {
            assert(import_ok(*store, module.types@, *objs, imps[i as int]));
            assert forall|j: int| 0 <= j < cur.len() && (#[trigger] cur[j]).desc is Table implies result.table is Some by {
                if j < i {
                    assert(pre[j] == cur[j]);
                }
            }
            assert forall|j: int| 0 <= j < cur.len() && (#[trigger] cur[j]).desc is Mem implies result.mem is Some by {
                if j < i {
                    assert(pre[j] == cur[j]);
                }
            }
        }
        i = i + 1;
    }
    proof {
        assert(imps.take(imps.len() as int) =~= imps);
    }
    Ok(())
}

/// Allocates one global per global of `module`, initialized by its
/// initializer read through the globals of `result`, and appends its address.
#[verifier::rlimit(40)]
#[verifier::spinoff_prover]
pub(crate) fn alloc_globals(store: &mut Store, module: &Module, result: &mut ModuleInst)
    requires
        module_allocatable(*module),
        old(result).globals@.len() == import_global_types(module.imports@).len(),
        forall|k: int|
            0 <= k < old(result).globals@.len() ==> {
                &&& (#[trigger] old(result).globals@[k]).0 < old(store).globals@.len()
                &&& type_of(old(store).globals@[old(result).globals@[k].0 as int].value) == global_types(*module)[k]
            },
    ensures
        final(result).types == old(result).types,
        final(result).funcs == old(result).funcs,
        final(result).table == old(result).table,
        final(result).mem == old(result).mem,
        final(result).exports == old(result).exports,
        final(result).globals@ == old(result).globals@ + Seq::new(
            module.globals@.len(),
            |j: int| GlobalAddr((old(store).globals@.len() + j) as usize, GlobalIdx((old(result).globals@.len() + j) as u32)),
        ),
        globals_allocated(*old(store), *final(store), *module, final(result).globals@),
        forall|k: int|
            0 <= k < final(result).globals@.len() ==> {
                &&& (#[trigger] final(result).globals@[k]).0 < final(store).globals@.len()
                &&& type_of(final(store).globals@[final(result).globals@[k].0 as int].value) == global_types(*module)[k]
            },
        final(store).funcs == old(store).funcs,
        final(store).tables == old(store).tables,
        final(store).mems == old(store).mems,
        final(store).modules == old(store).modules,
{
    let ghost g0 = old(store).globals@.len();
    let ghost r0 = old(result).globals@;
    let ghost gt = global_types(*module);
    proof {
        lemma_global_types_imported(*module);
    }
    let mut j: usize = 0;
    while j < module.globals.len()
        invariant
            j <= module.globals@.len(),
            module_allocatable(*module),
            gt == global_types(*module),
            r0.len() == import_global_types(module.imports@).len(),
            result.types == old(result).types,
            result.funcs == old(result).funcs,
            result.table == old(result).table,
            result.mem == old(result).mem,
            result.exports == old(result).exports,
            result.globals@ == r0 + Seq::new(
                j as nat,
                |k: int| GlobalAddr((g0 + k) as usize, GlobalIdx((r0.len() + k) as u32)),
            ),
            store.globals@.len() == g0 + j,
            forall|i: int| 0 <= i < g0 ==> #[trigger] store.globals@[i] == old(store).globals@[i],
            forall|k: int|
                0 <= k < j ==> store.globals@[g0 + k] == (GlobalInst {
                    value: const_value((#[trigger] module.globals@[k]).init.0@, store.globals@, result.globals@),
                    mut_: module.globals@[k].type_.0,
                }),
            forall|k: int|
                0 <= k < result.globals@.len() ==> {
                    &&& (#[trigger] result.globals@[k]).0 < store.globals@.len()
                    &&& type_of(store.globals@[result.globals@[k].0 as int].value) == gt[k]
                },
            store.funcs == old(store).funcs,
            store.tables == old(store).tables,
            store.mems == old(store).mems,
            store.modules == old(store).modules,
        decreases module.globals@.len() - j,
    {
        let global = &module.globals[j];
        proof {
            lemma_global_type_at(*module, j as int);
            assert(const_expr_wf(global.init.0@, (r0.len() + j) as nat));
            lemma_const_value_type(global.init.0@, gt, (r0.len() + j) as nat, store.globals@, result.globals@);
        }
        let value = result.eval_const_expr(store, &global.init);
        let idx = GlobalIdx(result.globals.len() as u32);
        let ghost store_before = *store;
        let ghost result_before = result.globals@;
        let addr = GlobalAddr::allocate(store, global.type_, value, idx);
        result.globals.push(addr);
        proof {
            assert(store_before.globals.len() == store_before.globals@.len());
            assert(store.globals.len() == store.globals@.len());
            assert forall|k: int| 0 <= k <= j implies store.globals@[g0 + k] == (GlobalInst {
                value: const_value((#[trigger] module.globals@[k]).init.0@, store.globals@, result.globals@),
                mut_: module.globals@[k].type_.0,
            }) by {
                let e = module.globals@[k].init.0@;
                assert(const_expr_wf(e, (r0.len() + k) as nat));
                assert forall|i: int| 0 <= i < r0.len() + k implies (#[trigger] result_before[i]).0 < store_before.globals@.len() by {
                }
                assert forall|i: int| 0 <= i < r0.len() + k implies result_before[i] == result.globals@[i] by {
                }
                lemma_const_value_stable(
                    e,
                    store_before.globals@,
                    store.globals@,
                    result_before,
                    result.globals@,
                    (r0.len() + k) as nat,
                );
            }
            assert forall|k: int| 0 <= k < result.globals@.len() implies {
                &&& (#[trigger] result.globals@[k]).0 < store.globals@.len()
                &&& type_of(store.globals@[result.globals@[k].0 as int].value) == gt[k]
            } by {
                if k < result_before.len() {
                    assert(result.globals@[k] == result_before[k]);
                    assert(store.globals@[result_before[k].0 as int] == store_before.globals@[result_before[k].0 as int]);
                } else {
                    assert(result.globals@[k] == addr);
                    assert(store.globals@[addr.0 as int].value == value);
                }
            }
            assert(result.globals@ =~= r0 + Seq::new(
                (j + 1) as nat,
                |k: int| GlobalAddr((g0 + k) as usize, GlobalIdx((r0.len() + k) as u32)),
            ));
        }
        j = j + 1;
    }
}

/// Allocates one function instance per function of `module`, belonging to
/// the module instance that will get the next module address, and appends
/// its address.
pub(crate) fn alloc_funcs(store: &mut Store, module: &Module, result: &mut ModuleInst)
    requires
        module_allocatable(*module),
    ensures
        final(result).types == old(result).types,
        final(result).globals == old(result).globals,
        final(result).table == old(result).table,
        final(result).mem == old(result).mem,
        final(result).exports == old(result).exports,
        final(result).funcs@.len() == old(result).funcs@.len() + module.funcs@.len(),
        forall|i: int| 0 <= i < old(result).funcs@.len() ==> #[trigger] final(result).funcs@[i] == old(result).funcs@[i],
        forall|i: int|
            0 <= i < module.funcs@.len() ==> (#[trigger] final(result).funcs@[old(result).funcs@.len() + i]).0
                == old(store).funcs@.len() + i,
        funcs_allocated(*old(store), *final(store), *module),
        final(store).globals == old(store).globals,
        final(store).tables == old(store).tables,
        final(store).mems == old(store).mems,
        final(store).modules == old(store).modules,
{
    let ghost f0 = old(store).funcs@.len();
    let ghost r0 = old(result).funcs@;
    let maddr = store.modules.len();
    let mut i: usize = 0;
    while i < module.funcs.len()
        invariant
            i <= module.funcs@.len(),
            module_allocatable(*module),
            maddr == old(store).modules@.len(),
            result.types == old(result).types,
            result.globals == old(result).globals,
            result.table == old(result).table,
            result.mem == old(result).mem,
            result.exports == old(result).exports,
            result.funcs@.len() == r0.len() + i,
            forall|k: int| 0 <= k < r0.len() ==> #[trigger] result.funcs@[k] == r0[k],
            forall|k: int| 0 <= k < i ==> (#[trigger] result.funcs@[r0.len() + k]).0 == f0 + k,
            store.funcs@.len() == f0 + i,
            forall|k: int| 0 <= k < f0 ==> #[trigger] store.funcs@[k] == old(store).funcs@[k],
            forall|k: int|
                0 <= k < i ==> {
                    &&& func_type_eq(store.funcs@[f0 + k].type_, module.types@[(#[trigger] module.funcs@[k]).type_.0 as int])
                    &&& same_func(store.funcs@[f0 + k].code, module.funcs@[k])
                    &&& store.funcs@[f0 + k].module == maddr
                },
            store.globals == old(store).globals,
            store.tables == old(store).tables,
            store.mems == old(store).mems,
            store.modules == old(store).modules,
        decreases module.funcs@.len() - i,
    {
        let func = &module.funcs[i];
        let type_ = module.types[func.type_.to_idx()].clone();
        let addr = FuncAddr::allocate(store, type_, func.clone(), maddr);
        result.funcs.push(addr);
        proof {
            assert(result.funcs@[r0.len() + i] == addr);
        }
        i = i + 1;
    }
}

/// Checks, in order, that every element segment fits in the table and
/// every data segment in the memory, at its offset.
pub(crate) fn check_segments(store: &Store, module: &Module, result: &ModuleInst) -> (r: Result<(), WasmError>)
    requires
        module_allocatable(*module),
        segments_checkable(
            *module,
            store.globals@,
            result.globals@,
            current_table_len(*store, result.table),
            current_mem_len(*store, result.mem),
        ),
        result.globals@.len() == global_types(*module).len(),
        forall|k: int|
            0 <= k < result.globals@.len() ==> {
                &&& (#[trigger] result.globals@[k]).0 < store.globals@.len()
                &&& type_of(store.globals@[result.globals@[k].0 as int].value) == global_types(*module)[k]
            },
        has_table(*module) ==> result.table is Some,
        has_mem(*module) ==> result.mem is Some,
        result.table matches Some(t) ==> t.0 < store.tables@.len(),
        result.mem matches Some(a) ==> a.0 < store.mems@.len(),
    ensures
        r is Ok <==> segments_fit(
            *module,
            store.globals@,
            result.globals@,
            current_table_len(*store, result.table),
            current_mem_len(*store, result.mem),
        ),
        r matches Err(e) ==> e == WasmError::LinkError,
{
    let ghost gt = global_types(*module);
    let ghost tlen = current_table_len(*store, result.table);
    let ghost mlen = current_mem_len(*store, result.mem);
    let mut k: usize = 0;
    while k < module.elem.len()
        invariant
            k <= module.elem@.len(),
            module_allocatable(*module),
            segments_checkable(*module, store.globals@, result.globals@, tlen, mlen),
            gt == global_types(*module),
            result.globals@.len() == gt.len(),
            forall|i: int|
                0 <= i < result.globals@.len() ==> {
                    &&& (#[trigger] result.globals@[i]).0 < store.globals@.len()
                    &&& type_of(store.globals@[result.globals@[i].0 as int].value) == gt[i]
                },
            has_table(*module) ==> result.table is Some,
            result.table matches Some(t) ==> t.0 < store.tables@.len(),
            tlen == current_table_len(*store, result.table),
            mlen == current_mem_len(*store, result.mem),
            forall|i: int| 0 <= i < k ==> #[trigger] elem_fits(*module, store.globals@, result.globals@, tlen, i),
        decreases module.elem@.len() - k,
    {
        let elem = &module.elem[k];
        proof {
            assert(elem_offset_ok(*module, k as int));
            assert(const_expr_wf(elem.offset.0@, gt.len()));
            lemma_const_value_type(elem.offset.0@, gt, gt.len(), store.globals@, result.globals@);
        }
        let offset = result.eval_const_expr(store, &elem.offset).unwrap_i32() as usize;
        let table = result.table.unwrap();
        match table.instantiation_valid(store, offset, &elem.init) {
            Ok(()) => {},
            Err(e) => {
                proof {
                    assert(!elem_fits(*module, store.globals@, result.globals@, tlen, k as int));
                }
                return Err(e);
            },
        }
        proof {
            assert(elem_fits(*module, store.globals@, result.globals@, tlen, k as int));
        }
        k = k + 1;
    }
    let mut k: usize = 0;
    while k < module.data.len()
        invariant
            k <= module.data@.len(),
            module_allocatable(*module),
            segments_checkable(*module, store.globals@, result.globals@, tlen, mlen),
            gt == global_types(*module),
            result.globals@.len() == gt.len(),
            forall|i: int|
                0 <= i < result.globals@.len() ==> {
                    &&& (#[trigger] result.globals@[i]).0 < store.globals@.len()
                    &&& type_of(store.globals@[result.globals@[i].0 as int].value) == gt[i]
                },
            has_mem(*module) ==> result.mem is Some,
            result.mem matches Some(a) ==> a.0 < store.mems@.len(),
            mlen == current_mem_len(*store, result.mem),
            forall|i: int|
                0 <= i < module.elem@.len() ==> #[trigger] elem_fits(*module, store.globals@, result.globals@, tlen, i),
            forall|i: int| 0 <= i < k ==> #[trigger] data_fits(*module, store.globals@, result.globals@, mlen, i),
        decreases module.data@.len() - k,
    {
        let data = &module.data[k];
        proof {
            assert(data_offset_ok(*module, k as int));
            assert(const_expr_wf(data.offset.0@, gt.len()));
            lemma_const_value_type(data.offset.0@, gt, gt.len(), store.globals@, result.globals@);
        }
        let offset = result.eval_const_expr(store, &data.offset).unwrap_i32() as usize;
        let mem = result.mem.unwrap();
        match mem.instantiation_valid(store, offset, &data.init) {
            Ok(()) => {},
            Err(e) => {
                proof {
                    assert(!data_fits(*module, store.globals@, result.globals@, mlen, k as int));
                }
                return Err(e);
            },
        }
        proof {
            assert(data_fits(*module, store.globals@, result.globals@, mlen, k as int));
        }
        k = k + 1;
    }
    Ok(())
}

/// Writes, in order, every element segment into the table and every data
/// segment into the memory.
pub(crate) fn init_segments(store: &mut Store, module: &Module, result: &ModuleInst)
    requires
        module_allocatable(*module),
        offsets_ok(*module),
        module_tail_valid(*module),
        result.funcs@.len() == n_funcs(*module),
        result.globals@.len() == global_types(*module).len(),
        forall|k: int|
            0 <= k < result.globals@.len() ==> {
                &&& (#[trigger] result.globals@[k]).0 < old(store).globals@.len()
                &&& type_of(old(store).globals@[result.globals@[k].0 as int].value) == global_types(*module)[k]
            },
        has_table(*module) ==> result.table is Some,
        has_mem(*module) ==> result.mem is Some,
        result.table matches Some(t) ==> t.0 < old(store).tables@.len(),
        result.mem matches Some(a) ==> a.0 < old(store).mems@.len(),
        segments_fit(
            *module,
            old(store).globals@,
            result.globals@,
            current_table_len(*old(store), result.table),
            current_mem_len(*old(store), result.mem),
        ),
    ensures
        final(store).funcs == old(store).funcs,
        final(store).globals == old(store).globals,
        final(store).modules == old(store).modules,
        match result.table {
            Some(t) => {
                &&& final(store).tables@ == old(store).tables@.update(t.0 as int, final(store).tables@[t.0 as int])
                &&& final(store).tables@[t.0 as int].elem@ == apply_elems(
                    old(store).tables@[t.0 as int].elem@,
                    module.elem@,
                    old(store).globals@,
                    result.globals@,
                    result.funcs@,
                )
                &&& final(store).tables@[t.0 as int].max == old(store).tables@[t.0 as int].max
            },
            None => final(store).tables == old(store).tables,
        },
        match result.mem {
            Some(a) => {
                &&& final(store).mems@ == old(store).mems@.update(a.0 as int, final(store).mems@[a.0 as int])
                &&& final(store).mems@[a.0 as int].data@ == apply_data(
                    old(store).mems@[a.0 as int].data@,
                    module.data@,
                    old(store).globals@,
                    result.globals@,
                )
                &&& final(store).mems@[a.0 as int].max == old(store).mems@[a.0 as int].max
            },
            None => final(store).mems == old(store).mems,
        },
{
    let ghost gt = global_types(*module);
    let ghost g = old(store).globals@;
    let mut k: usize = 0;
    while k < module.elem.len()
        invariant
            k <= module.elem@.len(),
            module_allocatable(*module),
            offsets_ok(*module),
            module_tail_valid(*module),
            gt == global_types(*module),
            g == old(store).globals@,
            result.funcs@.len() == n_funcs(*module),
            result.globals@.len() == gt.len(),
            forall|i: int|
                0 <= i < result.globals@.len() ==> {
                    &&& (#[trigger] result.globals@[i]).0 < g.len()
                    &&& type_of(g[result.globals@[i].0 as int].value) == gt[i]
                },
            has_table(*module) ==> result.table is Some,
            result.table matches Some(t) ==> t.0 < old(store).tables@.len(),
            segments_fit(
                *module,
                g,
                result.globals@,
                current_table_len(*old(store), result.table),
                current_mem_len(*old(store), result.mem),
            ),
            store.funcs == old(store).funcs,
            store.globals == old(store).globals,
            store.modules == old(store).modules,
            store.mems == old(store).mems,
            match result.table {
                Some(t) => {
                    &&& store.tables@ == old(store).tables@.update(t.0 as int, store.tables@[t.0 as int])
                    &&& store.tables@[t.0 as int].elem@ == apply_elems(
                        old(store).tables@[t.0 as int].elem@,
                        module.elem@.take(k as int),
                        g,
                        result.globals@,
                        result.funcs@,
                    )
                    &&& store.tables@[t.0 as int].elem@.len() == old(store).tables@[t.0 as int].elem@.len()
                    &&& store.tables@[t.0 as int].max == old(store).tables@[t.0 as int].max
                },
                None => store.tables == old(store).tables,
            },
        decreases module.elem@.len() - k,
    {
        let elem = &module.elem[k];
        proof {
            assert(elem_offset_ok(*module, k as int));
            assert(const_expr_wf(elem.offset.0@, gt.len()));
            lemma_const_value_type(elem.offset.0@, gt, gt.len(), g, result.globals@);
            assert(module.elem@.take(k + 1).drop_last() =~= module.elem@.take(k as int));
            assert(module.elem@.take(k + 1).last() == module.elem@[k as int]);
            assert forall|l: int| 0 <= l < elem.init@.len() implies (#[trigger] elem.init@[l]).0 < result.funcs@.len() by {
                assert(module.elem@[k as int].init@[l] == elem.init@[l]);
            }
        }
        let offset = result.eval_const_expr(store, &elem.offset).unwrap_i32() as usize;
        let table = result.table.unwrap();
        proof {
            assert(elem_fits(*module, g, result.globals@, current_table_len(*old(store), result.table), k as int));
        }
        table.init_elem(store, &result.funcs, offset, &elem.init);
        k = k + 1;
    }
    proof {
        assert(module.elem@.take(module.elem@.len() as int) =~= module.elem@);
    }
    let mut k: usize = 0;
    while k < module.data.len()
        invariant
            k <= module.data@.len(),
            module_allocatable(*module),
            offsets_ok(*module),
            module_tail_valid(*module),
            gt == global_types(*module),
            g == old(store).globals@,
            result.globals@.len() == gt.len(),
            forall|i: int|
                0 <= i < result.globals@.len() ==> {
                    &&& (#[trigger] result.globals@[i]).0 < g.len()
                    &&& type_of(g[result.globals@[i].0 as int].value) == gt[i]
                },
            has_mem(*module) ==> result.mem is Some,
            result.mem matches Some(a) ==> a.0 < old(store).mems@.len(),
            segments_fit(
                *module,
                g,
                result.globals@,
                current_table_len(*old(store), result.table),
                current_mem_len(*old(store), result.mem),
            ),
            store.funcs == old(store).funcs,
            store.globals == old(store).globals,
            store.modules == old(store).modules,
            match result.table {
                Some(t) => {
                    &&& store.tables@ == old(store).tables@.update(t.0 as int, store.tables@[t.0 as int])
                    &&& store.tables@[t.0 as int].elem@ == apply_elems(
                        old(store).tables@[t.0 as int].elem@,
                        module.elem@,
                        g,
                        result.globals@,
                        result.funcs@,
                    )
                    &&& store.tables@[t.0 as int].max == old(store).tables@[t.0 as int].max
                },
                None => store.tables == old(store).tables,
            },
            match result.mem {
                Some(a) => {
                    &&& store.mems@ == old(store).mems@.update(a.0 as int, store.mems@[a.0 as int])
                    &&& store.mems@[a.0 as int].data@ == apply_data(
                        old(store).mems@[a.0 as int].data@,
                        module.data@.take(k as int),
                        g,
                        result.globals@,
                    )
                    &&& store.mems@[a.0 as int].data@.len() == old(store).mems@[a.0 as int].data@.len()
                    &&& store.mems@[a.0 as int].max == old(store).mems@[a.0 as int].max
                },
                None => store.mems == old(store).mems,
            },
        decreases module.data@.len() - k,
    {
        let data = &module.data[k];
        proof {
            assert(data_offset_ok(*module, k as int));
            assert(const_expr_wf(data.offset.0@, gt.len()));
            lemma_const_value_type(data.offset.0@, gt, gt.len(), g, result.globals@);
            assert(module.data@.take(k + 1).drop_last() =~= module.data@.take(k as int));
            assert(module.data@.take(k + 1).last() == module.data@[k as int]);
        }
        let offset = result.eval_const_expr(store, &data.offset).unwrap_i32() as usize;
        let mem = result.mem.unwrap();
        proof {
            assert(data_fits(*module, g, result.globals@, current_mem_len(*old(store), result.mem), k as int));
        }
        mem.init_data(store, offset, &data.init);
        k = k + 1;
    }
    proof {
        assert(module.data@.take(module.data@.len() as int) =~= module.data@);
    }
}

/// Records the exports of `module`, each with the address it refers to in
/// this instance.
pub(crate) fn build_exports(module: &Module, result: &mut ModuleInst)
    requires
        module_tail_valid(*module),
        old(result).exports@.len() == 0,
        old(result).funcs@.len() == n_funcs(*module),
        old(result).globals@.len() == global_types(*module).len(),
        has_table(*module) ==> old(result).table is Some,
        has_mem(*module) ==> old(result).mem is Some,
    ensures
        final(result).types == old(result).types,
        final(result).funcs == old(result).funcs,
        final(result).globals == old(result).globals,
        final(result).table == old(result).table,
        final(result).mem == old(result).mem,
        final(result).exports@.len() == module.exports@.len(),
        forall|i: int|
            0 <= i < module.exports@.len() ==> {
                &&& (#[trigger] final(result).exports@[i]).name@ == module.exports@[i].name.0@
                &&& final(result).exports@[i].value == export_value(
                    final(result).funcs@,
                    final(result).globals@,
                    final(result).table,
                    final(result).mem,
                    module.exports@[i].desc,
                )
            },
{
    let mut k: usize = 0;
    while k < module.exports.len()
        invariant
            k <= module.exports@.len(),
            module_tail_valid(*module),
            result.types == old(result).types,
            result.funcs == old(result).funcs,
            result.globals == old(result).globals,
            result.table == old(result).table,
            result.mem == old(result).mem,
            result.funcs@.len() == n_funcs(*module),
            result.globals@.len() == global_types(*module).len(),
            has_table(*module) ==> result.table is Some,
            has_mem(*module) ==> result.mem is Some,
            result.exports@.len() == k,
            forall|i: int|
                0 <= i < k ==> {
                    &&& (#[trigger] result.exports@[i]).name@ == module.exports@[i].name.0@
                    &&& result.exports@[i].value == export_value(
                        result.funcs@,
                        result.globals@,
                        result.table,
                        result.mem,
                        module.exports@[i].desc,
                    )
                },
        decreases module.exports@.len() - k,
    {
        let export = &module.exports[k];
        proof {
            assert(module.exports@[k as int] == *export);
        }
        let value = match export.desc {
            ExportDesc::Func(idx) => ExternalVal::Func(*result.funcs.get_idx(idx)),
            ExportDesc::Global(idx) => ExternalVal::Global(*result.globals.get_idx(idx)),
            ExportDesc::Mem(_idx) => ExternalVal::Mem(result.mem.unwrap()),
            ExportDesc::Table(_idx) => ExternalVal::Table(result.table.unwrap()),
        };
        result.exports.push(ExportInst { name: export.name.0.clone(), value });
        k = k + 1;
    }
}

} // verus!
