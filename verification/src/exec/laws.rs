//! What instantiation guarantees, stated over the stores before and after it
//! and the module, each proved from the statement of instantiation.
use vstd::prelude::*;
use crate::exec::func::FuncAddr;
use crate::exec::global::{GlobalAddr, GlobalInst};
use crate::exec::instance::{ExternalVal, ImportObjects};
use crate::exec::linking::{
    apply_data, apply_elems, const_value, data_fits, elem_fits, globals_allocated, import_ok, imported_funcs,
    imports_ok, inst_funcs, inst_globals, inst_mem, inst_table, mem_base, mem_len, mems_initialized,
    n_func_imports, offset_of, provided, table_base, table_len, tables_initialized,
};
use crate::exec::mem::{MemAddr, PAGE_SIZE};
use crate::exec::store::Store;
use crate::exec::table::{elem_entries, overwrite, TableAddr};
use crate::exec::val::{type_of, Val};
use crate::structure::instructions::Instr;
use crate::structure::modules::{Data, Elem, Import, ImportDesc, Module, TypeIdx};
use crate::structure::types::{FuncType, GlobalType, MemType, TableType};

verus! {

/// Writing `w` at `off` into `s` keeps the length, puts `w` in the range it
/// covers, and leaves every other position as it was.
pub proof fn lemma_overwrite_at<T>(s: Seq<T>, off: int, w: Seq<T>, p: int)
    requires
        0 <= off,
        off + w.len() <= s.len(),
        0 <= p < s.len(),
    ensures
        overwrite(s, off, w).len() == s.len(),
        off <= p < off + w.len() ==> overwrite(s, off, w)[p] == w[p - off],
        !(off <= p < off + w.len()) ==> overwrite(s, off, w)[p] == s[p],
{
    let r = overwrite(s, off, w);
    assert(r.len() == s.len());
    if p < off {
        assert(r[p] == s.take(off)[p]);
    } else if p < off + w.len() {
        assert(r[p] == (s.take(off) + w)[p]);
    } else {
        assert(r[p] == s.skip(off + w.len())[p - off - w.len()]);
    }
}

/// The `k`-th element segment writes position `p`.
pub open spec fn elem_covers(segs: Seq<Elem>, globals: Seq<GlobalInst>, addrs: Seq<GlobalAddr>, k: int, p: int) -> bool {
    let off = offset_of(segs[k].offset.0@, globals, addrs);
    off <= p < off + segs[k].init@.len()
}

/// The `k`-th data segment writes position `p`.
pub open spec fn data_covers(segs: Seq<Data>, globals: Seq<GlobalInst>, addrs: Seq<GlobalAddr>, k: int, p: int) -> bool {
    let off = offset_of(segs[k].offset.0@, globals, addrs);
    off <= p < off + segs[k].init@.len()
}

/// Writing element segments in order into a table they fit in: the table
/// keeps its length; a position that no segment writes keeps its entry;
/// and a position that the `k`-th segment writes as its `j`-th entry, and
/// no later segment writes, holds the function address that the segment's
/// `j`-th function index denotes in `funcs`.
pub proof fn law_elem_segments_written(
    t: Seq<Option<FuncAddr>>,
    segs: Seq<Elem>,
    globals: Seq<GlobalInst>,
    addrs: Seq<GlobalAddr>,
    funcs: Seq<FuncAddr>,
    p: int,
)
    requires
        forall|k: int|
            0 <= k < segs.len() ==> offset_of((#[trigger] segs[k]).offset.0@, globals, addrs) + segs[k].init@.len()
                <= t.len(),
        0 <= p < t.len(),
    ensures
        apply_elems(t, segs, globals, addrs, funcs).len() == t.len(),
        (forall|k: int| 0 <= k < segs.len() ==> !#[trigger] elem_covers(segs, globals, addrs, k, p))
            ==> apply_elems(t, segs, globals, addrs, funcs)[p] == t[p],
        forall|k: int|
            0 <= k < segs.len() && #[trigger] elem_covers(segs, globals, addrs, k, p) && (forall|l: int|
                k < l < segs.len() ==> !#[trigger] elem_covers(segs, globals, addrs, l, p)) ==> apply_elems(
                t,
                segs,
                globals,
                addrs,
                funcs,
            )[p] == Some(
                funcs[segs[k].init@[p - offset_of(segs[k].offset.0@, globals, addrs)].0 as int],
            ),
    decreases segs.len(),
{
    if segs.len() > 0 {
        let n = segs.len() - 1;
        let init = segs.drop_last();
        assert forall|k: int| 0 <= k < init.len() implies offset_of((#[trigger] init[k]).offset.0@, globals, addrs)
            + init[k].init@.len() <= t.len() by {
            assert(init[k] == segs[k]);
        }
        law_elem_segments_written(t, init, globals, addrs, funcs, p);
        let prev = apply_elems(t, init, globals, addrs, funcs);
        let off = offset_of(segs[n].offset.0@, globals, addrs);
        let w = elem_entries(funcs, segs[n].init@);
        assert(segs.last() == segs[n]);
        assert(off >= 0);
        assert(segs[n].init@.len() == w.len());
        lemma_overwrite_at(prev, off, w, p);
        assert forall|k: int| 0 <= k < init.len() implies #[trigger] elem_covers(init, globals, addrs, k, p)
            == elem_covers(segs, globals, addrs, k, p) by {
            assert(init[k] == segs[k]);
        }
        if elem_covers(segs, globals, addrs, n, p) {
            assert forall|k: int|
                0 <= k < segs.len() && #[trigger] elem_covers(segs, globals, addrs, k, p) && (forall|l: int|
                    k < l < segs.len() ==> !#[trigger] elem_covers(segs, globals, addrs, l, p)) implies k == n by {
                if k < n {
                    assert(!elem_covers(segs, globals, addrs, n, p));
                }
            }
        } else {
            assert forall|k: int|
                0 <= k < segs.len() && #[trigger] elem_covers(segs, globals, addrs, k, p) && (forall|l: int|
                    k < l < segs.len() ==> !#[trigger] elem_covers(segs, globals, addrs, l, p)) implies apply_elems(
                t,
                segs,
                globals,
                addrs,
                funcs,
            )[p] == Some(funcs[segs[k].init@[p - offset_of(segs[k].offset.0@, globals, addrs)].0 as int]) by {
                assert(k < n);
                assert(elem_covers(init, globals, addrs, k, p));
                assert(init[k] == segs[k]);
                assert forall|l: int| k < l < init.len() implies !#[trigger] elem_covers(init, globals, addrs, l, p) by {
                    assert(!elem_covers(segs, globals, addrs, l, p));
                }
            }
            if forall|k: int| 0 <= k < segs.len() ==> !#[trigger] elem_covers(segs, globals, addrs, k, p) {
                assert forall|k: int| 0 <= k < init.len() implies !#[trigger] elem_covers(init, globals, addrs, k, p) by {
                    assert(!elem_covers(segs, globals, addrs, k, p));
                }
            }
        }
    }
}

/// Writing data segments in order into a memory they fit in: the memory
/// keeps its length; a byte that no segment writes keeps its value; and a
/// byte that the `k`-th segment writes as its `j`-th byte, and no later
/// segment writes, holds that byte of the segment.
pub proof fn law_data_segments_written(
    d: Seq<u8>,
    segs: Seq<Data>,
    globals: Seq<GlobalInst>,
    addrs: Seq<GlobalAddr>,
    p: int,
)
    requires
        forall|k: int|
            0 <= k < segs.len() ==> offset_of((#[trigger] segs[k]).offset.0@, globals, addrs) + segs[k].init@.len()
                <= d.len(),
        0 <= p < d.len(),
    ensures
        apply_data(d, segs, globals, addrs).len() == d.len(),
        (forall|k: int| 0 <= k < segs.len() ==> !#[trigger] data_covers(segs, globals, addrs, k, p))
            ==> apply_data(d, segs, globals, addrs)[p] == d[p],
        forall|k: int|
            0 <= k < segs.len() && #[trigger] data_covers(segs, globals, addrs, k, p) && (forall|l: int|
                k < l < segs.len() ==> !#[trigger] data_covers(segs, globals, addrs, l, p)) ==> apply_data(
                d,
                segs,
                globals,
                addrs,
            )[p] == segs[k].init@[p - offset_of(segs[k].offset.0@, globals, addrs)],
    decreases segs.len(),
{
    if segs.len() > 0 {
        let n = segs.len() - 1;
        let init = segs.drop_last();
        assert forall|k: int| 0 <= k < init.len() implies offset_of((#[trigger] init[k]).offset.0@, globals, addrs)
            + init[k].init@.len() <= d.len() by {
            assert(init[k] == segs[k]);
        }
        law_data_segments_written(d, init, globals, addrs, p);
        let prev = apply_data(d, init, globals, addrs);
        let off = offset_of(segs[n].offset.0@, globals, addrs);
        let w = segs[n].init@;
        assert(segs.last() == segs[n]);
        assert(off >= 0);
        lemma_overwrite_at(prev, off, w, p);
        assert forall|k: int| 0 <= k < init.len() implies #[trigger] data_covers(init, globals, addrs, k, p)
            == data_covers(segs, globals, addrs, k, p) by {
            assert(init[k] == segs[k]);
        }
        if data_covers(segs, globals, addrs, n, p) {
            assert forall|k: int|
                0 <= k < segs.len() && #[trigger] data_covers(segs, globals, addrs, k, p) && (forall|l: int|
                    k < l < segs.len() ==> !#[trigger] data_covers(segs, globals, addrs, l, p)) implies k == n by {
                if k < n {
                    assert(!data_covers(segs, globals, addrs, n, p));
                }
            }
        } else {
            assert forall|k: int|
                0 <= k < segs.len() && #[trigger] data_covers(segs, globals, addrs, k, p) && (forall|l: int|
                    k < l < segs.len() ==> !#[trigger] data_covers(segs, globals, addrs, l, p)) implies apply_data(
                d,
                segs,
                globals,
                addrs,
            )[p] == segs[k].init@[p - offset_of(segs[k].offset.0@, globals, addrs)] by {
                assert(k < n);
                assert(data_covers(init, globals, addrs, k, p));
                assert(init[k] == segs[k]);
                assert forall|l: int| k < l < init.len() implies !#[trigger] data_covers(init, globals, addrs, l, p) by {
                    assert(!data_covers(segs, globals, addrs, l, p));
                }
            }
            if forall|k: int| 0 <= k < segs.len() ==> !#[trigger] data_covers(segs, globals, addrs, k, p) {
                assert forall|k: int| 0 <= k < init.len() implies !#[trigger] data_covers(init, globals, addrs, k, p) by {
                    assert(!data_covers(segs, globals, addrs, k, p));
                }
            }
        }
    }
}


/// After instantiation, the instance's table has the length it had before
/// (its declared minimum when the module defines it); an entry that no
/// element segment writes is what it was (empty in a table the module
/// defines, the imported table's entry otherwise); and an entry that the
/// `k`-th segment writes as its `j`-th entry, and no later segment writes,
/// holds the instance's function address for the segment's `j`-th function
/// index.
pub proof fn law_instance_table_contents(s: Store, f: Store, m: Module, objs: ImportObjects, a: TableAddr, p: int)
    requires
        tables_initialized(s, f, m, objs),
        forall|k: int|
            0 <= k < m.elem@.len() ==> #[trigger] elem_fits(
                m,
                f.globals@,
                inst_globals(s, m, objs),
                table_len(s, m, objs),
                k,
            ),
        inst_table(s, m, objs) == Some(a),
        0 <= p < (if m.tables@.len() > 0 {
            m.tables@[0].type_.0.min as int
        } else {
            s.tables@[a.0 as int].elem@.len() as int
        }),
    ensures
        f.tables@[a.0 as int].elem@.len() == (if m.tables@.len() > 0 {
            m.tables@[0].type_.0.min as int
        } else {
            s.tables@[a.0 as int].elem@.len() as int
        }),
        (forall|k: int|
            0 <= k < m.elem@.len() ==> !#[trigger] elem_covers(m.elem@, f.globals@, inst_globals(s, m, objs), k, p))
            ==> f.tables@[a.0 as int].elem@[p] == (if m.tables@.len() > 0 {
            None
        } else {
            s.tables@[a.0 as int].elem@[p]
        }),
        forall|k: int|
            0 <= k < m.elem@.len() && #[trigger] elem_covers(m.elem@, f.globals@, inst_globals(s, m, objs), k, p)
                && (forall|l: int|
                k < l < m.elem@.len() ==> !#[trigger] elem_covers(m.elem@, f.globals@, inst_globals(s, m, objs), l, p))
                ==> f.tables@[a.0 as int].elem@[p] == Some(
                inst_funcs(s, m, objs)[m.elem@[k].init@[p - offset_of(
                    m.elem@[k].offset.0@,
                    f.globals@,
                    inst_globals(s, m, objs),
                )].0 as int],
            ),
{
    let t = table_base(s, m, objs);
    assert(table_len(s, m, objs) == t.len());
    assert forall|k: int| 0 <= k < m.elem@.len() implies offset_of(
        (#[trigger] m.elem@[k]).offset.0@,
        f.globals@,
        inst_globals(s, m, objs),
    ) + m.elem@[k].init@.len() <= t.len() by {
        assert(elem_fits(m, f.globals@, inst_globals(s, m, objs), table_len(s, m, objs), k));
    }
    law_elem_segments_written(t, m.elem@, f.globals@, inst_globals(s, m, objs), inst_funcs(s, m, objs), p);
}

/// After instantiation, the instance's memory has the length it had before
/// (its declared minimum in pages when the module defines it); a byte that
/// no data segment writes is what it was (zero in a memory the module
/// defines, the imported memory's byte otherwise); and a byte that the
/// `k`-th segment writes as its `j`-th byte, and no later segment writes,
/// holds that byte of the segment.
pub proof fn law_instance_memory_contents(s: Store, f: Store, m: Module, objs: ImportObjects, a: MemAddr, p: int)
    requires
        mems_initialized(s, f, m, objs),
        forall|k: int|
            0 <= k < m.data@.len() ==> #[trigger] data_fits(
                m,
                f.globals@,
                inst_globals(s, m, objs),
                mem_len(s, m, objs),
                k,
            ),
        inst_mem(s, m, objs) == Some(a),
        0 <= p < (if m.mems@.len() > 0 {
            m.mems@[0].type_.0.min as int * PAGE_SIZE as int
        } else {
            s.mems@[a.0 as int].data@.len() as int
        }),
    ensures
        f.mems@[a.0 as int].data@.len() == (if m.mems@.len() > 0 {
            m.mems@[0].type_.0.min as int * PAGE_SIZE as int
        } else {
            s.mems@[a.0 as int].data@.len() as int
        }),
        (forall|k: int|
            0 <= k < m.data@.len() ==> !#[trigger] data_covers(m.data@, f.globals@, inst_globals(s, m, objs), k, p))
            ==> f.mems@[a.0 as int].data@[p] == (if m.mems@.len() > 0 {
            0u8
        } else {
            s.mems@[a.0 as int].data@[p]
        }),
        forall|k: int|
            0 <= k < m.data@.len() && #[trigger] data_covers(m.data@, f.globals@, inst_globals(s, m, objs), k, p)
                && (forall|l: int|
                k < l < m.data@.len() ==> !#[trigger] data_covers(m.data@, f.globals@, inst_globals(s, m, objs), l, p))
                ==> f.mems@[a.0 as int].data@[p] == m.data@[k].init@[p - offset_of(
                m.data@[k].offset.0@,
                f.globals@,
                inst_globals(s, m, objs),
            )],
{
    let d = mem_base(s, m, objs);
    assert(mem_len(s, m, objs) == d.len());
    assert forall|k: int| 0 <= k < m.data@.len() implies offset_of(
        (#[trigger] m.data@[k]).offset.0@,
        f.globals@,
        inst_globals(s, m, objs),
    ) + m.data@[k].init@.len() <= d.len() by {
        assert(data_fits(m, f.globals@, inst_globals(s, m, objs), mem_len(s, m, objs), k));
    }
    law_data_segments_written(d, m.data@, f.globals@, inst_globals(s, m, objs), p);
}

/// Each global the module defines starts with the value of its
/// initializer: the immediate of a constant instruction, or the current
/// value of the global that `global.get` names; and with its declared
/// mutability.
pub proof fn law_global_initial_values(s: Store, f: Store, m: Module, addrs: Seq<GlobalAddr>)
    requires
        globals_allocated(s, f, m, addrs),
    ensures
        forall|j: int|
            0 <= j < m.globals@.len() ==> {
                let g = f.globals@[s.globals@.len() + j];
                &&& g.mut_ == (#[trigger] m.globals@[j]).type_.0
                &&& match m.globals@[j].init.0@[0] {
                    Instr::I32Const(c) => g.value == Val::I32(c),
                    Instr::I64Const(c) => g.value == Val::I64(c),
                    Instr::F32Const(c) => g.value == Val::F32(c),
                    Instr::F64Const(c) => g.value == Val::F64(c),
                    Instr::GlobalGet(i) => g.value == f.globals@[addrs[i.0 as int].0 as int].value,
                    _ => true,
                }
            },
{
    assert forall|j: int| 0 <= j < m.globals@.len() implies {
        let g = f.globals@[s.globals@.len() + j];
        &&& g.mut_ == (#[trigger] m.globals@[j]).type_.0
        &&& match m.globals@[j].init.0@[0] {
            Instr::I32Const(c) => g.value == Val::I32(c),
            Instr::I64Const(c) => g.value == Val::I64(c),
            Instr::F32Const(c) => g.value == Val::F32(c),
            Instr::F64Const(c) => g.value == Val::F64(c),
            Instr::GlobalGet(i) => g.value == f.globals@[addrs[i.0 as int].0 as int].value,
            _ => true,
        }
    } by {
        assert(f.globals@[s.globals@.len() + j] == (GlobalInst {
            value: const_value(m.globals@[j].init.0@, f.globals@, addrs),
            mut_: m.globals@[j].type_.0,
        }));
    }
}

/// The function addresses that the imports of `imps` provide, when each
/// function import is offered a function: one per function import, and the
/// one for the `i`-th import is at the count of function imports before it.
proof fn lemma_imported_funcs_in_order(objs: ImportObjects, imps: Seq<Import>)
    requires
        forall|i: int|
            0 <= i < imps.len() && (#[trigger] imps[i]).desc is Func ==> provided(objs, imps[i]) matches Some(
                ExternalVal::Func(_),
            ),
    ensures
        imported_funcs(objs, imps).len() == n_func_imports(imps),
        forall|i: int|
            0 <= i < imps.len() && (#[trigger] imps[i]).desc is Func ==> {
                &&& n_func_imports(imps.take(i)) < n_func_imports(imps)
                &&& provided(objs, imps[i]) == Some(
                    ExternalVal::Func(imported_funcs(objs, imps)[n_func_imports(imps.take(i)) as int]),
                )
            },
    decreases imps.len(),
{
    if imps.len() > 0 {
        let n = imps.len() - 1;
        let init = imps.drop_last();
        assert forall|i: int|
            0 <= i < init.len() && (#[trigger] init[i]).desc is Func implies provided(objs, init[i]) matches Some(
                ExternalVal::Func(_),
            ) by {
            assert(init[i] == imps[i]);
        }
        lemma_imported_funcs_in_order(objs, init);
        assert(imps.last() == imps[n]);
        assert(imps.take(n) =~= init);
        assert forall|i: int| 0 <= i < imps.len() && (#[trigger] imps[i]).desc is Func implies {
            &&& n_func_imports(imps.take(i)) < n_func_imports(imps)
            &&& provided(objs, imps[i]) == Some(
                ExternalVal::Func(imported_funcs(objs, imps)[n_func_imports(imps.take(i)) as int]),
            )
        } by {
            if i < n {
                assert(init[i] == imps[i]);
                assert(init.take(i) =~= imps.take(i));
            }
        }
    }
}

/// Imports are linked in order: when every import links, the `i`-th import,
/// if it is a function import, gets the function index that counts the
/// function imports before it, and the instance's function at that index is
/// the one offered for it. The module's own functions follow, at fresh
/// addresses of the store, in order.
pub proof fn law_function_imports_in_order(s: Store, m: Module, objs: ImportObjects)
    requires
        imports_ok(s, m, objs),
    ensures
        inst_funcs(s, m, objs).len() == n_func_imports(m.imports@) + m.funcs@.len(),
        forall|i: int|
            0 <= i < m.imports@.len() && (#[trigger] m.imports@[i]).desc is Func ==> {
                &&& n_func_imports(m.imports@.take(i)) < n_func_imports(m.imports@)
                &&& provided(objs, m.imports@[i]) == Some(
                    ExternalVal::Func(inst_funcs(s, m, objs)[n_func_imports(m.imports@.take(i)) as int]),
                )
            },
        forall|j: int|
            0 <= j < m.funcs@.len() ==> #[trigger] inst_funcs(s, m, objs)[n_func_imports(m.imports@) + j]
                == FuncAddr((s.funcs@.len() + j) as usize),
{
    let imps = m.imports@;
    assert forall|i: int|
        0 <= i < imps.len() && (#[trigger] imps[i]).desc is Func implies provided(objs, imps[i]) matches Some(
            ExternalVal::Func(_),
        ) by {
        assert(import_ok(s, m.types@, objs, imps[i]));
    }
    lemma_imported_funcs_in_order(objs, imps);
    let r = imported_funcs(objs, imps);
    assert forall|i: int| 0 <= i < imps.len() && (#[trigger] imps[i]).desc is Func implies provided(
        objs,
        imps[i],
    ) == Some(ExternalVal::Func(inst_funcs(s, m, objs)[n_func_imports(imps.take(i)) as int])) by {
        assert(inst_funcs(s, m, objs)[n_func_imports(imps.take(i)) as int] == r[n_func_imports(imps.take(i)) as int]);
    }
}

/// A memory import links exactly when the offered value is a memory whose
/// current size in pages is at least the import's minimum and, when the
/// import declares a maximum, whose own maximum is declared and no larger:
/// a memory larger than the minimum is accepted.
pub proof fn law_memory_import_limits(s: Store, types: Seq<FuncType>, objs: ImportObjects, imp: Import, mt: MemType, a: MemAddr)
    requires
        imp.desc == ImportDesc::Mem(mt),
        provided(objs, imp) == Some(ExternalVal::Mem(a)),
        s.mems@[a.0 as int].data@.len() / (PAGE_SIZE as nat) <= u32::MAX,
    ensures
        import_ok(s, types, objs, imp) <==> {
            &&& s.mems@[a.0 as int].data@.len() / (PAGE_SIZE as nat) >= mt.0.min
            &&& mt.0.max matches Some(dm) ==> (s.mems@[a.0 as int].max matches Some(pm) && pm <= dm)
        },
{
}

/// A table import links exactly when the offered value is a table whose
/// current number of entries is at least the import's minimum and, when
/// the import declares a maximum, whose own maximum is declared and no
/// larger.
pub proof fn law_table_import_limits(s: Store, types: Seq<FuncType>, objs: ImportObjects, imp: Import, tt: TableType, a: TableAddr)
    requires
        imp.desc == ImportDesc::Table(tt),
        provided(objs, imp) == Some(ExternalVal::Table(a)),
        s.tables@[a.0 as int].elem@.len() <= u32::MAX,
    ensures
        import_ok(s, types, objs, imp) <==> {
            &&& s.tables@[a.0 as int].elem@.len() >= tt.0.min
            &&& tt.0.max matches Some(dm) ==> (s.tables@[a.0 as int].max matches Some(pm) && pm <= dm)
        },
{
}

/// A global import links exactly when the offered value is a global of
/// the declared mutability whose value has the declared type.
pub proof fn law_global_import_type(s: Store, types: Seq<FuncType>, objs: ImportObjects, imp: Import, gt: GlobalType, g: GlobalAddr)
    requires
        imp.desc == ImportDesc::Global(gt),
        provided(objs, imp) == Some(ExternalVal::Global(g)),
    ensures
        import_ok(s, types, objs, imp) <==> {
            &&& s.globals@[g.0 as int].mut_ == gt.0
            &&& type_of(s.globals@[g.0 as int].value) == gt.1
        },
{
}

/// A function import links exactly when the offered value is a function
/// whose parameter and result types are those of the type the import names.
pub proof fn law_function_import_type(s: Store, types: Seq<FuncType>, objs: ImportObjects, imp: Import, t: TypeIdx, fa: FuncAddr)
    requires
        imp.desc == ImportDesc::Func(t),
        provided(objs, imp) == Some(ExternalVal::Func(fa)),
    ensures
        import_ok(s, types, objs, imp) <==> {
            &&& s.funcs@[fa.0 as int].type_.0@ == types[t.0 as int].0@
            &&& s.funcs@[fa.0 as int].type_.1@ == types[t.0 as int].1@
        },
{
}

/// An import is refused when nothing is offered for it, or when the value
/// offered is of another kind than the import declares.
pub proof fn law_import_kind(s: Store, types: Seq<FuncType>, objs: ImportObjects, imp: Import)
    ensures
        import_ok(s, types, objs, imp) ==> match (imp.desc, provided(objs, imp)) {
            (ImportDesc::Func(_), Some(ExternalVal::Func(_))) => true,
            (ImportDesc::Table(_), Some(ExternalVal::Table(_))) => true,
            (ImportDesc::Mem(_), Some(ExternalVal::Mem(_))) => true,
            (ImportDesc::Global(_), Some(ExternalVal::Global(_))) => true,
            _ => false,
        },
{
}

} // verus!
