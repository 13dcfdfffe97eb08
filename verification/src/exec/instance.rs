use vstd::prelude::*;
use crate::error::WasmError;
use crate::exec::func::FuncAddr;
use crate::exec::global::{GlobalAddr, GlobalInst};
use crate::exec::instantiate::{
    alloc_funcs, alloc_globals, build_exports, check_segments, current_mem_len, current_table_len,
    init_segments, link_imports,
};
use crate::exec::linking::{
    const_readable, const_value, func_type_eq, funcs_allocated, globals_allocated, has_mem, has_table,
    imports_live, imports_ok, inst_funcs, inst_globals, inst_mem, inst_table, instance_of,
    lemma_global_types_imported, mem_base, mem_len, mem_max, mems_allocated, mems_initialized,
    module_valid, segments_fit, func_imports_reached, lemma_func_imports_typed, module_allocatable, segments_checkable,
    module_tail_valid, init_globals, lemma_init_globals, elem_offset_ok, data_offset_ok, elem_fits,
    data_fits, offsets_ok, table_base, table_len, table_max, tables_allocated, tables_initialized,
};
use crate::exec::mem::{MemAddr, MemInst};
use crate::exec::names::NameMap;
use crate::exec::store::Store;
use crate::exec::table::TableAddr;
use crate::exec::val::Val;
use crate::structure::instructions::{Expr, Instr};
use crate::structure::modules::{FuncIdx, GlobalIdx, Module, TypeIdx, TypedIdx};
use crate::structure::types::FuncType;

verus! {

/// A value that a module exports or imports: the address of a function,
/// a table, a memory or a global.
#[derive(Debug, Clone, Copy, PartialEq, Eq, Structural)]
pub enum ExternalVal {
    Func(FuncAddr),
    Table(TableAddr),
    Mem(MemAddr),
    Global(GlobalAddr),
}

/// The values one module offers to importers, by name.
pub type ExternalModule = NameMap<ExternalVal>;

/// The modules an instantiation may import from, by name.
pub type ImportObjects = NameMap<ExternalModule>;

impl ExternalVal {
    pub fn as_func(self) -> (r: Option<FuncAddr>)
        ensures
            r == (match self {
                ExternalVal::Func(x) => Some(x),
                _ => None,
            }),
    {
        if let ExternalVal::Func(x) = self {
            Some(x)
        } else {
            None
        }
    }

    pub fn unwrap_func(self) -> (r: FuncAddr)
        requires
            self is Func,
        ensures
            self == ExternalVal::Func(r),
    {
        self.as_func().unwrap()
    }

    pub fn as_table(self) -> (r: Option<TableAddr>)
        ensures
            r == (match self {
                ExternalVal::Table(x) => Some(x),
                _ => None,
            }),
    {
        if let ExternalVal::Table(x) = self {
            Some(x)
        } else {
            None
        }
    }

    pub fn unwrap_table(self) -> (r: TableAddr)
        requires
            self is Table,
        ensures
            self == ExternalVal::Table(r),
    {
        self.as_table().unwrap()
    }

    pub fn as_mem(self) -> (r: Option<MemAddr>)
        ensures
            r == (match self {
                ExternalVal::Mem(x) => Some(x),
                _ => None,
            }),
    {
        if let ExternalVal::Mem(x) = self {
            Some(x)
        } else {
            None
        }
    }

    pub fn unwrap_mem(self) -> (r: MemAddr)
        requires
            self is Mem,
        ensures
            self == ExternalVal::Mem(r),
    {
        self.as_mem().unwrap()
    }

    pub fn as_global(self) -> (r: Option<GlobalAddr>)
        ensures
            r == (match self {
                ExternalVal::Global(x) => Some(x),
                _ => None,
            }),
    {
        if let ExternalVal::Global(x) = self {
            Some(x)
        } else {
            None
        }
    }

    pub fn unwrap_global(self) -> (r: GlobalAddr)
        requires
            self is Global,
        ensures
            self == ExternalVal::Global(r),
    {
        self.as_global().unwrap()
    }
}

/// An export of an instance: its name and the value it refers to.
#[derive(Debug, Clone)]
pub struct ExportInst {
    pub name: String,
    pub value: ExternalVal,
}

/// Access to a vector by an index of one of the index spaces.
pub trait TypedIdxAccess<Idx: TypedIdx> {
    type Output;

    spec fn spec_len(&self) -> nat;

    spec fn spec_at(&self, i: int) -> Self::Output;

    fn get_idx(&self, idx: Idx) -> (r: &Self::Output)
        requires
            idx.spec_idx() < self.spec_len(),
        ensures
            *r == self.spec_at(idx.spec_idx() as int),
    ;
}

impl TypedIdxAccess<TypeIdx> for Vec<FuncType> {
    type Output = FuncType;

    open spec fn spec_len(&self) -> nat {
        self@.len()
    }

    open spec fn spec_at(&self, i: int) -> FuncType {
        self@[i]
    }

    fn get_idx(&self, idx: TypeIdx) -> (r: &FuncType) {
        &self[idx.to_idx()]
    }
}

impl TypedIdxAccess<FuncIdx> for Vec<FuncAddr> {
    type Output = FuncAddr;

    open spec fn spec_len(&self) -> nat {
        self@.len()
    }

    open spec fn spec_at(&self, i: int) -> FuncAddr {
        self@[i]
    }

    fn get_idx(&self, idx: FuncIdx) -> (r: &FuncAddr) {
        &self[idx.to_idx()]
    }
}

impl TypedIdxAccess<GlobalIdx> for Vec<GlobalAddr> {
    type Output = GlobalAddr;

    open spec fn spec_len(&self) -> nat {
        self@.len()
    }

    open spec fn spec_at(&self, i: int) -> GlobalAddr {
        self@[i]
    }

    fn get_idx(&self, idx: GlobalIdx) -> (r: &GlobalAddr) {
        &self[idx.to_idx()]
    }
}

/// An instance that is complete but for its start function: its address in
/// the store's modules, and the start function that is to run, if any.
#[derive(Debug, Clone, Copy, PartialEq, Eq, Structural)]
pub struct PendingInst {
    pub addr: usize,
    pub start: Option<FuncAddr>,
}

impl PendingInst {
    /// Ends the instantiation with the outcome of running the start
    /// function: the instance's address, unless there is a start function
    /// and it failed, in which case its error.
    pub fn finish(self, start_outcome: Result<(), WasmError>) -> (r: Result<usize, WasmError>)
        ensures
            r == match (self.start, start_outcome) {
                (Some(_), Err(e)) => Err(e),
                _ => Ok::<usize, WasmError>(self.addr),
            },
    {
        match (self.start, start_outcome) {
            (Some(_), Err(e)) => Err(e),
            _ => Ok(self.addr),
        }
    }
}

/// A module instance: the addresses of its functions, table, memory and
/// globals in the store, its types, and its exports.
#[derive(Debug, Clone)]
pub struct ModuleInst {
    pub types: Vec<FuncType>,
    pub funcs: Vec<FuncAddr>,
    pub table: Option<TableAddr>,
    pub mem: Option<MemAddr>,
    pub globals: Vec<GlobalAddr>,
    pub exports: Vec<ExportInst>,
}

impl ModuleInst {
    /// Instantiates `module` in `store`, linking its imports against
    /// `imports_objects`, up to its start function: the new instance is
    /// pushed to `store.modules`, and the answer names it and the function
    /// that is to run last, if the module has a start section. Instantiation
    /// fails with `LinkError`, before it allocates anything, when an import
    /// is missing or does not match; and, after it has allocated the
    /// module's functions, table, memory and globals, when a segment does
    /// not fit, before it writes any. What it reads of the module it needs
    /// to be well formed only as far as it gets: the type of each function
    /// import that is offered a function once the imports before it link,
    /// the functions, globals and memory once linking succeeds, each
    /// segment's offset once the segments before it fit, and the segments'
    /// function indices, the exports and the start index once every segment
    /// fits. The caller invokes the start function, if any, and hands its
    /// outcome to `PendingInst::finish`, which gives the instantiation's result.
    pub fn new(store: &mut Store, module: &Module, imports_objects: ImportObjects) -> (r: Result<PendingInst, WasmError>)
        requires
            func_imports_reached(*old(store), *module, imports_objects),
            imports_live(*old(store), *module, imports_objects),
            imports_ok(*old(store), *module, imports_objects) ==> module_allocatable(*module),
            imports_ok(*old(store), *module, imports_objects) ==> segments_checkable(
                *module,
                init_globals(*old(store), *module, imports_objects),
                inst_globals(*old(store), *module, imports_objects),
                table_len(*old(store), *module, imports_objects),
                mem_len(*old(store), *module, imports_objects),
            ),
            imports_ok(*old(store), *module, imports_objects) && segments_fit(
                *module,
                init_globals(*old(store), *module, imports_objects),
                inst_globals(*old(store), *module, imports_objects),
                table_len(*old(store), *module, imports_objects),
                mem_len(*old(store), *module, imports_objects),
            ) ==> module_tail_valid(*module),
        ensures
            r is Ok <==> imports_ok(*old(store), *module, imports_objects) && segments_fit(
                *module,
                init_globals(*old(store), *module, imports_objects),
                inst_globals(*old(store), *module, imports_objects),
                table_len(*old(store), *module, imports_objects),
                mem_len(*old(store), *module, imports_objects),
            ),
            r matches Err(e) ==> e == WasmError::LinkError && final(store).modules == old(store).modules,
            !imports_ok(*old(store), *module, imports_objects) ==> *final(store) == *old(store),
            imports_ok(*old(store), *module, imports_objects) ==> {
                &&& funcs_allocated(*old(store), *final(store), *module)
                &&& final(store).globals@ == init_globals(*old(store), *module, imports_objects)
                &&& globals_allocated(
                    *old(store),
                    *final(store),
                    *module,
                    inst_globals(*old(store), *module, imports_objects),
                )
            },
            imports_ok(*old(store), *module, imports_objects) && r is Err ==> {
                &&& tables_allocated(*old(store), *final(store), *module)
                &&& mems_allocated(*old(store), *final(store), *module)
            },
            r matches Ok(p) ==> {
                let a = p.addr;
                &&& module_valid(*module)
                &&& p.start == match module.start {
                    Some(s) => Some(final(store).modules@[a as int].funcs@[s.func.0 as int]),
                    None => None::<FuncAddr>,
                }
                &&& a == old(store).modules@.len()
                &&& final(store).modules@.len() == a + 1
                &&& forall|i: int| 0 <= i < a ==> #[trigger] final(store).modules@[i] == old(store).modules@[i]
                &&& instance_of(*old(store), final(store).modules@[a as int], *module, imports_objects)
                &&& tables_initialized(*old(store), *final(store), *module, imports_objects)
                &&& mems_initialized(*old(store), *final(store), *module, imports_objects)
            },
    {
        let ghost s0 = *store;
        let ghost objs = imports_objects;
        let mut result = ModuleInst {
            types: module.types.clone(),
            funcs: Vec::new(),
            table: None,
            mem: None,
            globals: Vec::new(),
            exports: Vec::new(),
        };
        proof {
            assert forall|i: int| 0 <= i < result.types@.len() implies func_type_eq(
                #[trigger] result.types@[i],
                module.types@[i],
            ) by {
                assert(cloned::<FuncType>(module.types@[i], result.types@[i]));
            }
        }
        match link_imports(store, module, &imports_objects, &mut result) {
            Ok(()) => {},
            Err(e) => {
                return Err(e);
            },
        }
        let ghost linked = result;
        let ghost f0 = store.funcs@.len();
        alloc_funcs(store, module, &mut result);
        let ghost s1 = *store;
        if module.tables.len() > 0 {
            result.table = Some(TableAddr::allocate(store, &module.tables[0].type_));
        }
        if module.mems.len() > 0 {
            result.mem = Some(MemAddr::allocate(store, &module.mems[0].type_));
        }
        let ghost s2 = *store;
        proof {
            assert(tables_allocated(s0, s2, *module));
            assert(mems_allocated(s0, s2, *module));
            assert(store.funcs.len() == store.funcs@.len());
            assert(result.funcs@ =~= inst_funcs(s0, *module, objs)) by {
                assert forall|i: int| 0 <= i < result.funcs@.len() implies result.funcs@[i] == inst_funcs(s0, *module, objs)[i] by {
                    if i >= linked.funcs@.len() {
                        let k = i - linked.funcs@.len();
                        assert(result.funcs@[linked.funcs@.len() + k].0 == f0 + k);
                    }
                }
            }
            assert(has_table(*module) ==> result.table is Some);
            assert(has_mem(*module) ==> result.mem is Some);
            assert(result.table == inst_table(s0, *module, objs));
            assert(result.mem == inst_mem(s0, *module, objs));
            lemma_global_types_imported(*module);
        }
        alloc_globals(store, module, &mut result);
        let ghost s3 = *store;
        proof {
            assert(result.globals@ =~= inst_globals(s0, *module, objs));
            assert(current_table_len(s3, result.table) == table_len(s0, *module, objs));
            assert(current_mem_len(s3, result.mem) == mem_len(s0, *module, objs));
            assert(globals_allocated(s0, s3, *module, inst_globals(s0, *module, objs)));
            lemma_init_globals(s0, s3, *module, objs);
        }
        match check_segments(store, module, &result) {
            Ok(()) => {},
            Err(e) => {
                return Err(e);
            },
        }
        proof {
            let g = init_globals(s0, *module, objs);
            let a = inst_globals(s0, *module, objs);
            let tl = table_len(s0, *module, objs);
            let ml = mem_len(s0, *module, objs);
            assert forall|k: int| 0 <= k < module.elem@.len() implies #[trigger] elem_offset_ok(*module, k) by {
                assert forall|j: int| 0 <= j < k implies #[trigger] elem_fits(*module, g, a, tl, j) by {}
            }
            assert forall|k: int| 0 <= k < module.data@.len() implies #[trigger] data_offset_ok(*module, k) by {
                assert forall|j: int| 0 <= j < module.elem@.len() implies #[trigger] elem_fits(*module, g, a, tl, j) by {}
                assert forall|j: int| 0 <= j < k implies #[trigger] data_fits(*module, g, a, ml, j) by {}
            }
            assert(offsets_ok(*module));
        }
        init_segments(store, module, &result);
        let ghost s4 = *store;
        proof {
            if let Some(t) = result.table {
                assert(s3.tables@[t.0 as int].elem@ == table_base(s0, *module, objs));
                assert(s3.tables@[t.0 as int].max == table_max(s0, *module, objs));
            }
            if let Some(a) = result.mem {
                assert(s3.mems@[a.0 as int].data@ == mem_base(s0, *module, objs));
                assert(s3.mems@[a.0 as int].max == mem_max(s0, *module, objs));
            }
            assert(tables_initialized(s0, s4, *module, objs));
            assert(mems_initialized(s0, s4, *module, objs));
        }
        build_exports(module, &mut result);
        let start = match &module.start {
            Some(s) => Some(*result.funcs.get_idx(s.func)),
            None => None,
        };
        proof {
            lemma_func_imports_typed(s0, *module, objs);
        }
        let addr = store.modules.len();
        store.modules.push(result);
        Ok(PendingInst { addr, start })
    }

    /// Replaces the instance's memory, if it has one, by `mem`.
    pub fn restore_mem(&self, store: &mut Store, mem: MemInst)
        requires
            self.mem matches Some(a) ==> a.0 < old(store).mems@.len(),
        ensures
            final(store).mems@ == match self.mem {
                Some(a) => old(store).mems@.update(a.0 as int, mem),
                None => old(store).mems@,
            },
            final(store).funcs == old(store).funcs,
            final(store).tables == old(store).tables,
            final(store).globals == old(store).globals,
            final(store).modules == old(store).modules,
    {
        if let Some(memaddr) = &self.mem {
            store.mems.set(memaddr.0, mem);
        }
    }

    /// Sets, in order, the `i`-th global of the instance to the value and
    /// mutability of `globals[i]`.
    pub fn restore_globals(&self, store: &mut Store, globals: &Vec<GlobalInst>)
        requires
            globals@.len() >= self.globals@.len(),
            self.globals@.len() <= u32::MAX as int + 1,
            forall|i: int| 0 <= i < self.globals@.len() ==> (#[trigger] self.globals@[i]).live(old(store)),
        ensures
            final(store).globals@ == restored_globals(old(store).globals@, self.globals@, globals@),
            final(store).funcs == old(store).funcs,
            final(store).tables == old(store).tables,
            final(store).mems == old(store).mems,
            final(store).modules == old(store).modules,
    {
        let mut i: usize = 0;
        while i < self.globals.len()
            invariant
                i <= self.globals@.len(),
                globals@.len() >= self.globals@.len(),
                self.globals@.len() <= u32::MAX as int + 1,
                forall|k: int| 0 <= k < self.globals@.len() ==> (#[trigger] self.globals@[k]).0 < store.globals@.len(),
                store.globals@ == restored_globals(old(store).globals@, self.globals@.take(i as int), globals@),
                store.funcs == old(store).funcs,
                store.tables == old(store).tables,
                store.mems == old(store).mems,
                store.modules == old(store).modules,
            decreases self.globals@.len() - i,
        {
            let global = globals[i];
            proof {
                assert(self.globals@.take(i + 1).drop_last() =~= self.globals@.take(i as int));
            }
            self.globals.get_idx(GlobalIdx(i as u32)).mut_inst(store).set(global.value, global.mut_);
            i = i + 1;
        }
        proof {
            assert(self.globals@.take(self.globals@.len() as int) =~= self.globals@);
        }
    }

    /// The value of a constant expression, reading globals of this instance.
    pub(crate) fn eval_const_expr(&self, store: &Store, expr: &Expr) -> (r: Val)
        requires
            const_readable(expr.0@, store.globals@, self.globals@),
        ensures
            r == const_value(expr.0@, store.globals@, self.globals@),
    {
        match expr.0[0] {
            Instr::I32Const(x) => Val::I32(x),
            Instr::I64Const(x) => Val::I64(x),
            Instr::F32Const(x) => Val::F32(x),
            Instr::F64Const(x) => Val::F64(x),
            Instr::GlobalGet(i) => self.globals[i.to_idx()].get(store),
            _ => Val::I32(0),
        }
    }

    /// The value of the first export named `name`.
    pub fn export(&self, name: &str) -> (r: ExternalVal)
        requires
            has_export(self.exports@, name@),
        ensures
            exists|i: int|
                0 <= i < self.exports@.len() && (#[trigger] self.exports@[i]).name@ == name@
                    && r == self.exports@[i].value && forall|j: int|
                    0 <= j < i ==> (#[trigger] self.exports@[j]).name@ != name@,
    {
        let key = name.to_owned();
        let mut i: usize = 0;
        while i < self.exports.len()
            invariant
                i <= self.exports@.len(),
                key@ == name@,
                has_export(self.exports@, name@),
                forall|j: int| 0 <= j < i ==> (#[trigger] self.exports@[j]).name@ != name@,
            decreases self.exports@.len() - i,
        {
            if self.exports[i].name == key {
                return self.exports[i].value;
            }
            i = i + 1;
        }
        proof {
            let k = choose|k: int| 0 <= k < self.exports@.len() && (#[trigger] self.exports@[k]).name@ == name@;
            assert(self.exports@[k].name@ != name@);
        }
        self.exports[0].value
    }

    /// All exports, by name.
    pub fn exports(&self) -> (r: ExternalModule)
        ensures
            r@ == exports_map(self.exports@),
    {
        let mut r: ExternalModule = NameMap::new();
        let mut i: usize = 0;
        while i < self.exports.len()
            invariant
                i <= self.exports@.len(),
                r@ == exports_map(self.exports@.take(i as int)),
            decreases self.exports@.len() - i,
        {
            r.insert(self.exports[i].name.clone(), self.exports[i].value);
            proof {
                assert(self.exports@.take(i + 1).drop_last() =~= self.exports@.take(i as int));
            }
            i = i + 1;
        }
        proof {
            assert(self.exports@.take(self.exports@.len() as int) =~= self.exports@);
        }
        r
    }
}

/// The map that a list of exports denotes; for a name exported twice, the
/// later export wins.
pub open spec fn exports_map(s: Seq<ExportInst>) -> Map<Seq<char>, ExternalVal>
    decreases s.len(),
{
    if s.len() == 0 {
        Map::empty()
    } else {
        exports_map(s.drop_last()).insert(s.last().name@, s.last().value)
    }
}

/// No two exports share a name.
pub open spec fn distinct_export_names(s: Seq<ExportInst>) -> bool {
    forall|i: int, j: int| 0 <= i < j < s.len() ==> (#[trigger] s[i]).name@ != (#[trigger] s[j]).name@
}

/// Some export carries `name`.
pub open spec fn has_export(s: Seq<ExportInst>, name: Seq<char>) -> bool {
    exists|i: int| 0 <= i < s.len() && (#[trigger] s[i]).name@ == name
}

/// When export names are distinct, the map that `exports` answers binds
/// each exported name to the value of the export carrying it, which is
/// the value `export` answers for that name.
pub proof fn law_exports_agree(s: Seq<ExportInst>, i: int)
    requires
        distinct_export_names(s),
        0 <= i < s.len(),
    ensures
        exports_map(s).contains_key(s[i].name@),
        exports_map(s)[s[i].name@] == s[i].value,
    decreases s.len(),
{
    if i < s.len() - 1 {
        let t = s.drop_last();
        assert(t[i] == s[i]);
        assert(distinct_export_names(t)) by {
            assert forall|a: int, b: int| 0 <= a < b < t.len() implies (#[trigger] t[a]).name@ != (#[trigger] t[b]).name@ by {
                assert(t[a] == s[a] && t[b] == s[b]);
            }
        }
        law_exports_agree(t, i);
        assert(s[i].name@ != s[s.len() - 1].name@);
    }
}

/// The globals of the store after the instance globals `addrs` are set,
/// in order, to `vals`.
pub open spec fn restored_globals(g: Seq<GlobalInst>, addrs: Seq<GlobalAddr>, vals: Seq<GlobalInst>) -> Seq<GlobalInst>
    decreases addrs.len(),
{
    if addrs.len() == 0 {
        g
    } else {
        restored_globals(g, addrs.drop_last(), vals).update(
            addrs.last().0 as int,
            vals[addrs.len() - 1],
        )
    }
}

/// When the instance's globals are at distinct addresses, restoring sets
/// each of them to its own restored value and leaves every other global
/// of the store as it was.
pub proof fn law_restore_globals(g: Seq<GlobalInst>, addrs: Seq<GlobalAddr>, vals: Seq<GlobalInst>, p: int)
    requires
        vals.len() >= addrs.len(),
        forall|k: int| 0 <= k < addrs.len() ==> (#[trigger] addrs[k]).0 < g.len(),
        forall|j: int, k: int| 0 <= j < k < addrs.len() ==> (#[trigger] addrs[j]).0 != (#[trigger] addrs[k]).0,
        0 <= p < g.len(),
    ensures
        restored_globals(g, addrs, vals).len() == g.len(),
        forall|i: int| 0 <= i < addrs.len() && addrs[i].0 == p ==> restored_globals(g, addrs, vals)[p] == vals[i],
        (forall|i: int| 0 <= i < addrs.len() ==> (#[trigger] addrs[i]).0 != p) ==> restored_globals(g, addrs, vals)[p] == g[p],
    decreases addrs.len(),
{
    if addrs.len() > 0 {
        let t = addrs.drop_last();
        assert forall|j: int, k: int| 0 <= j < k < t.len() implies (#[trigger] t[j]).0 != (#[trigger] t[k]).0 by {
            assert(t[j] == addrs[j] && t[k] == addrs[k]);
        }
        assert forall|k: int| 0 <= k < t.len() implies (#[trigger] t[k]).0 < g.len() by {
            assert(t[k] == addrs[k]);
        }
        law_restore_globals(g, t, vals, p);
        assert forall|i: int| 0 <= i < addrs.len() && addrs[i].0 == p implies restored_globals(g, addrs, vals)[p] == vals[i] by {
            if i < addrs.len() - 1 {
                assert(t[i] == addrs[i]);
                assert(addrs[i].0 != addrs[addrs.len() - 1].0);
            }
        }
        if forall|i: int| 0 <= i < addrs.len() ==> (#[trigger] addrs[i]).0 != p {
            assert forall|i: int| 0 <= i < t.len() implies (#[trigger] t[i]).0 != p by {
                assert(t[i] == addrs[i]);
            }
            assert(addrs[addrs.len() - 1].0 != p);
        }
    }
}

/// Restoring a snapshot of the instance's globals, taken from the globals
/// `snap` of an earlier store, gives every global of the instance back
/// the value and mutability it had then. This holds also when handles of
/// the instance alias one global: they read one global when the snapshot
/// is taken, so their entries agree, and whichever is written last writes
/// that same entry.
pub proof fn law_restore_snapshot(g: Seq<GlobalInst>, addrs: Seq<GlobalAddr>, snap: Seq<GlobalInst>, vals: Seq<GlobalInst>, i: int)
    requires
        vals.len() >= addrs.len(),
        forall|k: int|
            0 <= k < addrs.len() ==> {
                &&& (#[trigger] addrs[k]).0 < g.len()
                &&& addrs[k].0 < snap.len()
                &&& vals[k] == snap[addrs[k].0 as int]
            },
        0 <= i < addrs.len(),
    ensures
        restored_globals(g, addrs, vals).len() == g.len(),
        restored_globals(g, addrs, vals)[addrs[i].0 as int] == snap[addrs[i].0 as int],
    decreases addrs.len(),
{
    let n = addrs.len() - 1;
    let t = addrs.drop_last();
    assert forall|k: int|
        0 <= k < t.len() implies {
            &&& (#[trigger] t[k]).0 < g.len()
            &&& t[k].0 < snap.len()
            &&& vals[k] == snap[t[k].0 as int]
        } by {
        assert(t[k] == addrs[k]);
        assert(addrs[k].0 < g.len());
    }
    assert(addrs[n].0 < g.len());
    let r_t = restored_globals(g, t, vals);
    if t.len() > 0 {
        law_restore_snapshot(g, t, snap, vals, 0);
    } else {
        assert(r_t == g);
    }
    assert(addrs.last() == addrs[n]);
    assert(restored_globals(g, addrs, vals) == r_t.update(addrs[n].0 as int, vals[n]));
    if i < n && addrs[i].0 != addrs[n].0 {
        assert(t[i] == addrs[i]);
        law_restore_snapshot(g, t, snap, vals, i);
    }
}

} // verus!
