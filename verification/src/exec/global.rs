use vstd::prelude::*;
use crate::exec::store::Store;
use crate::exec::val::{type_of, Val};
use crate::structure::modules::GlobalIdx;
use crate::structure::types::{GlobalType, Mut};

verus! {

/// A global instance: its current value and its mutability.
#[derive(Debug, Clone, Copy, PartialEq, Eq, Structural)]
pub struct GlobalInst {
    pub value: Val,
    pub mut_: Mut,
}

impl GlobalInst {
    /// Replaces both the value and the mutability.
    pub fn set(&mut self, value: Val, mut_: Mut)
        ensures
            *final(self) == (GlobalInst { value, mut_ }),
    {
        self.value = value;
        self.mut_ = mut_;
    }
}

/// A shared handle on a global instance: its address in the store, and the
/// index of the global in the index space of the module that allocated it.
/// `==` on handles compares addresses and indices: equal handles name the
/// same global. Two globals allocated apart are different globals even when
/// they hold the same value; `same_content` compares what two handles'
/// globals hold.
#[derive(Debug, Clone, Copy, PartialEq, Eq, Structural)]
pub struct GlobalAddr(pub usize, pub GlobalIdx);

/// What `set` does to the globals of the store: a `Var` global whose value
/// has the type of `val` gets `val`; any other global stays as it is.
pub open spec fn global_after_set(g: GlobalInst, val: Val) -> GlobalInst {
    if g.mut_ == Mut::Var && type_of(g.value) == type_of(val) {
        GlobalInst { value: val, mut_: g.mut_ }
    } else {
        g
    }
}

impl GlobalAddr {
    /// Whether the handle points to a global of `store`.
    pub open spec fn live(&self, store: &Store) -> bool {
        self.0 < store.globals@.len()
    }

    /// The instance at this address, in `store`.
    pub open spec fn spec_inst(&self, store: &Store) -> GlobalInst {
        store.globals@[self.0 as int]
    }

    /// Mutable access to the instance.
    pub fn mut_inst<'a>(&self, store: &'a mut Store) -> (r: &'a mut GlobalInst)
        requires
            self.live(old(store)),
        ensures
            *r == self.spec_inst(old(store)),
            final(store).globals@ == old(store).globals@.update(self.0 as int, *final(r)),
            final(store).funcs == old(store).funcs,
            final(store).tables == old(store).tables,
            final(store).mems == old(store).mems,
            final(store).modules == old(store).modules,
    {
        &mut store.globals[self.0]
    }

    /// Shared access to the instance.
    pub fn inst<'a>(&self, store: &'a Store) -> (r: &'a GlobalInst)
        requires
            self.live(store),
        ensures
            *r == self.spec_inst(store),
    {
        &store.globals[self.0]
    }

    /// A copy of the instance.
    pub fn get_inst(&self, store: &Store) -> (r: GlobalInst)
        requires
            self.live(store),
        ensures
            r == self.spec_inst(store),
    {
        GlobalInst { mut_: self.inst(store).mut_, value: self.inst(store).value }
    }

    /// The type of the global: its mutability and the type of its current value.
    pub fn type_(&self, store: &Store) -> (r: GlobalType)
        requires
            self.live(store),
        ensures
            r == GlobalType(self.spec_inst(store).mut_, type_of(self.spec_inst(store).value)),
    {
        let inst = self.inst(store);
        GlobalType(inst.mut_, inst.value.val_type())
    }

    /// Allocates a global instance holding `val` with mutability `mut_`.
    pub fn new(store: &mut Store, mut_: Mut, val: Val, idx: GlobalIdx) -> (r: GlobalAddr)
        ensures
            r == GlobalAddr(old(store).globals@.len() as usize, idx),
            r.0 == old(store).globals@.len(),
            r.live(final(store)),
            final(store).globals@ == old(store).globals@.push(GlobalInst { value: val, mut_ }),
            final(store).funcs == old(store).funcs,
            final(store).tables == old(store).tables,
            final(store).mems == old(store).mems,
            final(store).modules == old(store).modules,
    {
        let r = GlobalAddr(store.globals.len(), idx);
        store.globals.push(GlobalInst { value: val, mut_ });
        proof {
            assert(store.globals.len() == store.globals@.len());
        }
        r
    }

    /// Allocates a global of type `type_` holding `val`.
    pub(crate) fn allocate(store: &mut Store, type_: GlobalType, val: Val, idx: GlobalIdx) -> (r: GlobalAddr)
        ensures
            r == GlobalAddr(old(store).globals@.len() as usize, idx),
            r.0 == old(store).globals@.len(),
            r.live(final(store)),
            final(store).globals@ == old(store).globals@.push(GlobalInst { value: val, mut_: type_.0 }),
            final(store).funcs == old(store).funcs,
            final(store).tables == old(store).tables,
            final(store).mems == old(store).mems,
            final(store).modules == old(store).modules,
    {
        GlobalAddr::new(store, type_.0, val, idx)
    }

    /// Whether the two handles' globals hold the same value with the same
    /// mutability, and the handles carry the same index.
    pub fn same_content(&self, other: &GlobalAddr, store: &Store) -> (r: bool)
        requires
            self.live(store),
            other.live(store),
        ensures
            r == (self.spec_inst(store) == other.spec_inst(store) && self.1 == other.1),
    {
        let a = self.inst(store);
        let b = other.inst(store);
        let same_mut = match (a.mut_, b.mut_) {
            (Mut::Const, Mut::Const) => true,
            (Mut::Var, Mut::Var) => true,
            _ => false,
        };
        let same_value = match (a.value, b.value) {
            (Val::I32(x), Val::I32(y)) => x == y,
            (Val::I64(x), Val::I64(y)) => x == y,
            (Val::F32(x), Val::F32(y)) => x == y,
            (Val::F64(x), Val::F64(y)) => x == y,
            _ => false,
        };
        same_mut && same_value && (self.1).0 == (other.1).0
    }

    /// The current value.
    pub fn get(&self, store: &Store) -> (r: Val)
        requires
            self.live(store),
        ensures
            r == self.spec_inst(store).value,
    {
        self.inst(store).value
    }

    /// Writes `val` into a mutable global whose value has the type of `val`
    /// and answers `Some(())`; answers `None` and writes nothing otherwise.
    pub fn set(&self, store: &mut Store, val: Val) -> (r: Option<()>)
        requires
            self.live(old(store)),
        ensures
            r is Some <==> (self.spec_inst(old(store)).mut_ == Mut::Var && type_of(
                self.spec_inst(old(store)).value,
            ) == type_of(val)),
            final(store).globals@ == old(store).globals@.update(
                self.0 as int,
                global_after_set(self.spec_inst(old(store)), val),
            ),
            final(store).funcs == old(store).funcs,
            final(store).tables == old(store).tables,
            final(store).mems == old(store).mems,
            final(store).modules == old(store).modules,
    {
        let inst = self.mut_inst(store);
        if inst.mut_ == Mut::Var && inst.value.val_type() == val.val_type() {
            inst.value = val;
            Some(())
        } else {
            None
        }
    }
}

/// What `set` does to the store, seen through any handle `b`: a handle on
/// the written address sees the write (handles share their instance), a
/// handle on another address sees no change, the global keeps its type and
/// mutability, and a successful write is read back.
pub proof fn law_set_then_get(s1: Store, s2: Store, a: GlobalAddr, b: GlobalAddr, val: Val)
    requires
        a.live(&s1),
        b.live(&s1),
        s2.globals@ == s1.globals@.update(a.0 as int, global_after_set(a.spec_inst(&s1), val)),
    ensures
        b.0 != a.0 ==> b.spec_inst(&s2) == b.spec_inst(&s1),
        b.0 == a.0 ==> b.spec_inst(&s2) == a.spec_inst(&s2),
        type_of(a.spec_inst(&s2).value) == type_of(a.spec_inst(&s1).value),
        a.spec_inst(&s2).mut_ == a.spec_inst(&s1).mut_,
        a.spec_inst(&s1).mut_ == Mut::Var && type_of(a.spec_inst(&s1).value) == type_of(val)
            ==> a.spec_inst(&s2).value == val,
        !(a.spec_inst(&s1).mut_ == Mut::Var && type_of(a.spec_inst(&s1).value) == type_of(val))
            ==> s2.globals@ == s1.globals@,
{
    if !(a.spec_inst(&s1).mut_ == Mut::Var && type_of(a.spec_inst(&s1).value) == type_of(val)) {
        assert(s2.globals@ =~= s1.globals@);
    }
}

} // verus!
