//! The per-function lowering context: a variable arena, the identifier
//! bindings, and the instruction buffer being built.
use vstd::prelude::*;

use crate::air::{alloc_precedes_use, allocs_distinct, is_alloc_of, is_scalar_store, store_target, uses, Air, IntKind, OffsetVar, Reg, Var};
use crate::ast::{IdentId, Sig};
use crate::store::{resolve, size_of, TyStore};
use crate::ty::{Ty, TyId};

verus! {

/// An identifier bound to a variable of a given type.
#[derive(Debug, Clone, Copy, PartialEq, Eq, Structural)]
pub struct Binding {
    pub name: IdentId,
    pub var: Var,
    pub ty: TyId,
}

/// A fatal error of lowering: the input was not consistently type-checked.
#[derive(Debug, Clone, Copy, PartialEq, Eq, Structural)]
pub enum LowerError {
    /// An identifier has no variable bound to it.
    Unbound(IdentId),
    /// A type handle that the type store does not know.
    UnknownType(TyId),
    /// A destination's type disagrees with the shape of the expression.
    TypeMismatch,
    /// A field name that the struct's layout does not hold.
    InvalidField(IdentId),
    /// A construct lowering does not implement: enum values, unit targets.
    Unsupported,
}

/// The abstract state of a lowering context: the size of each variable, the
/// bindings in the order they were made, and the instructions so far.
pub struct LowerState {
    pub sizes: Seq<usize>,
    pub binds: Seq<Binding>,
    pub instrs: Seq<Air>,
}

pub open spec fn empty_state() -> LowerState {
    LowerState { sizes: Seq::empty(), binds: Seq::empty(), instrs: Seq::empty() }
}

/// The most recent binding of `name`.
pub open spec fn lookup(binds: Seq<Binding>, name: IdentId) -> Option<Binding>
    decreases binds.len(),
{
    if binds.len() == 0 {
        None
    } else if binds.last().name == name {
        Some(binds.last())
    } else {
        lookup(binds.drop_last(), name)
    }
}

pub open spec fn emit(st: LowerState, a: Air) -> LowerState {
    LowerState { instrs: st.instrs.push(a), ..st }
}

/// The variable that the next allocation hands out.
pub open spec fn next_var(st: LowerState) -> Var {
    Var(st.sizes.len() as usize)
}

/// Allocate the next variable with `size` bytes and reserve its storage.
pub open spec fn alloc_var(st: LowerState, size: usize) -> LowerState {
    LowerState {
        sizes: st.sizes.push(size),
        binds: st.binds,
        instrs: st.instrs.push(Air::SAlloc(next_var(st), size)),
    }
}

pub open spec fn bind(st: LowerState, b: Binding) -> LowerState {
    LowerState { binds: st.binds.push(b), ..st }
}

/// Return an immediate: load it into A, then return.
pub open spec fn ret_iconst(st: LowerState, v: i64) -> LowerState {
    emit(emit(st, Air::MovIConst(Reg::A, v)), Air::Ret)
}

/// Return an integer held in a location: load it into A, then return.
pub open spec fn ret_ivar(st: LowerState, o: OffsetVar, k: IntKind) -> LowerState {
    emit(emit(st, Air::MovIVar(Reg::A, o, k)), Air::Ret)
}

/// Return an aggregate: load its address into A, then return.
pub open spec fn ret_ptr(st: LowerState, o: OffsetVar) -> LowerState {
    emit(emit(st, Air::Addr(Reg::A, o)), Air::Ret)
}

/// Every variable that `a` uses is below `n`.
pub open spec fn vars_below(a: Air, n: nat) -> bool {
    forall|v: Var| #[trigger] uses(a, v) ==> v.0 < n
}

pub struct AirCtx {
    pub tys: TyStore,
    pub vars: Vec<usize>,
    pub binds: Vec<Binding>,
    pub instrs: Vec<Air>,
    /// Where each variable's reservation stands in `instrs`.
    pub alloc_at: Ghost<Seq<int>>,
}

impl View for AirCtx {
    type V = LowerState;

    open spec fn view(&self) -> LowerState {
        LowerState { sizes: self.vars@, binds: self.binds@, instrs: self.instrs@ }
    }
}

/// `new` is `old` after more lowering: same type facts, and variables are
/// only ever added.
pub open spec fn extends(old: AirCtx, new: AirCtx) -> bool {
    &&& new.tys == old.tys
    &&& old.vars@.len() <= new.vars@.len()
    &&& forall|v: int| 0 <= v < old.vars@.len() ==> new.vars@[v] == old.vars@[v]
    &&& old.instrs@.len() <= new.instrs@.len()
    &&& forall|i: int| 0 <= i < old.instrs@.len() ==> new.instrs@[i] == old.instrs@[i]
}

/// The instructions appended between `old` and `new`.
pub open spec fn appended(old: AirCtx, new: AirCtx) -> Seq<Air> {
    new.instrs@.subrange(old.instrs@.len() as int, new.instrs@.len() as int)
}

/// No instruction appended between `old` and `new` is a return.
pub open spec fn appends_no_ret(old: AirCtx, new: AirCtx) -> bool {
    forall|j: int| old.instrs@.len() <= j < new.instrs@.len() ==> new.instrs@[j] != Air::Ret
}

/// The instructions appended between `old` and `new` copy no bytes, and
/// store scalars only into variables allocated after `old`.
pub open spec fn fresh_writes(old: AirCtx, new: AirCtx) -> bool {
    forall|j: int|
        old.instrs@.len() <= j < new.instrs@.len() ==> {
            &&& !(#[trigger] new.instrs@[j] is MemCpy)
            &&& is_scalar_store(new.instrs@[j]) ==> store_target(new.instrs@[j]).0.var.0
                >= old.vars@.len()
        }
}

impl AirCtx {
    pub open spec fn wf(self) -> bool {
        &&& self.tys.wf()
        &&& self.alloc_at@.len() == self.vars@.len()
        &&& forall|v: int|
            0 <= v < self.vars@.len() ==> {
                &&& 0 <= #[trigger] self.alloc_at@[v] < self.instrs@.len()
                &&& self.instrs@[self.alloc_at@[v]] == Air::SAlloc(Var(v as usize), self.vars@[v])
            }
        &&& forall|i: int, v: Var|
            0 <= i < self.instrs@.len() && #[trigger] uses(self.instrs@[i], v) ==> {
                &&& v.0 < self.vars@.len()
                &&& self.alloc_at@[v.0 as int] < i
            }
        &&& forall|i: int|
            0 <= i < self.instrs@.len() && (#[trigger] self.instrs@[i]) is SAlloc ==> {
                &&& self.instrs@[i]->SAlloc_0.0 < self.vars@.len()
                &&& self.alloc_at@[self.instrs@[i]->SAlloc_0.0 as int] == i
            }
        &&& forall|k: int|
            0 <= k < self.binds@.len() ==> {
                let b = #[trigger] self.binds@[k];
                &&& b.var.0 < self.vars@.len()
                &&& resolve(self.tys, b.ty) is Some
                &&& size_of(self.tys, resolve(self.tys, b.ty)->0) <= self.vars@[b.var.0 as int]
            }
    }

    pub fn new(tys: TyStore) -> (r: AirCtx)
        requires
            tys.wf(),
        ensures
            r.wf(),
            r.tys == tys,
            r@ == empty_state(),
    {
        AirCtx {
            tys,
            vars: Vec::new(),
            binds: Vec::new(),
            instrs: Vec::new(),
            alloc_at: Ghost(Seq::empty()),
        }
    }

    /// Reset the context for a new function.
    pub fn start(&mut self)
        requires
            old(self).tys.wf(),
        ensures
            final(self).wf(),
            final(self).tys == old(self).tys,
            final(self)@ == empty_state(),
    {
        self.vars = Vec::new();
        self.binds = Vec::new();
        self.instrs = Vec::new();
        self.alloc_at = Ghost(Seq::empty());
    }

    pub fn ins(&mut self, a: Air)
        requires
            old(self).wf(),
            vars_below(a, old(self).vars@.len()),
            !(a is SAlloc),
        ensures
            final(self).wf(),
            extends(*old(self), *final(self)),
            final(self)@ == emit(old(self)@, a),
    {
        self.instrs.push(a);
        assert forall|i: int, v: Var|
            0 <= i < self.instrs@.len() && #[trigger] uses(self.instrs@[i], v) implies v.0
            < self.vars@.len() && self.alloc_at@[v.0 as int] < i by {
            if i == self.instrs@.len() - 1 {
                assert(uses(a, v));
            } else {
                assert(self.instrs@[i] == old(self).instrs@[i]);
            }
        }
    }

    /// Allocate an unbound variable of `size` bytes.
    pub fn alloc_slot(&mut self, size: usize) -> (r: Var)
        requires
            old(self).wf(),
        ensures
            final(self).wf(),
            extends(*old(self), *final(self)),
            final(self)@ == alloc_var(old(self)@, size),
            r == next_var(old(self)@),
            r.0 == old(self).vars@.len(),
    {
        let v = Var(self.vars.len());
        self.instrs.push(Air::SAlloc(v, size));
        self.vars.push(size);
        self.alloc_at = Ghost(self.alloc_at@.push(old(self).instrs@.len() as int));
        assert forall|i: int, w: Var|
            0 <= i < self.instrs@.len() && #[trigger] uses(self.instrs@[i], w) implies w.0
            < self.vars@.len() && self.alloc_at@[w.0 as int] < i by {
            assert(self.instrs@[i] == old(self).instrs@[i]);
        }
        assert forall|k: int| 0 <= k < self.binds@.len() implies {
            let b = #[trigger] self.binds@[k];
            &&& b.var.0 < self.vars@.len()
            &&& resolve(self.tys, b.ty) is Some
            &&& size_of(self.tys, resolve(self.tys, b.ty)->0) <= self.vars@[b.var.0 as int]
        } by {
            assert(old(self).binds@[k] == self.binds@[k]);
        }
        v
    }

    /// Allocate an unbound temporary for a value of type `t`.
    pub fn anon_var(&mut self, t: Ty) -> (r: Var)
        requires
            old(self).wf(),
            t is Struct ==> t->Struct_0.0 < old(self).tys.layouts@.len(),
        ensures
            final(self).wf(),
            extends(*old(self), *final(self)),
            final(self)@ == alloc_var(old(self)@, size_of(old(self).tys, t) as usize),
            r == next_var(old(self)@),
            r.0 == old(self).vars@.len(),
    {
        let size = self.tys.size(t);
        self.alloc_slot(size)
    }

    /// Allocate a variable for a value of type `ty` and bind `name` to it.
    pub fn new_var_registered(&mut self, name: IdentId, ty: TyId, t: Ty) -> (r: Var)
        requires
            old(self).wf(),
            resolve(old(self).tys, ty) == Some(t),
        ensures
            final(self).wf(),
            extends(*old(self), *final(self)),
            final(self)@ == bind(
                alloc_var(old(self)@, size_of(old(self).tys, t) as usize),
                Binding { name, var: r, ty },
            ),
            r == next_var(old(self)@),
            r.0 == old(self).vars@.len(),
    {
        proof {
            if t is Struct {
                assert(old(self).tys.tys@[ty.0 as int] == t);
            }
        }
        let v = self.anon_var(t);
        self.binds.push(Binding { name, var: v, ty });
        assert forall|k: int| 0 <= k < self.binds@.len() implies {
            let b = #[trigger] self.binds@[k];
            &&& b.var.0 < self.vars@.len()
            &&& resolve(self.tys, b.ty) is Some
            &&& size_of(self.tys, resolve(self.tys, b.ty)->0) <= self.vars@[b.var.0 as int]
        } by {
            if k < self.binds@.len() - 1 {
                assert(old(self).binds@[k] == self.binds@[k]);
            } else {
                assert(self.vars@[v.0 as int] == size_of(self.tys, t) as usize);
                assert(size_of(self.tys, t) <= usize::MAX);
            }
        }
        v
    }

    /// The most recent binding of `name`.
    pub fn expect_var(&self, name: IdentId) -> (r: Option<Binding>)
        ensures
            r == lookup(self.binds@, name),
    {
        let mut i: usize = self.binds.len();
        assert(self.binds@.subrange(0, i as int) =~= self.binds@);
        while i > 0
            invariant
                i <= self.binds@.len(),
                lookup(self.binds@, name) == lookup(self.binds@.subrange(0, i as int), name),
            decreases i,
        {
            let ghost pre = self.binds@.subrange(0, i as int);
            assert(pre.drop_last() =~= self.binds@.subrange(0, i - 1));
            let b = self.binds[i - 1];
            if b.name == name {
                return Some(b);
            }
            i -= 1;
        }
        None
    }

    pub fn call(&mut self, sig: Sig)
        requires
            old(self).wf(),
        ensures
            final(self).wf(),
            extends(*old(self), *final(self)),
            final(self)@ == emit(old(self)@, Air::Call(sig)),
    {
        self.ins(Air::Call(sig));
    }

    pub fn ret_iconst(&mut self, v: i64)
        requires
            old(self).wf(),
        ensures
            final(self).wf(),
            extends(*old(self), *final(self)),
            final(self)@ == ret_iconst(old(self)@, v),
    {
        self.ins(Air::MovIConst(Reg::A, v));
        self.ins(Air::Ret);
    }

    pub fn ret_ivar(&mut self, o: OffsetVar, k: IntKind)
        requires
            old(self).wf(),
            o.var.0 < old(self).vars@.len(),
        ensures
            final(self).wf(),
            extends(*old(self), *final(self)),
            final(self)@ == ret_ivar(old(self)@, o, k),
    {
        self.ins(Air::MovIVar(Reg::A, o, k));
        self.ins(Air::Ret);
    }

    pub fn ret_ptr(&mut self, o: OffsetVar)
        requires
            old(self).wf(),
            o.var.0 < old(self).vars@.len(),
        ensures
            final(self).wf(),
            extends(*old(self), *final(self)),
            final(self)@ == ret_ptr(old(self)@, o),
    {
        self.ins(Air::Addr(Reg::A, o));
        self.ins(Air::Ret);
    }

    /// Hand out the finished instructions, leaving the context empty and
    /// ready for the next function.
    pub fn finish(&mut self) -> (r: Vec<Air>)
        requires
            old(self).wf(),
        ensures
            r@ == old(self).instrs@,
            final(self).wf(),
            final(self).tys == old(self).tys,
            final(self)@ == empty_state(),
    {
        let mut out: Vec<Air> = Vec::new();
        std::mem::swap(&mut self.instrs, &mut out);
        self.start();
        out
    }
}

/// Every scalar store appended between `old` and `new` into the variable of
/// `dst` lies within the `size` bytes that start at `dst`.
pub open spec fn stores_within(old: AirCtx, new: AirCtx, dst: OffsetVar, size: nat) -> bool {
    forall|j: int|
        old.instrs@.len() <= j < new.instrs@.len() && is_scalar_store(#[trigger] new.instrs@[j])
            && store_target(new.instrs@[j]).0.var == dst.var ==> {
            &&& dst.offset <= store_target(new.instrs@[j]).0.offset
            &&& store_target(new.instrs@[j]).0.offset + store_target(new.instrs@[j]).1.spec_bytes()
                <= dst.offset + size
        }
}

/// In a well-formed context every used variable was reserved earlier.
pub proof fn lemma_alloc_precedes_use(c: AirCtx)
    requires
        c.wf(),
    ensures
        alloc_precedes_use(c.instrs@),
{
    assert forall|i: int, v: Var|
        0 <= i < c.instrs@.len() && #[trigger] uses(c.instrs@[i], v) implies exists|j: int|
        0 <= j < i && #[trigger] is_alloc_of(c.instrs@[j], v) by {
        let j = c.alloc_at@[v.0 as int];
        assert(is_alloc_of(c.instrs@[j], v));
    }
}

/// In a well-formed context each variable is reserved once.
pub proof fn lemma_allocs_distinct(c: AirCtx)
    requires
        c.wf(),
    ensures
        allocs_distinct(c.instrs@),
{
}

} // verus!
