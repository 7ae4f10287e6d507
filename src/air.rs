//! The instruction set produced by lowering.
use vstd::prelude::*;

use crate::ast::Sig;

verus! {

/// A value allocated on the stack frame, created by [`Air::SAlloc`]. The
/// number is the slot's index in the function's arena.
#[derive(Debug, Clone, Copy, PartialEq, Eq, Hash, Structural)]
pub struct Var(pub usize);

/// The two scratch registers. `A` receives call results and binary results.
#[derive(Debug, Clone, Copy, PartialEq, Eq, Structural)]
pub enum Reg {
    A,
    B,
}

/// The register in which a callee leaves its result.
pub const RET_REG: Reg = Reg::A;

/// A location `offset` bytes into `var`.
#[derive(Debug, Clone, Copy, PartialEq, Eq, Structural)]
pub struct OffsetVar {
    pub var: Var,
    pub offset: usize,
}

impl OffsetVar {
    pub fn new(var: Var, offset: usize) -> (r: OffsetVar)
        ensures
            r.var == var,
            r.offset == offset,
    {
        OffsetVar { var, offset }
    }

    pub fn zero(var: Var) -> (r: OffsetVar)
        ensures
            r.var == var,
            r.offset == 0,
    {
        OffsetVar { var, offset: 0 }
    }
}

#[derive(Debug, Clone, Copy, PartialEq, Eq, Hash, Structural)]
pub enum IntKind {
    I8,
    I16,
    I32,
    I64,
    U8,
    U16,
    U32,
    U64,
}

impl IntKind {
    pub open spec fn spec_name(self) -> Seq<char> {
        match self {
            IntKind::I8 => "i8"@,
            IntKind::I16 => "i16"@,
            IntKind::I32 => "i32"@,
            IntKind::I64 => "i64"@,
            IntKind::U8 => "u8"@,
            IntKind::U16 => "u16"@,
            IntKind::U32 => "u32"@,
            IntKind::U64 => "u64"@,
        }
    }

    pub open spec fn spec_bytes(self) -> nat {
        match self {
            IntKind::I8 | IntKind::U8 => 1,
            IntKind::I16 | IntKind::U16 => 2,
            IntKind::I32 | IntKind::U32 => 4,
            IntKind::I64 | IntKind::U64 => 8,
        }
    }

    pub fn size(&self) -> (r: usize)
        ensures
            r == self.spec_bytes(),
    {
        match self {
            IntKind::I8 | IntKind::U8 => 1,
            IntKind::I16 | IntKind::U16 => 2,
            IntKind::I32 | IntKind::U32 => 4,
            IntKind::I64 | IntKind::U64 => 8,
        }
    }

    pub fn as_str(&self) -> (r: &'static str)
        ensures
            r@ == self.spec_name(),
    {
        match self {
            IntKind::I8 => "i8",
            IntKind::I16 => "i16",
            IntKind::I32 => "i32",
            IntKind::I64 => "i64",
            IntKind::U8 => "u8",
            IntKind::U16 => "u16",
            IntKind::U32 => "u32",
            IntKind::U64 => "u64",
        }
    }
}

/// One instruction of the abstract machine.
#[derive(Debug, Clone, Copy, PartialEq, Eq, Structural)]
pub enum Air {
    /// Return to the caller.
    Ret,
    /// Invoke a function; its result is left in [`RET_REG`].
    Call(Sig),
    /// Exchange the A and B registers.
    SwapReg,
    /// Load an integer of the given kind from a location into a register.
    MovIVar(Reg, OffsetVar, IntKind),
    /// Load an immediate into a register.
    MovIConst(Reg, i64),
    /// Reserve frame storage of the given size for a variable.
    SAlloc(Var, usize),
    /// Load the address of a location into a register.
    Addr(Reg, OffsetVar),
    /// Copy `bytes` from the address in `src` to the address in `dst`; the
    /// two ranges never overlap.
    MemCpy { dst: Reg, src: Reg, bytes: usize },
    /// Store an immediate of the given kind.
    PushIConst(OffsetVar, IntKind, i64),
    /// Store the integer held in a register.
    PushIReg { dst: OffsetVar, kind: IntKind, src: Reg },
    /// Copy an integer between two locations.
    PushIVar { dst: OffsetVar, kind: IntKind, src: OffsetVar },
    /// A + B into A.
    AddAB,
    /// A * B into A.
    MulAB,
    /// A - B into A.
    SubAB,
}

/// The finished instruction sequence of one function.
#[derive(Debug, Clone, PartialEq, Eq)]
pub struct AirFunc {
    pub sig: Sig,
    pub instrs: Vec<Air>,
}

/// Whether an instruction reads or writes the storage of `v`. A reservation
/// is not a use.
pub open spec fn uses(a: Air, v: Var) -> bool {
    match a {
        Air::MovIVar(_, o, _) => o.var == v,
        Air::Addr(_, o) => o.var == v,
        Air::PushIConst(o, _, _) => o.var == v,
        Air::PushIReg { dst, .. } => dst.var == v,
        Air::PushIVar { dst, src, .. } => dst.var == v || src.var == v,
        _ => false,
    }
}

/// Whether an instruction stores a scalar into a location.
pub open spec fn is_scalar_store(a: Air) -> bool {
    a is PushIConst || a is PushIReg || a is PushIVar
}

/// The location and kind that a scalar store writes.
pub open spec fn store_target(a: Air) -> (OffsetVar, IntKind) {
    match a {
        Air::PushIConst(o, k, _) => (o, k),
        Air::PushIReg { dst, kind, .. } => (dst, kind),
        Air::PushIVar { dst, kind, .. } => (dst, kind),
        _ => arbitrary(),
    }
}

/// Every variable that an instruction uses was reserved by an earlier one.
pub open spec fn alloc_precedes_use(s: Seq<Air>) -> bool {
    forall|i: int, v: Var|
        0 <= i < s.len() && #[trigger] uses(s[i], v) ==> exists|j: int|
            0 <= j < i && #[trigger] is_alloc_of(s[j], v)
}

/// Whether an instruction reserves storage for `v`.
pub open spec fn is_alloc_of(a: Air, v: Var) -> bool {
    a is SAlloc && a->SAlloc_0 == v
}

/// No instruction of `s` is a return.
pub open spec fn no_ret(s: Seq<Air>) -> bool {
    forall|i: int| 0 <= i < s.len() ==> s[i] != Air::Ret
}

/// `s` ends in a return, and that is its only return.
pub open spec fn ends_in_single_ret(s: Seq<Air>) -> bool {
    &&& s.len() > 0
    &&& s.last() == Air::Ret
    &&& no_ret(s.drop_last())
}

/// The instructions `new` end in the one store into `dst`, of kind `k`, and
/// copy no bytes.
pub open spec fn scalar_store_into(new: Seq<Air>, dst: OffsetVar, k: IntKind) -> bool {
    &&& new.len() > 0
    &&& is_scalar_store(new.last())
    &&& store_target(new.last()) == (dst, k)
    &&& forall|j: int| 0 <= j < new.len() ==> !(#[trigger] new[j] is MemCpy)
    &&& forall|j: int|
        0 <= j < new.len() - 1 && is_scalar_store(#[trigger] new[j]) ==> store_target(new[j]).0.var
            != dst.var
}

/// The instructions `new` store no scalar and end in a copy of `bytes`
/// bytes from the address in A to the address in B.
pub open spec fn aggregate_copy_into(new: Seq<Air>, bytes: usize) -> bool {
    &&& new.len() > 0
    &&& new.last() == Air::MemCpy { dst: Reg::B, src: Reg::A, bytes }
    &&& forall|j: int| 0 <= j < new.len() ==> !is_scalar_store(#[trigger] new[j])
}

/// No two reservations in `s` are for the same variable.
pub open spec fn allocs_distinct(s: Seq<Air>) -> bool {
    forall|i: int, j: int|
        0 <= i < s.len() && 0 <= j < s.len() && i != j && (#[trigger] s[i]) is SAlloc && (
        #[trigger] s[j]) is SAlloc ==> s[i]->SAlloc_0 != s[j]->SAlloc_0
}

/// Appending instructions that end in their only return to instructions
/// with no return gives instructions that end in their only return.
pub proof fn lemma_single_ret_after(before: Seq<Air>, after: Seq<Air>)
    requires
        no_ret(before),
        before.len() <= after.len(),
        forall|i: int| 0 <= i < before.len() ==> after[i] == before[i],
        ends_in_single_ret(after.subrange(before.len() as int, after.len() as int)),
    ensures
        ends_in_single_ret(after),
{
    let n = before.len() as int;
    let tail = after.subrange(n, after.len() as int);
    assert(after.last() == tail.last());
    assert forall|i: int| 0 <= i < after.drop_last().len() implies after.drop_last()[i]
        != Air::Ret by {
        if i >= n {
            assert(after.drop_last()[i] == tail.drop_last()[i - n]);
        } else {
            assert(after.drop_last()[i] == before[i]);
        }
    }
}

} // verus!
