//! Resolved type shapes: integers of a given sign and width, structs and unit.
use vstd::prelude::*;

use crate::air::IntKind;

verus! {

/// Handle to a resolved type, handed out by type inference.
#[derive(Debug, Clone, Copy, PartialEq, Eq, Hash, Structural)]
pub struct TyId(pub usize);

/// Identity of a struct; indexes its field map in the type store.
#[derive(Debug, Clone, Copy, PartialEq, Eq, Hash, Structural)]
pub struct StructId(pub usize);

#[derive(Debug, Clone, Copy, PartialEq, Eq, Hash, Structural)]
pub enum Sign {
    I,
    U,
}

#[derive(Debug, Clone, Copy, PartialEq, Eq, Hash, Structural)]
pub enum IWidth {
    W8,
    W16,
    W32,
    W64,
}

impl IWidth {
    pub open spec fn spec_bytes(self) -> nat {
        match self {
            IWidth::W8 => 1,
            IWidth::W16 => 2,
            IWidth::W32 => 4,
            IWidth::W64 => 8,
        }
    }

    pub fn bytes(&self) -> (r: usize)
        ensures
            r == self.spec_bytes(),
    {
        match self {
            IWidth::W8 => 1,
            IWidth::W16 => 2,
            IWidth::W32 => 4,
            IWidth::W64 => 8,
        }
    }
}

/// Size and alignment of a value, in bytes.
#[derive(Debug, Clone, Copy, PartialEq, Eq, Structural)]
pub struct Layout {
    pub size: usize,
    pub alignment: usize,
}

impl Layout {
    pub fn splat(n: usize) -> (r: Layout)
        ensures
            r.size == n,
            r.alignment == n,
    {
        Layout { size: n, alignment: n }
    }
}

#[derive(Debug, Clone, Copy, PartialEq, Eq, Hash, Structural)]
pub struct IntTy {
    pub sign: Sign,
    pub width: IWidth,
}

/// The machine integer kind of an integer type.
pub open spec fn kind_of(t: IntTy) -> IntKind {
    match (t.sign, t.width) {
        (Sign::I, IWidth::W8) => IntKind::I8,
        (Sign::I, IWidth::W16) => IntKind::I16,
        (Sign::I, IWidth::W32) => IntKind::I32,
        (Sign::I, IWidth::W64) => IntKind::I64,
        (Sign::U, IWidth::W8) => IntKind::U8,
        (Sign::U, IWidth::W16) => IntKind::U16,
        (Sign::U, IWidth::W32) => IntKind::U32,
        (Sign::U, IWidth::W64) => IntKind::U64,
    }
}

impl IntTy {
    pub fn new(sign: Sign, width: IWidth) -> (r: IntTy)
        ensures
            r.sign == sign,
            r.width == width,
    {
        IntTy { sign, width }
    }

    pub fn new_8(sign: Sign) -> (r: IntTy)
        ensures
            r == (IntTy { sign, width: IWidth::W8 }),
    {
        IntTy::new(sign, IWidth::W8)
    }

    pub fn new_16(sign: Sign) -> (r: IntTy)
        ensures
            r == (IntTy { sign, width: IWidth::W16 }),
    {
        IntTy::new(sign, IWidth::W16)
    }

    pub fn new_32(sign: Sign) -> (r: IntTy)
        ensures
            r == (IntTy { sign, width: IWidth::W32 }),
    {
        IntTy::new(sign, IWidth::W32)
    }

    pub fn new_64(sign: Sign) -> (r: IntTy)
        ensures
            r == (IntTy { sign, width: IWidth::W64 }),
    {
        IntTy::new(sign, IWidth::W64)
    }

    pub fn size(&self) -> (r: usize)
        ensures
            r == self.width.spec_bytes(),
    {
        self.width.bytes()
    }

    pub fn layout(&self) -> (r: Layout)
        ensures
            r.size == self.width.spec_bytes(),
            r.alignment == self.width.spec_bytes(),
    {
        Layout::splat(self.size())
    }

    pub fn kind(&self) -> (r: IntKind)
        ensures
            r == kind_of(*self),
    {
        match self.sign {
            Sign::I => match self.width {
                IWidth::W8 => IntKind::I8,
                IWidth::W16 => IntKind::I16,
                IWidth::W32 => IntKind::I32,
                IWidth::W64 => IntKind::I64,
            },
            Sign::U => match self.width {
                IWidth::W8 => IntKind::U8,
                IWidth::W16 => IntKind::U16,
                IWidth::W32 => IntKind::U32,
                IWidth::W64 => IntKind::U64,
            },
        }
    }

    /// The source spelling of the type, such as `i32`.
    pub fn as_str(&self) -> (r: &'static str)
        ensures
            r@ == kind_of(*self).spec_name(),
    {
        self.kind().as_str()
    }
}

#[derive(Debug, Clone, Copy, PartialEq, Eq, Hash, Structural)]
pub enum Ty {
    Int(IntTy),
    Struct(StructId),
    Unit,
}

impl Ty {
    pub fn is_int(&self) -> (r: bool)
        ensures
            r == (*self is Int),
    {
        matches!(self, Ty::Int(_))
    }

    pub fn expect_int(&self) -> (r: IntTy)
        requires
            *self is Int,
        ensures
            *self == Ty::Int(r),
    {
        match self {
            Ty::Int(t) => *t,
            _ => unreached(),
        }
    }

    pub fn expect_struct(&self) -> (r: StructId)
        requires
            *self is Struct,
        ensures
            *self == Ty::Struct(r),
    {
        match self {
            Ty::Struct(s) => *s,
            _ => unreached(),
        }
    }
}

} // verus!
