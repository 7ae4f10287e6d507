//! Struct declarations, struct literals and field layouts.
use vstd::prelude::*;

use crate::ast::{Expr, IdentId};
use crate::ty::{StructId, TyId};

verus! {

#[derive(Debug, Clone, Copy, PartialEq, Eq, Structural)]
pub struct Field {
    pub name: IdentId,
    pub ty: TyId,
}

/// A struct declaration.
#[derive(Debug, Clone)]
pub struct Struct {
    pub name: IdentId,
    pub fields: Vec<Field>,
}

/// The type of the first field of `fields` named `name`.
pub open spec fn field_ty_of(fields: Seq<Field>, name: IdentId) -> Option<TyId>
    decreases fields.len(),
{
    if fields.len() == 0 {
        None
    } else if fields[0].name == name {
        Some(fields[0].ty)
    } else {
        field_ty_of(fields.drop_first(), name)
    }
}

impl Struct {
    pub fn get_field_ty(&self, field: IdentId) -> (r: Option<TyId>)
        ensures
            r == field_ty_of(self.fields@, field),
    {
        let mut i: usize = 0;
        assert(self.fields@.subrange(0, self.fields@.len() as int) =~= self.fields@);
        while i < self.fields.len()
            invariant
                i <= self.fields@.len(),
                field_ty_of(self.fields@, field) == field_ty_of(
                    self.fields@.subrange(i as int, self.fields@.len() as int),
                    field,
                ),
            decreases self.fields.len() - i,
        {
            let ghost rest = self.fields@.subrange(i as int, self.fields@.len() as int);
            assert(rest.drop_first() =~= self.fields@.subrange(i + 1, self.fields@.len() as int));
            if self.fields[i].name == field {
                return Some(self.fields[i].ty);
            }
            i += 1;
        }
        None
    }

    pub fn field_ty(&self, field: IdentId) -> (r: TyId)
        requires
            field_ty_of(self.fields@, field) is Some,
        ensures
            field_ty_of(self.fields@, field) == Some(r),
    {
        match self.get_field_ty(field) {
            Some(t) => t,
            None => unreached(),
        }
    }

    pub fn field_offset(&self, map: &FieldMap, field: IdentId) -> (r: usize)
        requires
            slot_of(map.fields@, field) is Some,
        ensures
            slot_of(map.fields@, field) == Some((slot_of(map.fields@, field).unwrap().0, r)),
    {
        match map.get(field) {
            Some(slot) => slot.1,
            None => unreached(),
        }
    }
}

/// One field of a struct literal.
#[derive(Debug)]
pub struct FieldDef {
    pub name: IdentId,
    pub expr: Expr,
}

/// A struct literal.
#[derive(Debug)]
pub struct StructDef {
    pub id: StructId,
    pub fields: Vec<FieldDef>,
}

/// The layout of a struct: each field's type and byte offset, and the total
/// size.
#[derive(Debug, Clone)]
pub struct FieldMap {
    pub fields: Vec<(IdentId, TyId, usize)>,
    pub size: usize,
}

/// The type and offset of the first entry of `fields` named `name`.
pub open spec fn slot_of(fields: Seq<(IdentId, TyId, usize)>, name: IdentId) -> Option<(TyId, usize)>
    decreases fields.len(),
{
    if fields.len() == 0 {
        None
    } else if fields[0].0 == name {
        Some((fields[0].1, fields[0].2))
    } else {
        slot_of(fields.drop_first(), name)
    }
}

/// A slot found by name is one of the entries.
pub proof fn lemma_slot_of_entry(fields: Seq<(IdentId, TyId, usize)>, name: IdentId)
    requires
        slot_of(fields, name) is Some,
    ensures
        exists|j: int|
            0 <= j < fields.len() && #[trigger] fields[j] == (
            name,
            slot_of(fields, name).unwrap().0,
            slot_of(fields, name).unwrap().1,
        ),
    decreases fields.len(),
{
    if fields[0].0 != name {
        lemma_slot_of_entry(fields.drop_first(), name);
        let j = choose|j: int|
            0 <= j < fields.drop_first().len() && #[trigger] fields.drop_first()[j] == (
            name,
            slot_of(fields, name).unwrap().0,
            slot_of(fields, name).unwrap().1,
        );
        assert(fields[j + 1] == fields.drop_first()[j]);
    } else {
        assert(fields[0] == (name, fields[0].1, fields[0].2));
    }
}

impl FieldMap {
    pub fn get(&self, field: IdentId) -> (r: Option<(TyId, usize)>)
        ensures
            r == slot_of(self.fields@, field),
    {
        let mut i: usize = 0;
        assert(self.fields@.subrange(0, self.fields@.len() as int) =~= self.fields@);
        while i < self.fields.len()
            invariant
                i <= self.fields@.len(),
                slot_of(self.fields@, field) == slot_of(
                    self.fields@.subrange(i as int, self.fields@.len() as int),
                    field,
                ),
            decreases self.fields.len() - i,
        {
            let ghost rest = self.fields@.subrange(i as int, self.fields@.len() as int);
            assert(rest.drop_first() =~= self.fields@.subrange(i + 1, self.fields@.len() as int));
            let entry = self.fields[i];
            if entry.0 == field {
                return Some((entry.1, entry.2));
            }
            i += 1;
        }
        None
    }
}

} // verus!
