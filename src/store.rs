//! Read-only type and layout facts.
use vstd::prelude::*;

use crate::ast::IdentId;
use crate::strukt::{lemma_slot_of_entry, slot_of, FieldMap, Struct};
use crate::ty::{StructId, Ty, TyId};

verus! {

/// What type inference resolved: the shape behind each type handle, and the
/// declaration and layout of each struct, indexed by [`StructId`].
#[derive(Debug, Clone)]
pub struct TyStore {
    pub tys: Vec<Ty>,
    pub structs: Vec<Struct>,
    pub layouts: Vec<FieldMap>,
}

/// The shape behind a type handle.
pub open spec fn resolve(tys: TyStore, id: TyId) -> Option<Ty> {
    if id.0 < tys.tys@.len() {
        Some(tys.tys@[id.0 as int])
    } else {
        None
    }
}

/// The size in bytes of a value of a type.
pub open spec fn size_of(tys: TyStore, t: Ty) -> nat {
    match t {
        Ty::Int(i) => i.width.spec_bytes(),
        Ty::Struct(s) => if s.0 < tys.layouts@.len() {
            tys.layouts@[s.0 as int].size as nat
        } else {
            0
        },
        Ty::Unit => 0,
    }
}

impl TyStore {
    /// Every struct named by a type has a layout.
    pub open spec fn structs_known(self) -> bool {
        forall|i: int|
            0 <= i < self.tys@.len() && (#[trigger] self.tys@[i]) is Struct
                ==> self.tys@[i]->Struct_0.0 < self.layouts@.len()
    }

    /// Every field of a layout has a known type and lies within its struct.
    pub open spec fn fields_fit(self) -> bool {
        forall|s: int, j: int|
            0 <= s < self.layouts@.len() && 0 <= j < self.layouts@[s].fields@.len() ==> {
                let e = #[trigger] self.layouts@[s].fields@[j];
                &&& e.1.0 < self.tys@.len()
                &&& e.2 + size_of(self, self.tys@[e.1.0 as int]) <= self.layouts@[s].size
            }
    }

    /// The fields of layout `s` have distinct names and byte ranges that do
    /// not overlap.
    pub open spec fn fields_apart(self, s: int) -> bool {
        forall|j: int, k: int|
            #![trigger self.layouts@[s].fields@[j], self.layouts@[s].fields@[k]]
            0 <= j < k < self.layouts@[s].fields@.len() ==> entries_apart(
                self,
                self.layouts@[s].fields@[j],
                self.layouts@[s].fields@[k],
            )
    }

    pub open spec fn wf(self) -> bool {
        &&& self.structs_known()
        &&& self.fields_fit()
        &&& forall|s: int| 0 <= s < self.layouts@.len() ==> #[trigger] self.fields_apart(s)
    }

    /// The size of a value of the type behind `t`.
    fn entry_size(&self, t: TyId) -> (r: usize)
        requires
            t.0 < self.tys@.len(),
            self.structs_known(),
        ensures
            r == size_of(*self, self.tys@[t.0 as int]),
    {
        match self.tys[t.0] {
            Ty::Int(it) => it.size(),
            Ty::Struct(sid) => {
                assert(self.tys@[t.0 as int] is Struct);
                self.layouts[sid.0].size
            },
            Ty::Unit => 0,
        }
    }

    fn check_fields_apart(&self, s: usize) -> (r: bool)
        requires
            s < self.layouts@.len(),
            self.structs_known(),
            self.fields_fit(),
        ensures
            r == self.fields_apart(s as int),
    {
        let map = &self.layouts[s];
        let n = map.fields.len();
        let mut j: usize = 0;
        while j < n
            invariant
                s < self.layouts@.len(),
                self.structs_known(),
                self.fields_fit(),
                *map == self.layouts@[s as int],
                n == map.fields@.len(),
                j <= n,
                forall|a: int, b: int|
                    #![trigger map.fields@[a], map.fields@[b]]
                    0 <= a < b < n && a < j ==> entries_apart(*self, map.fields@[a], map.fields@[b]),
            decreases n - j,
        {
            let mut k: usize = j + 1;
            while k < n
                invariant
                    s < self.layouts@.len(),
                    self.structs_known(),
                    self.fields_fit(),
                    *map == self.layouts@[s as int],
                    n == map.fields@.len(),
                    j < n,
                    j + 1 <= k <= n,
                    forall|a: int, b: int|
                        #![trigger map.fields@[a], map.fields@[b]]
                        0 <= a < b < n && a < j ==> entries_apart(
                            *self,
                            map.fields@[a],
                            map.fields@[b],
                        ),
                    forall|b: int|
                        j < b < k ==> entries_apart(*self, map.fields@[j as int], #[trigger] map.fields@[b]),
                decreases n - k,
            {
                let ea = map.fields[j];
                let eb = map.fields[k];
                assert(ea == self.layouts@[s as int].fields@[j as int]);
                assert(eb == self.layouts@[s as int].fields@[k as int]);
                if ea.0 == eb.0 {
                    assert(!entries_apart(*self, map.fields@[j as int], map.fields@[k as int]));
                    return false;
                }
                let end_a = ea.2 + self.entry_size(ea.1);
                let end_b = eb.2 + self.entry_size(eb.1);
                if !(end_a <= eb.2 || end_b <= ea.2) {
                    assert(!entries_apart(*self, map.fields@[j as int], map.fields@[k as int]));
                    return false;
                }
                k += 1;
            }
            j += 1;
        }
        true
    }

    /// Check the facts that lowering relies on.
    pub fn is_wf(&self) -> (r: bool)
        ensures
            r == self.wf(),
    {
        let mut i: usize = 0;
        while i < self.tys.len()
            invariant
                i <= self.tys@.len(),
                forall|k: int|
                    0 <= k < i && (#[trigger] self.tys@[k]) is Struct ==> self.tys@[k]->Struct_0.0
                        < self.layouts@.len(),
            decreases self.tys.len() - i,
        {
            if let Ty::Struct(sid) = self.tys[i] {
                if sid.0 >= self.layouts.len() {
                    return false;
                }
            }
            i += 1;
        }
        let mut s: usize = 0;
        while s < self.layouts.len()
            invariant
                s <= self.layouts@.len(),
                forall|k: int|
                    0 <= k < self.tys@.len() && (#[trigger] self.tys@[k]) is Struct
                        ==> self.tys@[k]->Struct_0.0 < self.layouts@.len(),
                forall|t: int, j: int|
                    0 <= t < s && 0 <= j < self.layouts@[t].fields@.len() ==> {
                        let e = #[trigger] self.layouts@[t].fields@[j];
                        &&& e.1.0 < self.tys@.len()
                        &&& e.2 + size_of(*self, self.tys@[e.1.0 as int]) <= self.layouts@[t].size
                    },
            decreases self.layouts.len() - s,
        {
            let map = &self.layouts[s];
            let mut j: usize = 0;
            while j < map.fields.len()
                invariant
                    s < self.layouts@.len(),
                    *map == self.layouts@[s as int],
                    j <= map.fields@.len(),
                    forall|k: int|
                        0 <= k < self.tys@.len() && (#[trigger] self.tys@[k]) is Struct
                            ==> self.tys@[k]->Struct_0.0 < self.layouts@.len(),
                    forall|t: int, jj: int|
                        0 <= t < self.layouts@.len() && 0 <= jj < self.layouts@[t].fields@.len() && (
                        t < s || (t == s && jj < j)) ==> {
                            let e = #[trigger] self.layouts@[t].fields@[jj];
                            &&& e.1.0 < self.tys@.len()
                            &&& e.2 + size_of(*self, self.tys@[e.1.0 as int])
                                <= self.layouts@[t].size
                        },
                decreases map.fields.len() - j,
            {
                let (_, ft, off) = map.fields[j];
                if ft.0 >= self.tys.len() {
                    assert(self.layouts@[s as int].fields@[j as int].1 == ft);
                    return false;
                }
                let t = self.tys[ft.0];
                let size = match t {
                    Ty::Int(it) => it.size(),
                    Ty::Struct(sid) => {
                        assert(self.tys@[ft.0 as int] is Struct);
                        self.layouts[sid.0].size
                    },
                    Ty::Unit => 0,
                };
                if off > map.size || size > map.size - off {
                    assert(self.layouts@[s as int].fields@[j as int] == (
                        map.fields@[j as int].0,
                        ft,
                        off,
                    ));
                    return false;
                }
                j += 1;
            }
            s += 1;
        }
        let mut t: usize = 0;
        while t < self.layouts.len()
            invariant
                t <= self.layouts@.len(),
                self.structs_known(),
                self.fields_fit(),
                forall|u: int| 0 <= u < t ==> #[trigger] self.fields_apart(u),
            decreases self.layouts.len() - t,
        {
            if !self.check_fields_apart(t) {
                return false;
            }
            t += 1;
        }
        true
    }

    /// The shape behind `id`, if it is a known handle.
    pub fn ty(&self, id: TyId) -> (r: Option<Ty>)
        ensures
            r == resolve(*self, id),
    {
        if id.0 < self.tys.len() {
            Some(self.tys[id.0])
        } else {
            None
        }
    }

    pub fn size(&self, t: Ty) -> (r: usize)
        requires
            self.wf(),
            t is Struct ==> t->Struct_0.0 < self.layouts@.len(),
        ensures
            r == size_of(*self, t),
    {
        match t {
            Ty::Int(i) => i.size(),
            Ty::Struct(s) => self.layouts[s.0].size,
            Ty::Unit => 0,
        }
    }

    pub fn fields(&self, id: StructId) -> (r: &FieldMap)
        requires
            id.0 < self.layouts@.len(),
        ensures
            *r == self.layouts@[id.0 as int],
    {
        &self.layouts[id.0]
    }

    pub fn strukt(&self, id: StructId) -> (r: &Struct)
        requires
            id.0 < self.structs@.len(),
        ensures
            *r == self.structs@[id.0 as int],
    {
        &self.structs[id.0]
    }
}

/// The end of the byte range of a layout entry.
pub open spec fn entry_end(tys: TyStore, e: (IdentId, TyId, usize)) -> int {
    e.2 + size_of(tys, tys.tys@[e.1.0 as int])
}

/// Two layout entries have different names and byte ranges that do not
/// overlap.
pub open spec fn entries_apart(tys: TyStore, a: (IdentId, TyId, usize), b: (IdentId, TyId, usize)) -> bool {
    &&& a.0 != b.0
    &&& entry_end(tys, a) <= b.2 || entry_end(tys, b) <= a.2
}

/// The byte range of field `f` of struct `s`.
pub open spec fn field_range(tys: TyStore, s: StructId, f: IdentId) -> (int, int) {
    let slot = slot_of(tys.layouts@[s.0 as int].fields@, f).unwrap();
    (slot.1 as int, slot.1 + size_of(tys, tys.tys@[slot.0.0 as int]))
}

/// Fields `f1` and `f2` of struct `s` lie within it and do not overlap.
pub open spec fn field_ranges_apart(tys: TyStore, s: StructId, f1: IdentId, f2: IdentId) -> bool {
    &&& field_range(tys, s, f1).1 <= tys.layouts@[s.0 as int].size
    &&& field_range(tys, s, f2).1 <= tys.layouts@[s.0 as int].size
    &&& field_range(tys, s, f1).1 <= field_range(tys, s, f2).0 || field_range(tys, s, f2).1
        <= field_range(tys, s, f1).0
}

/// Two differently named fields of a struct occupy byte ranges that lie
/// within the struct and do not overlap.
pub proof fn lemma_field_ranges_disjoint(tys: TyStore, s: StructId, f1: IdentId, f2: IdentId)
    requires
        tys.wf(),
        s.0 < tys.layouts@.len(),
        slot_of(tys.layouts@[s.0 as int].fields@, f1) is Some,
        slot_of(tys.layouts@[s.0 as int].fields@, f2) is Some,
        f1 != f2,
    ensures
        field_ranges_apart(tys, s, f1, f2),
{
    let fs = tys.layouts@[s.0 as int].fields@;
    lemma_slot_of_entry(fs, f1);
    lemma_slot_of_entry(fs, f2);
    let s1 = slot_of(fs, f1).unwrap();
    let s2 = slot_of(fs, f2).unwrap();
    let j1 = choose|j: int| 0 <= j < fs.len() && #[trigger] fs[j] == (f1, s1.0, s1.1);
    let j2 = choose|j: int| 0 <= j < fs.len() && #[trigger] fs[j] == (f2, s2.0, s2.1);
    assert(tys.fields_apart(s.0 as int));
    if j1 < j2 {
        assert(entries_apart(tys, fs[j1], fs[j2]));
    } else {
        assert(entries_apart(tys, fs[j2], fs[j1]));
    }
}

} // verus!
