//! Lowering of statements and expressions into [`Air`] instructions.
//!
//! Each step is stated as a spec function from the context's abstract state
//! to the state after it, or the error it stops with; the executable
//! functions are proved to follow them exactly.
use vstd::prelude::*;

use crate::air::{
    aggregate_copy_into, alloc_precedes_use, allocs_distinct, ends_in_single_ret,
    lemma_single_ret_after, is_scalar_store, no_ret,
    scalar_store_into, store_target, Air, AirFunc, IntKind, OffsetVar, Reg, RET_REG,
};
use crate::ast::{Assign, AssignKind, BinOp, BinOpKind, Expr, Func, IdentId, Let, Stmt};
use crate::ctx::{
    alloc_var, appended, appends_no_ret, bind, emit, empty_state, extends, fresh_writes,
    lemma_alloc_precedes_use, lemma_allocs_distinct, lookup, next_var, ret_iconst, ret_ivar, ret_ptr, stores_within,
    AirCtx, Binding, LowerError, LowerState,
};
use crate::store::{
    field_ranges_apart, lemma_field_ranges_disjoint, resolve, size_of, TyStore,
};
use crate::strukt::{lemma_slot_of_entry, slot_of, FieldDef, StructDef};
use crate::ty::{kind_of, StructId, Ty, TyId};

verus! {

/// `r` reports what `expected` says: success with the context in state
/// `now`, or the same error.
pub open spec fn follows(
    r: Result<(), LowerError>,
    expected: Result<LowerState, LowerError>,
    now: LowerState,
) -> bool {
    match expected {
        Ok(st) => r is Ok && now == st,
        Err(e) => r == Err::<(), LowerError>(e),
    }
}

/// The integer kind of a type handle, if it names an integer type.
pub open spec fn int_kind_of(tys: TyStore, t: TyId) -> Option<IntKind> {
    match resolve(tys, t) {
        Some(Ty::Int(it)) => Some(kind_of(it)),
        _ => None,
    }
}

/// The location and type named by an identifier or a chain of field
/// projections, with offsets accumulated through the nested layouts.
pub open spec fn place_of(tys: TyStore, binds: Seq<Binding>, e: Expr) -> Result<
    (OffsetVar, TyId),
    LowerError,
>
    decreases e,
{
    match e {
        Expr::Ident(id) => match lookup(binds, id) {
            Some(b) => Ok((OffsetVar { var: b.var, offset: 0 }, b.ty)),
            None => Err(LowerError::Unbound(id)),
        },
        Expr::Bin(b) => if b.kind == BinOpKind::Field {
            match place_of(tys, binds, b.lhs) {
                Ok((o, t)) => match resolve(tys, t) {
                    Some(Ty::Struct(s)) => match b.rhs {
                        Expr::Ident(f) => match slot_of(tys.layouts@[s.0 as int].fields@, f) {
                            Some((ft, off)) => Ok(
                                (OffsetVar { var: o.var, offset: (o.offset + off) as usize }, ft),
                            ),
                            None => Err(LowerError::InvalidField(f)),
                        },
                        _ => Err(LowerError::TypeMismatch),
                    },
                    Some(_) => Err(LowerError::TypeMismatch),
                    None => Err(LowerError::UnknownType(t)),
                },
                Err(err) => Err(err),
            }
        } else {
            Err(LowerError::TypeMismatch)
        },
        _ => Err(LowerError::TypeMismatch),
    }
}

/// An operand that loads into a register without touching the other one.
pub open spec fn is_leaf(e: Expr) -> bool {
    match e {
        Expr::Lit(_) | Expr::Ident(_) => true,
        Expr::Bin(b) => b.kind == BinOpKind::Field,
        _ => false,
    }
}

/// The instruction that combines A and B for an arithmetic operator.
pub open spec fn op_instr(k: BinOpKind) -> Air {
    match k {
        BinOpKind::Sub => Air::SubAB,
        BinOpKind::Mul => Air::MulAB,
        _ => Air::AddAB,
    }
}

/// Load a leaf operand of kind `k` into `reg`.
pub open spec fn load_leaf(tys: TyStore, st: LowerState, reg: Reg, e: Expr, k: IntKind) -> Result<
    LowerState,
    LowerError,
> {
    match e {
        Expr::Lit(v) => Ok(emit(st, Air::MovIConst(reg, v))),
        Expr::Ident(_) | Expr::Bin(_) => match place_of(tys, st.binds, e) {
            Ok((o, t)) => if int_kind_of(tys, t) == Some(k) {
                Ok(emit(st, Air::MovIVar(reg, o, k)))
            } else {
                Err(LowerError::TypeMismatch)
            },
            Err(err) => Err(err),
        },
        Expr::Enum(_) => Err(LowerError::Unsupported),
        _ => Err(LowerError::TypeMismatch),
    }
}

/// Evaluate an integer expression of kind `k` into register A.
///
/// A leaf right operand loads straight into B. A compound right operand with
/// a leaf left one is evaluated first and swapped into B. When both are
/// compound, the left result is spilled into a fresh temporary, the right one
/// is evaluated and swapped into B, and the temporary is reloaded into A.
pub open spec fn eval_int(tys: TyStore, st: LowerState, e: Expr, k: IntKind) -> Result<
    LowerState,
    LowerError,
>
    decreases e,
{
    match e {
        Expr::Call(sig) => if int_kind_of(tys, sig.ty) == Some(k) {
            Ok(emit(st, Air::Call(sig)))
        } else {
            Err(LowerError::TypeMismatch)
        },
        Expr::Bin(b) => if b.kind == BinOpKind::Field {
            load_leaf(tys, st, Reg::A, e, k)
        } else if is_leaf(b.rhs) {
            match eval_int(tys, st, b.lhs, k) {
                Ok(s1) => match load_leaf(tys, s1, Reg::B, b.rhs, k) {
                    Ok(s2) => Ok(emit(s2, op_instr(b.kind))),
                    Err(err) => Err(err),
                },
                Err(err) => Err(err),
            }
        } else if is_leaf(b.lhs) {
            match eval_int(tys, st, b.rhs, k) {
                Ok(s1) => match load_leaf(tys, emit(s1, Air::SwapReg), Reg::A, b.lhs, k) {
                    Ok(s2) => Ok(emit(s2, op_instr(b.kind))),
                    Err(err) => Err(err),
                },
                Err(err) => Err(err),
            }
        } else {
            match eval_int(tys, st, b.lhs, k) {
                Ok(s1) => {
                    let tmp = OffsetVar { var: next_var(s1), offset: 0 };
                    let s2 = emit(
                        alloc_var(s1, k.spec_bytes() as usize),
                        Air::PushIReg { dst: tmp, kind: k, src: Reg::A },
                    );
                    match eval_int(tys, s2, b.rhs, k) {
                        Ok(s3) => Ok(
                            emit(
                                emit(emit(s3, Air::SwapReg), Air::MovIVar(Reg::A, tmp, k)),
                                op_instr(b.kind),
                            ),
                        ),
                        Err(err) => Err(err),
                    }
                },
                Err(err) => Err(err),
            }
        },
        _ => load_leaf(tys, st, Reg::A, e, k),
    }
}

/// The integer kind of a type handle, if it names an integer type.
fn int_kind(tys: &TyStore, t: TyId) -> (r: Option<IntKind>)
    ensures
        r == int_kind_of(*tys, t),
{
    match tys.ty(t) {
        Some(Ty::Int(it)) => Some(it.kind()),
        _ => None,
    }
}

fn is_leaf_expr(e: &Expr) -> (r: bool)
    ensures
        r == is_leaf(*e),
{
    match e {
        Expr::Lit(_) | Expr::Ident(_) => true,
        Expr::Bin(b) => b.kind == BinOpKind::Field,
        _ => false,
    }
}

fn bin_instr(k: BinOpKind) -> (r: Air)
    ensures
        r == op_instr(k),
{
    match k {
        BinOpKind::Sub => Air::SubAB,
        BinOpKind::Mul => Air::MulAB,
        _ => Air::AddAB,
    }
}

/// Resolve an identifier or a field chain to its location and type.
pub fn aquire_place(ctx: &AirCtx, e: &Expr) -> (r: Result<(OffsetVar, TyId), LowerError>)
    requires
        ctx.wf(),
    ensures
        r == place_of(ctx.tys, ctx.binds@, *e),
        r is Ok ==> {
            let (o, t) = r->Ok_0;
            &&& o.var.0 < ctx.vars@.len()
            &&& resolve(ctx.tys, t) is Some
            &&& o.offset + size_of(ctx.tys, resolve(ctx.tys, t)->0) <= ctx.vars@[o.var.0 as int]
        },
    decreases e,
{
    match e {
        Expr::Ident(id) => match ctx.expect_var(*id) {
            Some(b) => {
                proof {
                    lemma_lookup_in(ctx.binds@, *id);
                }
                Ok((OffsetVar::zero(b.var), b.ty))
            },
            None => Err(LowerError::Unbound(*id)),
        },
        Expr::Bin(b) => {
            if b.kind != BinOpKind::Field {
                return Err(LowerError::TypeMismatch);
            }
            match aquire_place(ctx, &b.lhs) {
                Err(err) => Err(err),
                Ok((o, t)) => match ctx.tys.ty(t) {
                    Some(Ty::Struct(s)) => match &b.rhs {
                        Expr::Ident(f) => {
                            proof {
                                assert(ctx.tys.tys@[t.0 as int] is Struct);
                            }
                            let map = ctx.tys.fields(s);
                            match map.get(*f) {
                                Some((ft, off)) => {
                                    proof {
                                        lemma_slot_of_entry(map.fields@, *f);
                                    }
                                    Ok((OffsetVar::new(o.var, o.offset + off), ft))
                                },
                                None => Err(LowerError::InvalidField(*f)),
                            }
                        },
                        _ => Err(LowerError::TypeMismatch),
                    },
                    Some(_) => Err(LowerError::TypeMismatch),
                    None => Err(LowerError::UnknownType(t)),
                },
            }
        },
        _ => Err(LowerError::TypeMismatch),
    }
}

/// A binding found by name is one of the bindings.
proof fn lemma_lookup_in(binds: Seq<Binding>, name: IdentId)
    requires
        lookup(binds, name) is Some,
    ensures
        exists|k: int| 0 <= k < binds.len() && #[trigger] binds[k] == lookup(binds, name)->0,
    decreases binds.len(),
{
    if binds.last().name != name {
        lemma_lookup_in(binds.drop_last(), name);
        let k = choose|k: int|
            0 <= k < binds.drop_last().len() && #[trigger] binds.drop_last()[k] == lookup(
                binds,
                name,
            )->0;
        assert(binds[k] == binds.drop_last()[k]);
    } else {
        assert(binds[binds.len() - 1] == binds.last());
    }
}

fn load_leaf_exec(ctx: &mut AirCtx, reg: Reg, e: &Expr, k: IntKind) -> (r: Result<(), LowerError>)
    requires
        old(ctx).wf(),
    ensures
        appends_no_ret(*old(ctx), *final(ctx)),
        fresh_writes(*old(ctx), *final(ctx)),
        final(ctx).wf(),
        extends(*old(ctx), *final(ctx)),
        final(ctx).binds@ == old(ctx).binds@,
        follows(r, load_leaf(old(ctx).tys, old(ctx)@, reg, *e, k), final(ctx)@),
{
    match e {
        Expr::Lit(v) => {
            ctx.ins(Air::MovIConst(reg, *v));
            Ok(())
        },
        Expr::Ident(_) | Expr::Bin(_) => match aquire_place(ctx, e) {
            Ok((o, t)) => match int_kind(&ctx.tys, t) {
                Some(k2) => {
                    if k2 == k {
                        ctx.ins(Air::MovIVar(reg, o, k));
                        Ok(())
                    } else {
                        Err(LowerError::TypeMismatch)
                    }
                },
                None => Err(LowerError::TypeMismatch),
            },
            Err(err) => Err(err),
        },
        Expr::Enum(_) => Err(LowerError::Unsupported),
        _ => Err(LowerError::TypeMismatch),
    }
}

fn eval_int_exec(ctx: &mut AirCtx, e: &Expr, k: IntKind) -> (r: Result<(), LowerError>)
    requires
        old(ctx).wf(),
    ensures
        appends_no_ret(*old(ctx), *final(ctx)),
        fresh_writes(*old(ctx), *final(ctx)),
        final(ctx).wf(),
        extends(*old(ctx), *final(ctx)),
        final(ctx).binds@ == old(ctx).binds@,
        follows(r, eval_int(old(ctx).tys, old(ctx)@, *e, k), final(ctx)@),
    decreases e,
{
    match e {
        Expr::Call(sig) => match int_kind(&ctx.tys, sig.ty) {
            Some(k2) => {
                if k2 == k {
                    ctx.call(*sig);
                    Ok(())
                } else {
                    Err(LowerError::TypeMismatch)
                }
            },
            None => Err(LowerError::TypeMismatch),
        },
        Expr::Bin(b) => {
            if b.kind == BinOpKind::Field {
                return load_leaf_exec(ctx, Reg::A, e, k);
            }
            let op = bin_instr(b.kind);
            if is_leaf_expr(&b.rhs) {
                match eval_int_exec(ctx, &b.lhs, k) {
                    Ok(()) => {},
                    Err(err) => return Err(err),
                }
                match load_leaf_exec(ctx, Reg::B, &b.rhs, k) {
                    Ok(()) => {},
                    Err(err) => return Err(err),
                }
                ctx.ins(op);
            } else if is_leaf_expr(&b.lhs) {
                match eval_int_exec(ctx, &b.rhs, k) {
                    Ok(()) => {},
                    Err(err) => return Err(err),
                }
                ctx.ins(Air::SwapReg);
                match load_leaf_exec(ctx, Reg::A, &b.lhs, k) {
                    Ok(()) => {},
                    Err(err) => return Err(err),
                }
                ctx.ins(op);
            } else {
                match eval_int_exec(ctx, &b.lhs, k) {
                    Ok(()) => {},
                    Err(err) => return Err(err),
                }
                let tmp = OffsetVar::zero(ctx.alloc_slot(k.size()));
                ctx.ins(Air::PushIReg { dst: tmp, kind: k, src: Reg::A });
                match eval_int_exec(ctx, &b.rhs, k) {
                    Ok(()) => {},
                    Err(err) => return Err(err),
                }
                ctx.ins(Air::SwapReg);
                ctx.ins(Air::MovIVar(Reg::A, tmp, k));
                ctx.ins(op);
            }
            Ok(())
        },
        _ => load_leaf_exec(ctx, Reg::A, e, k),
    }
}

/// Copy the scalar or aggregate at the place named by `e` into `dst`.
pub open spec fn copy_place(tys: TyStore, st: LowerState, dst: OffsetVar, t: Ty, e: Expr) -> Result<
    LowerState,
    LowerError,
> {
    match place_of(tys, st.binds, e) {
        Ok((src, st_ty)) => if resolve(tys, st_ty) == Some(t) {
            match t {
                Ty::Int(it) => Ok(emit(st, Air::PushIVar { dst, kind: kind_of(it), src })),
                _ => Ok(
                    emit(
                        emit(emit(st, Air::Addr(Reg::B, dst)), Air::Addr(Reg::A, src)),
                        Air::MemCpy { dst: Reg::B, src: Reg::A, bytes: size_of(tys, t) as usize },
                    ),
                ),
            }
        } else {
            Err(LowerError::TypeMismatch)
        },
        Err(err) => Err(err),
    }
}

/// Every field of the literal `def` names a field of its struct, and fields
/// with different names occupy byte ranges of the struct that do not overlap.
pub open spec fn literal_fields_apart(tys: TyStore, def: StructDef) -> bool {
    &&& forall|a: int|
        0 <= a < def.fields@.len() ==> slot_of(
            tys.layouts@[def.id.0 as int].fields@,
            (#[trigger] def.fields@[a]).name,
        ) is Some
    &&& forall|a: int, b: int|
        0 <= a < def.fields@.len() && 0 <= b < def.fields@.len() && (#[trigger] def.fields@[a]).name
            != (#[trigger] def.fields@[b]).name ==> field_ranges_apart(
            tys,
            def.id,
            def.fields@[a].name,
            def.fields@[b].name,
        )
}

/// Lower the assignment of `e` into the location `dst`, whose type is `ty`.
pub open spec fn assign_spec(tys: TyStore, st: LowerState, dst: OffsetVar, ty: TyId, e: Expr) -> Result<
    LowerState,
    LowerError,
>
    decreases e,
{
    match resolve(tys, ty) {
        None => Err(LowerError::UnknownType(ty)),
        Some(Ty::Unit) => Err(LowerError::Unsupported),
        Some(Ty::Int(it)) => {
            let k = kind_of(it);
            match e {
                Expr::Lit(v) => Ok(emit(st, Air::PushIConst(dst, k, v))),
                Expr::Call(sig) => if int_kind_of(tys, sig.ty) == Some(k) {
                    Ok(emit(emit(st, Air::Call(sig)), Air::PushIReg { dst, kind: k, src: Reg::A }))
                } else {
                    Err(LowerError::TypeMismatch)
                },
                Expr::Ident(_) => copy_place(tys, st, dst, Ty::Int(it), e),
                Expr::Bin(b) => if b.kind == BinOpKind::Field {
                    copy_place(tys, st, dst, Ty::Int(it), e)
                } else {
                    match eval_int(tys, st, e, k) {
                        Ok(s1) => Ok(emit(s1, Air::PushIReg { dst, kind: k, src: Reg::A })),
                        Err(err) => Err(err),
                    }
                },
                Expr::Struct(_) => Err(LowerError::TypeMismatch),
                Expr::Enum(_) => Err(LowerError::Unsupported),
            }
        },
        Some(Ty::Struct(s)) => match e {
            Expr::Ident(_) => copy_place(tys, st, dst, Ty::Struct(s), e),
            Expr::Bin(b) => if b.kind == BinOpKind::Field {
                copy_place(tys, st, dst, Ty::Struct(s), e)
            } else {
                Err(LowerError::TypeMismatch)
            },
            Expr::Call(sig) => if resolve(tys, sig.ty) == Some(Ty::Struct(s)) {
                Ok(
                    emit(
                        emit(emit(st, Air::Call(sig)), Air::Addr(Reg::B, dst)),
                        Air::MemCpy {
                            dst: Reg::B,
                            src: Reg::A,
                            bytes: size_of(tys, Ty::Struct(s)) as usize,
                        },
                    ),
                )
            } else {
                Err(LowerError::TypeMismatch)
            },
            Expr::Struct(def) => if def.id == s {
                fields_spec(tys, st, dst, s, def.fields@, 0)
            } else {
                Err(LowerError::TypeMismatch)
            },
            Expr::Lit(_) => Err(LowerError::TypeMismatch),
            Expr::Enum(_) => Err(LowerError::Unsupported),
        },
    }
}

/// Lower the fields `fs[i..]` of a literal of struct `s`, each into its
/// offset from `dst`.
pub open spec fn fields_spec(
    tys: TyStore,
    st: LowerState,
    dst: OffsetVar,
    s: StructId,
    fs: Seq<FieldDef>,
    i: int,
) -> Result<LowerState, LowerError>
    decreases fs, fs.len() - i,
{
    if i < 0 || i >= fs.len() {
        Ok(st)
    } else {
        match slot_of(tys.layouts@[s.0 as int].fields@, fs[i].name) {
            Some((ft, off)) => match assign_spec(
                tys,
                st,
                OffsetVar { var: dst.var, offset: (dst.offset + off) as usize },
                ft,
                fs[i].expr,
            ) {
                Ok(s1) => fields_spec(tys, s1, dst, s, fs, i + 1),
                Err(err) => Err(err),
            },
            None => Err(LowerError::InvalidField(fs[i].name)),
        }
    }
}

fn copy_place_exec(ctx: &mut AirCtx, dst: OffsetVar, t: Ty, e: &Expr) -> (r: Result<(), LowerError>)
    requires
        old(ctx).wf(),
        dst.var.0 < old(ctx).vars@.len(),
        t is Struct ==> t->Struct_0.0 < old(ctx).tys.layouts@.len(),
    ensures
        appends_no_ret(*old(ctx), *final(ctx)),
        final(ctx).wf(),
        extends(*old(ctx), *final(ctx)),
        final(ctx).binds@ == old(ctx).binds@,
        follows(r, copy_place(old(ctx).tys, old(ctx)@, dst, t, *e), final(ctx)@),
{
    match aquire_place(ctx, e) {
        Ok((src, src_ty)) => match ctx.tys.ty(src_ty) {
            Some(st) => {
                if st != t {
                    return Err(LowerError::TypeMismatch);
                }
                match t {
                    Ty::Int(it) => {
                        ctx.ins(Air::PushIVar { dst, kind: it.kind(), src });
                    },
                    _ => {
                        let bytes = ctx.tys.size(t);
                        ctx.ins(Air::Addr(Reg::B, dst));
                        ctx.ins(Air::Addr(Reg::A, src));
                        ctx.ins(Air::MemCpy { dst: Reg::B, src: Reg::A, bytes });
                    },
                }
                Ok(())
            },
            None => Err(LowerError::TypeMismatch),
        },
        Err(err) => Err(err),
    }
}

/// Lower the assignment of `expr` into `dst`, a location of type `ty`.
pub fn assign_expr(ctx: &mut AirCtx, dst: OffsetVar, ty: TyId, expr: &Expr) -> (r: Result<
    (),
    LowerError,
>)
    requires
        old(ctx).wf(),
        dst.var.0 < old(ctx).vars@.len(),
        resolve(old(ctx).tys, ty) is Some ==> dst.offset + size_of(
            old(ctx).tys,
            resolve(old(ctx).tys, ty)->0,
        ) <= old(ctx).vars@[dst.var.0 as int],
    ensures
        r is Ok && *expr is Struct ==> literal_fields_apart(old(ctx).tys, expr->Struct_0),
        r is Ok && resolve(old(ctx).tys, ty) is Some ==> stores_within(
            *old(ctx),
            *final(ctx),
            dst,
            size_of(old(ctx).tys, resolve(old(ctx).tys, ty)->0),
        ),
        appends_no_ret(*old(ctx), *final(ctx)),
        r is Ok && int_kind_of(old(ctx).tys, ty) is Some ==> scalar_store_into(
            appended(*old(ctx), *final(ctx)),
            dst,
            int_kind_of(old(ctx).tys, ty)->0,
        ),
        r is Ok && resolve(old(ctx).tys, ty) is Some && resolve(old(ctx).tys, ty)->0 is Struct
            && !(*expr is Struct) ==> aggregate_copy_into(
            appended(*old(ctx), *final(ctx)),
            size_of(old(ctx).tys, resolve(old(ctx).tys, ty)->0) as usize,
        ),
        final(ctx).wf(),
        extends(*old(ctx), *final(ctx)),
        final(ctx).binds@ == old(ctx).binds@,
        follows(r, assign_spec(old(ctx).tys, old(ctx)@, dst, ty, *expr), final(ctx)@),
    decreases expr,
{
    let t = match ctx.tys.ty(ty) {
        Some(t) => t,
        None => return Err(LowerError::UnknownType(ty)),
    };
    proof {
        if t is Struct {
            assert(ctx.tys.tys@[ty.0 as int] is Struct);
        }
    }
    match t {
        Ty::Unit => Err(LowerError::Unsupported),
        Ty::Int(it) => {
            let k = it.kind();
            match expr {
                Expr::Lit(v) => {
                    ctx.ins(Air::PushIConst(dst, k, *v));
                    Ok(())
                },
                Expr::Call(sig) => match int_kind(&ctx.tys, sig.ty) {
                    Some(k2) => {
                        if k2 != k {
                            return Err(LowerError::TypeMismatch);
                        }
                        ctx.call(*sig);
                        ctx.ins(Air::PushIReg { dst, kind: k, src: Reg::A });
                        Ok(())
                    },
                    None => Err(LowerError::TypeMismatch),
                },
                Expr::Ident(_) => copy_place_exec(ctx, dst, t, expr),
                Expr::Bin(b) => {
                    if b.kind == BinOpKind::Field {
                        return copy_place_exec(ctx, dst, t, expr);
                    }
                    match eval_int_exec(ctx, expr, k) {
                        Ok(()) => {},
                        Err(err) => return Err(err),
                    }
                    ctx.ins(Air::PushIReg { dst, kind: k, src: Reg::A });
                    Ok(())
                },
                Expr::Struct(_) => Err(LowerError::TypeMismatch),
                Expr::Enum(_) => Err(LowerError::Unsupported),
            }
        },
        Ty::Struct(s) => match expr {
            Expr::Ident(_) => copy_place_exec(ctx, dst, t, expr),
            Expr::Bin(b) => {
                if b.kind == BinOpKind::Field {
                    copy_place_exec(ctx, dst, t, expr)
                } else {
                    Err(LowerError::TypeMismatch)
                }
            },
            Expr::Call(sig) => match ctx.tys.ty(sig.ty) {
                Some(ct) => {
                    if ct != t {
                        return Err(LowerError::TypeMismatch);
                    }
                    let bytes = ctx.tys.size(t);
                    ctx.call(*sig);
                    ctx.ins(Air::Addr(Reg::B, dst));
                    ctx.ins(Air::MemCpy { dst: Reg::B, src: RET_REG, bytes });
                    Ok(())
                },
                None => Err(LowerError::TypeMismatch),
            },
            Expr::Struct(def) => {
                if def.id != s {
                    return Err(LowerError::TypeMismatch);
                }
                define_struct(ctx, dst, s, def)
            },
            Expr::Lit(_) => Err(LowerError::TypeMismatch),
            Expr::Enum(_) => Err(LowerError::Unsupported),
        },
    }
}

/// Lower each field of the literal `def` of struct `s` into its offset from
/// `dst`.
fn define_struct(ctx: &mut AirCtx, dst: OffsetVar, s: StructId, def: &StructDef) -> (r: Result<
    (),
    LowerError,
>)
    requires
        old(ctx).wf(),
        dst.var.0 < old(ctx).vars@.len(),
        s == def.id,
        s.0 < old(ctx).tys.layouts@.len(),
        dst.offset + old(ctx).tys.layouts@[s.0 as int].size <= old(ctx).vars@[dst.var.0 as int],
    ensures
        r is Ok ==> literal_fields_apart(old(ctx).tys, *def),
        r is Ok ==> stores_within(
            *old(ctx),
            *final(ctx),
            dst,
            old(ctx).tys.layouts@[s.0 as int].size as nat,
        ),
        appends_no_ret(*old(ctx), *final(ctx)),
        final(ctx).wf(),
        extends(*old(ctx), *final(ctx)),
        final(ctx).binds@ == old(ctx).binds@,
        follows(r, fields_spec(old(ctx).tys, old(ctx)@, dst, s, def.fields@, 0), final(ctx)@),
    decreases def,
{
    let mut i: usize = 0;
    while i < def.fields.len()
        invariant
            ctx.wf(),
            extends(*old(ctx), *ctx),
            ctx.binds@ == old(ctx).binds@,
            appends_no_ret(*old(ctx), *ctx),
            stores_within(*old(ctx), *ctx, dst, ctx.tys.layouts@[s.0 as int].size as nat),
            dst.var.0 < ctx.vars@.len(),
            s.0 < ctx.tys.layouts@.len(),
            dst.offset + ctx.tys.layouts@[s.0 as int].size <= ctx.vars@[dst.var.0 as int],
            i <= def.fields@.len(),
            s == def.id,
            forall|a: int|
                0 <= a < i ==> slot_of(
                    ctx.tys.layouts@[s.0 as int].fields@,
                    (#[trigger] def.fields@[a]).name,
                ) is Some,
            fields_spec(old(ctx).tys, old(ctx)@, dst, s, def.fields@, 0) == fields_spec(
                ctx.tys,
                ctx@,
                dst,
                s,
                def.fields@,
                i as int,
            ),
        decreases def.fields.len() - i,
    {
        let field = &def.fields[i];
        let map = ctx.tys.fields(s);
        let (ft, off) = match map.get(field.name) {
            Some(slot) => slot,
            None => return Err(LowerError::InvalidField(field.name)),
        };
        proof {
            lemma_slot_of_entry(map.fields@, field.name);
            assert(decreases_to!(def.fields => def.fields[i as int]));
        }
        let ghost before = *ctx;
        match assign_expr(ctx, OffsetVar::new(dst.var, dst.offset + off), ft, &field.expr) {
            Ok(()) => {},
            Err(err) => return Err(err),
        }
        assert forall|j: int|
            old(ctx).instrs@.len() <= j < ctx.instrs@.len() && is_scalar_store(
                #[trigger] ctx.instrs@[j],
            ) && store_target(ctx.instrs@[j]).0.var == dst.var implies {
            &&& dst.offset <= store_target(ctx.instrs@[j]).0.offset
            &&& store_target(ctx.instrs@[j]).0.offset + store_target(ctx.instrs@[j]).1.spec_bytes()
                <= dst.offset + ctx.tys.layouts@[s.0 as int].size
        } by {
            if j < before.instrs@.len() {
                assert(ctx.instrs@[j] == before.instrs@[j]);
            }
        }
        i += 1;
    }
    proof {
        let tys = ctx.tys;
        assert forall|a: int, b: int|
            0 <= a < def.fields@.len() && 0 <= b < def.fields@.len() && (#[trigger] def.fields@[a]).name
                != (#[trigger] def.fields@[b]).name implies field_ranges_apart(
            tys,
            def.id,
            def.fields@[a].name,
            def.fields@[b].name,
        ) by {
            lemma_field_ranges_disjoint(tys, def.id, def.fields@[a].name, def.fields@[b].name);
        }
    }
    Ok(())
}

/// Add the snapshot in `tmp` to the value now in `dst` and store the sum in
/// `dst`.
pub open spec fn add_into(st: LowerState, k: IntKind, tmp: OffsetVar, dst: OffsetVar) -> LowerState {
    emit(
        emit(
            emit(emit(st, Air::MovIVar(Reg::A, tmp, k)), Air::MovIVar(Reg::B, dst, k)),
            Air::AddAB,
        ),
        Air::PushIReg { dst, kind: k, src: Reg::A },
    )
}

/// Copy the value in `dst` into a fresh temporary.
pub open spec fn snapshot(st: LowerState, k: IntKind, dst: OffsetVar) -> LowerState {
    emit(
        alloc_var(st, k.spec_bytes() as usize),
        Air::PushIVar { dst: OffsetVar { var: next_var(st), offset: 0 }, kind: k, src: dst },
    )
}

/// The instructions `after` of `x += rhs`, where `x` is at `o` with type `t`
/// of integer kind `k`, lowered from state `before`: first the snapshot of
/// `x` into a fresh temporary, then the assignment of `rhs` into `x`, then the
/// temporary added to `x` and the sum stored into `x`.
pub open spec fn compound_add_order(
    tys: TyStore,
    before: LowerState,
    after: Seq<Air>,
    o: OffsetVar,
    t: TyId,
    k: IntKind,
    rhs: Expr,
) -> bool {
    let tmp = OffsetVar { var: next_var(before), offset: 0 };
    let snap = snapshot(before, k, o);
    let n = after.len() as int;
    &&& assign_spec(tys, snap, o, t, rhs) is Ok
    &&& snap.instrs.len() + 4 <= n
    &&& after.subrange(0, snap.instrs.len() as int) == snap.instrs
    &&& after.subrange(0, n - 4) == assign_spec(tys, snap, o, t, rhs)->Ok_0.instrs
    &&& after.subrange(n - 4, n) == seq![
        Air::MovIVar(Reg::A, tmp, k),
        Air::MovIVar(Reg::B, o, k),
        Air::AddAB,
        Air::PushIReg { dst: o, kind: k, src: Reg::A },
    ]
}

/// `lhs = rhs` or `lhs += rhs`.
pub open spec fn assign_stmt_spec(tys: TyStore, st: LowerState, a: Assign) -> Result<
    LowerState,
    LowerError,
> {
    match place_of(tys, st.binds, a.lhs) {
        Ok((o, t)) => match a.kind {
            AssignKind::Equals => assign_spec(tys, st, o, t, a.rhs),
            AssignKind::Add => match int_kind_of(tys, t) {
                Some(k) => {
                    let tmp = OffsetVar { var: next_var(st), offset: 0 };
                    match assign_spec(tys, snapshot(st, k, o), o, t, a.rhs) {
                        Ok(s2) => Ok(add_into(s2, k, tmp, o)),
                        Err(err) => Err(err),
                    }
                },
                None => Err(LowerError::TypeMismatch),
            },
        },
        Err(err) => Err(err),
    }
}

/// `name: ty = rhs`: bind `name` to a fresh variable, then assign into it.
pub open spec fn let_spec(tys: TyStore, st: LowerState, l: Let) -> Result<LowerState, LowerError> {
    match resolve(tys, l.ty) {
        Some(t) => {
            let v = next_var(st);
            assign_spec(
                tys,
                bind(alloc_var(st, size_of(tys, t) as usize), Binding { name: l.name, var: v, ty: l.ty }),
                OffsetVar { var: v, offset: 0 },
                l.ty,
                l.rhs,
            )
        },
        None => Err(LowerError::UnknownType(l.ty)),
    }
}

/// Lower an expression for its side effects only: its calls, in order.
pub open spec fn semi_spec(st: LowerState, e: Expr) -> Result<LowerState, LowerError>
    decreases e,
{
    match e {
        Expr::Bin(b) => if b.kind == BinOpKind::Field {
            Ok(st)
        } else {
            match semi_spec(st, b.lhs) {
                Ok(s1) => semi_spec(s1, b.rhs),
                Err(err) => Err(err),
            }
        },
        Expr::Call(sig) => Ok(emit(st, Air::Call(sig))),
        Expr::Lit(_) | Expr::Ident(_) => Ok(st),
        _ => Err(LowerError::Unsupported),
    }
}

/// A binary expression statement, lowered for its side effects.
pub open spec fn bin_semi_spec(st: LowerState, b: BinOp) -> Result<LowerState, LowerError> {
    if b.kind == BinOpKind::Field {
        Ok(st)
    } else {
        match semi_spec(st, b.lhs) {
            Ok(s1) => semi_spec(s1, b.rhs),
            Err(err) => Err(err),
        }
    }
}

/// Return the value at the place named by `e`.
pub open spec fn ret_place(tys: TyStore, st: LowerState, ret_ty: TyId, e: Expr) -> Result<
    LowerState,
    LowerError,
> {
    match place_of(tys, st.binds, e) {
        Ok((o, t)) => if resolve(tys, t) is Some && resolve(tys, t) == resolve(tys, ret_ty) {
            match resolve(tys, t)->0 {
                Ty::Int(it) => Ok(ret_ivar(st, o, kind_of(it))),
                Ty::Struct(_) => Ok(ret_ptr(st, o)),
                Ty::Unit => Err(LowerError::Unsupported),
            }
        } else {
            Err(LowerError::TypeMismatch)
        },
        Err(err) => Err(err),
    }
}

/// Return `e` from a function whose result type is `ret_ty`.
pub open spec fn ret_spec(tys: TyStore, st: LowerState, ret_ty: TyId, e: Expr) -> Result<
    LowerState,
    LowerError,
> {
    match e {
        Expr::Lit(v) => if int_kind_of(tys, ret_ty) is Some {
            Ok(ret_iconst(st, v))
        } else {
            Err(LowerError::TypeMismatch)
        },
        Expr::Ident(_) => ret_place(tys, st, ret_ty, e),
        Expr::Bin(b) => if b.kind == BinOpKind::Field {
            ret_place(tys, st, ret_ty, e)
        } else {
            match int_kind_of(tys, ret_ty) {
                Some(k) => {
                    let tmp = OffsetVar { var: next_var(st), offset: 0 };
                    match eval_int(tys, alloc_var(st, k.spec_bytes() as usize), e, k) {
                        Ok(s2) => Ok(
                            ret_ivar(emit(s2, Air::PushIReg { dst: tmp, kind: k, src: Reg::A }), tmp, k),
                        ),
                        Err(err) => Err(err),
                    }
                },
                None => Err(LowerError::TypeMismatch),
            }
        },
        Expr::Call(sig) => if resolve(tys, sig.ty) is Some && resolve(tys, sig.ty) == resolve(
            tys,
            ret_ty,
        ) {
            Ok(emit(emit(st, Air::Call(sig)), Air::Ret))
        } else {
            Err(LowerError::TypeMismatch)
        },
        Expr::Struct(def) => if resolve(tys, ret_ty) == Some(Ty::Struct(def.id)) {
            let tmp = OffsetVar { var: next_var(st), offset: 0 };
            let s1 = alloc_var(st, size_of(tys, Ty::Struct(def.id)) as usize);
            match fields_spec(tys, s1, tmp, def.id, def.fields@, 0) {
                Ok(s2) => Ok(ret_ptr(s2, tmp)),
                Err(err) => Err(err),
            }
        } else {
            Err(LowerError::TypeMismatch)
        },
        Expr::Enum(_) => Err(LowerError::Unsupported),
    }
}

pub open spec fn stmt_spec(tys: TyStore, st: LowerState, ret_ty: TyId, s: Stmt) -> Result<
    LowerState,
    LowerError,
> {
    match s {
        Stmt::Let(l) => let_spec(tys, st, l),
        Stmt::Assign(a) => assign_stmt_spec(tys, st, a),
        Stmt::Call(sig) => Ok(emit(st, Air::Call(sig))),
        Stmt::Bin(b) => bin_semi_spec(st, b),
        Stmt::Ret(None) => Ok(emit(st, Air::Ret)),
        Stmt::Ret(Some(e)) => ret_spec(tys, st, ret_ty, e),
    }
}

/// Lower the statements `ss[i..]` in order, up to and including the first
/// `return`, which ends the function. The flag tells whether a `return` was
/// lowered.
pub open spec fn stmts_spec(tys: TyStore, st: LowerState, ret_ty: TyId, ss: Seq<Stmt>, i: int) -> Result<
    (LowerState, bool),
    LowerError,
>
    decreases ss.len() - i,
{
    if i < 0 || i >= ss.len() {
        Ok((st, false))
    } else {
        match stmt_spec(tys, st, ret_ty, ss[i]) {
            Ok(s1) => if ss[i] is Ret {
                Ok((s1, true))
            } else {
                stmts_spec(tys, s1, ret_ty, ss, i + 1)
            },
            Err(err) => Err(err),
        }
    }
}

/// The instructions of a function: its statements in order, until an
/// explicit `return` ends it; without one, its trailing expression returned,
/// or a bare return.
pub open spec fn lowered(tys: TyStore, f: Func) -> Result<Seq<Air>, LowerError> {
    match stmts_spec(tys, empty_state(), f.sig.ty, f.block.stmts@, 0) {
        Ok((s1, true)) => Ok(s1.instrs),
        Ok((s1, false)) => match f.block.end {
            Some(e) => match ret_spec(tys, s1, f.sig.ty, e) {
                Ok(s2) => Ok(s2.instrs),
                Err(err) => Err(err),
            },
            None => Ok(emit(s1, Air::Ret).instrs),
        },
        Err(err) => Err(err),
    }
}

pub fn air_assign_stmt(ctx: &mut AirCtx, stmt: &Assign) -> (r: Result<(), LowerError>)
    requires
        old(ctx).wf(),
    ensures
        appends_no_ret(*old(ctx), *final(ctx)),
        final(ctx).wf(),
        extends(*old(ctx), *final(ctx)),
        final(ctx).binds@ == old(ctx).binds@,
        follows(r, assign_stmt_spec(old(ctx).tys, old(ctx)@, *stmt), final(ctx)@),
        r is Ok && stmt.kind == AssignKind::Add ==> {
            let (o, t) = place_of(old(ctx).tys, old(ctx).binds@, stmt.lhs)->Ok_0;
            compound_add_order(
                old(ctx).tys,
                old(ctx)@,
                final(ctx).instrs@,
                o,
                t,
                int_kind_of(old(ctx).tys, t)->0,
                stmt.rhs,
            )
        },
{
    let (o, t) = match aquire_place(ctx, &stmt.lhs) {
        Ok(p) => p,
        Err(err) => return Err(err),
    };
    match stmt.kind {
        AssignKind::Equals => assign_expr(ctx, o, t, &stmt.rhs),
        AssignKind::Add => {
            let k = match int_kind(&ctx.tys, t) {
                Some(k) => k,
                None => return Err(LowerError::TypeMismatch),
            };
            let tmp = OffsetVar::zero(ctx.alloc_slot(k.size()));
            ctx.ins(Air::PushIVar { dst: tmp, kind: k, src: o });
            let ghost snap = *ctx;
            match assign_expr(ctx, o, t, &stmt.rhs) {
                Ok(()) => {},
                Err(err) => return Err(err),
            }
            let ghost mid = ctx.instrs@;
            ctx.ins(Air::MovIVar(Reg::A, tmp, k));
            ctx.ins(Air::MovIVar(Reg::B, o, k));
            ctx.ins(Air::AddAB);
            ctx.ins(Air::PushIReg { dst: o, kind: k, src: Reg::A });
            proof {
                let f = ctx.instrs@;
                let n = f.len() as int;
                assert(f.subrange(0, n - 4) =~= mid);
                assert(f.subrange(0, snap.instrs@.len() as int) =~= snap.instrs@);
                assert(f.subrange(n - 4, n) =~= seq![
                    Air::MovIVar(Reg::A, tmp, k),
                    Air::MovIVar(Reg::B, o, k),
                    Air::AddAB,
                    Air::PushIReg { dst: o, kind: k, src: Reg::A },
                ]);
            }
            Ok(())
        },
    }
}

fn air_let_stmt(ctx: &mut AirCtx, stmt: &Let) -> (r: Result<(), LowerError>)
    requires
        old(ctx).wf(),
    ensures
        appends_no_ret(*old(ctx), *final(ctx)),
        final(ctx).wf(),
        extends(*old(ctx), *final(ctx)),
        follows(r, let_spec(old(ctx).tys, old(ctx)@, *stmt), final(ctx)@),
{
    let t = match ctx.tys.ty(stmt.ty) {
        Some(t) => t,
        None => return Err(LowerError::UnknownType(stmt.ty)),
    };
    let dst = ctx.new_var_registered(stmt.name, stmt.ty, t);
    assign_expr(ctx, OffsetVar::zero(dst), stmt.ty, &stmt.rhs)
}

fn air_semi_expr(ctx: &mut AirCtx, e: &Expr) -> (r: Result<(), LowerError>)
    requires
        old(ctx).wf(),
    ensures
        appends_no_ret(*old(ctx), *final(ctx)),
        final(ctx).wf(),
        extends(*old(ctx), *final(ctx)),
        final(ctx).binds@ == old(ctx).binds@,
        follows(r, semi_spec(old(ctx)@, *e), final(ctx)@),
    decreases e,
{
    match e {
        Expr::Bin(b) => {
            if b.kind == BinOpKind::Field {
                return Ok(());
            }
            match air_semi_expr(ctx, &b.lhs) {
                Ok(()) => {},
                Err(err) => return Err(err),
            }
            air_semi_expr(ctx, &b.rhs)
        },
        Expr::Call(sig) => {
            ctx.call(*sig);
            Ok(())
        },
        Expr::Lit(_) | Expr::Ident(_) => Ok(()),
        _ => Err(LowerError::Unsupported),
    }
}

fn air_bin_semi(ctx: &mut AirCtx, b: &BinOp) -> (r: Result<(), LowerError>)
    requires
        old(ctx).wf(),
    ensures
        appends_no_ret(*old(ctx), *final(ctx)),
        final(ctx).wf(),
        extends(*old(ctx), *final(ctx)),
        final(ctx).binds@ == old(ctx).binds@,
        follows(r, bin_semi_spec(old(ctx)@, *b), final(ctx)@),
{
    if b.kind == BinOpKind::Field {
        return Ok(());
    }
    match air_semi_expr(ctx, &b.lhs) {
        Ok(()) => {},
        Err(err) => return Err(err),
    }
    air_semi_expr(ctx, &b.rhs)
}

fn air_ret_place(ctx: &mut AirCtx, ret_ty: TyId, e: &Expr) -> (r: Result<(), LowerError>)
    requires
        old(ctx).wf(),
    ensures
        r is Ok ==> appends_no_ret(*old(ctx), *final(ctx)) || ends_in_single_ret(
            appended(*old(ctx), *final(ctx)),
        ),
        final(ctx).wf(),
        extends(*old(ctx), *final(ctx)),
        final(ctx).binds@ == old(ctx).binds@,
        follows(r, ret_place(old(ctx).tys, old(ctx)@, ret_ty, *e), final(ctx)@),
{
    let (o, t) = match aquire_place(ctx, e) {
        Ok(p) => p,
        Err(err) => return Err(err),
    };
    let (out, want) = (ctx.tys.ty(t), ctx.tys.ty(ret_ty));
    match out {
        Some(ot) => match want {
            Some(wt) => {
                if ot != wt {
                    return Err(LowerError::TypeMismatch);
                }
                match ot {
                    Ty::Int(it) => {
                        ctx.ret_ivar(o, it.kind());
                        Ok(())
                    },
                    Ty::Struct(_) => {
                        ctx.ret_ptr(o);
                        Ok(())
                    },
                    Ty::Unit => Err(LowerError::Unsupported),
                }
            },
            None => Err(LowerError::TypeMismatch),
        },
        None => Err(LowerError::TypeMismatch),
    }
}

/// Lower the return of `e` from a function whose result type is `ret_ty`.
pub fn air_return(ctx: &mut AirCtx, ret_ty: TyId, e: &Expr) -> (r: Result<(), LowerError>)
    requires
        old(ctx).wf(),
    ensures
        r is Ok ==> ends_in_single_ret(appended(*old(ctx), *final(ctx))),
        final(ctx).wf(),
        extends(*old(ctx), *final(ctx)),
        final(ctx).binds@ == old(ctx).binds@,
        follows(r, ret_spec(old(ctx).tys, old(ctx)@, ret_ty, *e), final(ctx)@),
{
    match e {
        Expr::Lit(v) => match int_kind(&ctx.tys, ret_ty) {
            Some(_) => {
                ctx.ret_iconst(*v);
                Ok(())
            },
            None => Err(LowerError::TypeMismatch),
        },
        Expr::Ident(_) => air_ret_place(ctx, ret_ty, e),
        Expr::Bin(b) => {
            if b.kind == BinOpKind::Field {
                return air_ret_place(ctx, ret_ty, e);
            }
            let k = match int_kind(&ctx.tys, ret_ty) {
                Some(k) => k,
                None => return Err(LowerError::TypeMismatch),
            };
            let tmp = OffsetVar::zero(ctx.alloc_slot(k.size()));
            match eval_int_exec(ctx, e, k) {
                Ok(()) => {},
                Err(err) => return Err(err),
            }
            ctx.ins(Air::PushIReg { dst: tmp, kind: k, src: Reg::A });
            ctx.ret_ivar(tmp, k);
            Ok(())
        },
        Expr::Call(sig) => match ctx.tys.ty(sig.ty) {
            Some(ct) => match ctx.tys.ty(ret_ty) {
                Some(rt) => {
                    if ct != rt {
                        return Err(LowerError::TypeMismatch);
                    }
                    ctx.call(*sig);
                    ctx.ins(Air::Ret);
                    Ok(())
                },
                None => Err(LowerError::TypeMismatch),
            },
            None => Err(LowerError::TypeMismatch),
        },
        Expr::Struct(def) => match ctx.tys.ty(ret_ty) {
            Some(rt) => {
                if rt != Ty::Struct(def.id) {
                    return Err(LowerError::TypeMismatch);
                }
                proof {
                    assert(ctx.tys.tys@[ret_ty.0 as int] is Struct);
                }
                let tmp = OffsetVar::zero(ctx.anon_var(rt));
                match define_struct(ctx, tmp, def.id, def) {
                    Ok(()) => {},
                    Err(err) => return Err(err),
                }
                ctx.ret_ptr(tmp);
                Ok(())
            },
            None => Err(LowerError::TypeMismatch),
        },
        Expr::Enum(_) => Err(LowerError::Unsupported),
    }
}

fn air_stmt(ctx: &mut AirCtx, ret_ty: TyId, stmt: &Stmt) -> (r: Result<(), LowerError>)
    requires
        old(ctx).wf(),
    ensures
        !(*stmt is Ret) ==> appends_no_ret(*old(ctx), *final(ctx)),
        r is Ok && *stmt is Ret ==> ends_in_single_ret(appended(*old(ctx), *final(ctx))),
        final(ctx).wf(),
        extends(*old(ctx), *final(ctx)),
        follows(r, stmt_spec(old(ctx).tys, old(ctx)@, ret_ty, *stmt), final(ctx)@),
{
    match stmt {
        Stmt::Let(l) => air_let_stmt(ctx, l),
        Stmt::Assign(a) => air_assign_stmt(ctx, a),
        Stmt::Call(sig) => {
            ctx.call(*sig);
            Ok(())
        },
        Stmt::Bin(b) => air_bin_semi(ctx, b),
        Stmt::Ret(None) => {
            ctx.ins(Air::Ret);
            Ok(())
        },
        Stmt::Ret(Some(e)) => air_return(ctx, ret_ty, e),
    }
}

/// Lower one type-checked function into its instruction sequence. The
/// context is reset first, so the result depends on its type facts alone.
pub fn lower_func(ctx: &mut AirCtx, func: &Func) -> (r: Result<AirFunc, LowerError>)
    requires
        old(ctx).wf(),
    ensures
        final(ctx).wf(),
        final(ctx).tys == old(ctx).tys,
        match lowered(old(ctx).tys, *func) {
            Ok(s) => r is Ok && r->Ok_0.instrs@ == s && r->Ok_0.sig == func.sig,
            Err(e) => r == Err::<AirFunc, LowerError>(e),
        },
        r is Ok ==> ends_in_single_ret(r->Ok_0.instrs@),
        r is Ok ==> alloc_precedes_use(r->Ok_0.instrs@),
        r is Ok ==> allocs_distinct(r->Ok_0.instrs@),
{
    ctx.start();
    let mut i: usize = 0;
    let mut returned = false;
    while i < func.block.stmts.len() && !returned
        invariant
            ctx.wf(),
            ctx.tys == old(ctx).tys,
            i <= func.block.stmts@.len(),
            !returned ==> no_ret(ctx.instrs@),
            !returned ==> stmts_spec(ctx.tys, empty_state(), func.sig.ty, func.block.stmts@, 0)
                == stmts_spec(ctx.tys, ctx@, func.sig.ty, func.block.stmts@, i as int),
            returned ==> stmts_spec(ctx.tys, empty_state(), func.sig.ty, func.block.stmts@, 0)
                == Ok::<(LowerState, bool), LowerError>((ctx@, true)),
            returned ==> ends_in_single_ret(ctx.instrs@),
        decreases func.block.stmts.len() - i,
    {
        let ghost before = *ctx;
        let stmt = &func.block.stmts[i];
        match air_stmt(ctx, func.sig.ty, stmt) {
            Ok(()) => {},
            Err(err) => return Err(err),
        }
        if let Stmt::Ret(_) = stmt {
            returned = true;
            proof {
                lemma_single_ret_after(before.instrs@, ctx.instrs@);
            }
        }
        i += 1;
    }
    if !returned {
        let ghost before = *ctx;
        match &func.block.end {
            Some(e) => match air_return(ctx, func.sig.ty, e) {
                Ok(()) => {},
                Err(err) => return Err(err),
            },
            None => ctx.ins(Air::Ret),
        }
        proof {
            lemma_single_ret_after(before.instrs@, ctx.instrs@);
        }
    }
    proof {
        lemma_alloc_precedes_use(*ctx);
        lemma_allocs_distinct(*ctx);
    }
    let instrs = ctx.finish();
    Ok(AirFunc { sig: func.sig, instrs })
}

} // verus!
