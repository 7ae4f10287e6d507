use std::collections::HashMap;

use pebblec::air::{Air, AirFunc, IntKind, OffsetVar, Reg, Var};
use pebblec::ast::{
    Assign, AssignKind, BinOp, BinOpKind, Block, EnumDef, Expr, Func, IdentId, Let, Sig, Stmt,
};
use pebblec::ctx::{AirCtx, LowerError};
use pebblec::lower::lower_func;
use pebblec::store::TyStore;
use pebblec::strukt::{Field, FieldDef, FieldMap, Struct, StructDef};
use pebblec::ty::{IWidth, IntTy, Sign, StructId, Ty, TyId};

const I64: TyId = TyId(0);
const POINT: TyId = TyId(1);
const UNIT: TyId = TyId(2);
const U8: TyId = TyId(3);
const LINE: TyId = TyId(4);

const X: IdentId = IdentId(1);
const Y: IdentId = IdentId(2);
const P: IdentId = IdentId(3);
const Q: IdentId = IdentId(4);
const A_FIELD: IdentId = IdentId(5);
const B_FIELD: IdentId = IdentId(6);
const L: IdentId = IdentId(7);
const Z: IdentId = IdentId(8);

/// `Point { x: i64, y: i64 }` and `Line { a: Point, b: Point }`.
fn store() -> TyStore {
    TyStore {
        tys: vec![
            Ty::Int(IntTy::new_64(Sign::I)),
            Ty::Struct(StructId(0)),
            Ty::Unit,
            Ty::Int(IntTy::new_8(Sign::U)),
            Ty::Struct(StructId(1)),
        ],
        structs: vec![
            Struct {
                name: IdentId(100),
                fields: vec![Field { name: X, ty: I64 }, Field { name: Y, ty: I64 }],
            },
            Struct {
                name: IdentId(101),
                fields: vec![Field { name: A_FIELD, ty: POINT }, Field { name: B_FIELD, ty: POINT }],
            },
        ],
        layouts: vec![
            FieldMap { fields: vec![(X, I64, 0), (Y, I64, 8)], size: 16 },
            FieldMap { fields: vec![(A_FIELD, POINT, 0), (B_FIELD, POINT, 16)], size: 32 },
        ],
    }
}

fn sig(name: usize, ty: TyId) -> Sig {
    Sig { name: IdentId(name), ty }
}

fn lit(v: i64) -> Expr {
    Expr::Lit(v)
}

fn ident(id: IdentId) -> Expr {
    Expr::Ident(id)
}

fn bin(kind: BinOpKind, lhs: Expr, rhs: Expr) -> Expr {
    Expr::Bin(Box::new(BinOp { kind, lhs, rhs }))
}

fn field(base: Expr, name: IdentId) -> Expr {
    bin(BinOpKind::Field, base, ident(name))
}

fn point(x: Expr, y: Expr) -> Expr {
    Expr::Struct(StructDef {
        id: StructId(0),
        fields: vec![FieldDef { name: X, expr: x }, FieldDef { name: Y, expr: y }],
    })
}

fn let_(name: IdentId, ty: TyId, rhs: Expr) -> Stmt {
    Stmt::Let(Let { name, ty, rhs })
}

fn assign(kind: AssignKind, lhs: Expr, rhs: Expr) -> Stmt {
    Stmt::Assign(Assign { kind, lhs, rhs })
}

fn func(name: usize, ty: TyId, stmts: Vec<Stmt>, end: Option<Expr>) -> Func {
    Func { sig: sig(name, ty), block: Block { stmts, end } }
}

fn lower(f: &Func) -> Result<AirFunc, LowerError> {
    let mut ctx = AirCtx::new(store());
    lower_func(&mut ctx, f)
}

fn at(v: usize, offset: usize) -> OffsetVar {
    OffsetVar::new(Var(v), offset)
}

// A small abstract machine that runs lowered functions: every variable of
// every frame stays in one arena, and an address is (slot << 32) | offset.
struct Machine<'a> {
    funcs: &'a [AirFunc],
    slots: Vec<Vec<u8>>,
}

fn width(kind: IntKind) -> usize {
    match kind {
        IntKind::I8 | IntKind::U8 => 1,
        IntKind::I16 | IntKind::U16 => 2,
        IntKind::I32 | IntKind::U32 => 4,
        IntKind::I64 | IntKind::U64 => 8,
    }
}

impl<'a> Machine<'a> {
    fn run(&mut self, name: IdentId) -> u64 {
        let f = self.funcs.iter().find(|f| f.sig.name == name).expect("no such function");
        let mut frame: HashMap<Var, usize> = HashMap::new();
        let (mut a, mut b): (u64, u64) = (0, 0);
        for instr in f.instrs.iter() {
            let addr = |frame: &HashMap<Var, usize>, o: &OffsetVar| -> (usize, usize) {
                (frame[&o.var], o.offset)
            };
            match *instr {
                Air::Ret => return a,
                Air::Call(sig) => {
                    a = self.run(sig.name);
                }
                Air::SwapReg => std::mem::swap(&mut a, &mut b),
                Air::SAlloc(v, n) => {
                    frame.insert(v, self.slots.len());
                    self.slots.push(vec![0; n]);
                }
                Air::Addr(r, o) => {
                    let (s, off) = addr(&frame, &o);
                    let value = ((s as u64) << 32) | off as u64;
                    if r == Reg::A { a = value } else { b = value }
                }
                Air::MemCpy { dst, src, bytes } => {
                    let d = if dst == Reg::A { a } else { b };
                    let s = if src == Reg::A { a } else { b };
                    let data: Vec<u8> = self.slots[(s >> 32) as usize]
                        [(s & 0xffff_ffff) as usize..][..bytes]
                        .to_vec();
                    self.slots[(d >> 32) as usize][(d & 0xffff_ffff) as usize..][..bytes]
                        .copy_from_slice(&data);
                }
                Air::MovIVar(r, o, kind) => {
                    let (s, off) = addr(&frame, &o);
                    let value = self.load(s, off, kind);
                    if r == Reg::A { a = value } else { b = value }
                }
                Air::MovIConst(r, v) => {
                    if r == Reg::A { a = v as u64 } else { b = v as u64 }
                }
                Air::PushIConst(o, kind, v) => {
                    let (s, off) = addr(&frame, &o);
                    self.store(s, off, kind, v as u64);
                }
                Air::PushIReg { dst, kind, src } => {
                    let (s, off) = addr(&frame, &dst);
                    self.store(s, off, kind, if src == Reg::A { a } else { b });
                }
                Air::PushIVar { dst, kind, src } => {
                    let (s, off) = addr(&frame, &src);
                    let value = self.load(s, off, kind);
                    let (s, off) = addr(&frame, &dst);
                    self.store(s, off, kind, value);
                }
                Air::AddAB => a = a.wrapping_add(b),
                Air::SubAB => a = a.wrapping_sub(b),
                Air::MulAB => a = a.wrapping_mul(b),
            }
        }
        panic!("function fell off its end")
    }

    fn load(&self, slot: usize, off: usize, kind: IntKind) -> u64 {
        let n = width(kind);
        let mut bytes = [0u8; 8];
        bytes[..n].copy_from_slice(&self.slots[slot][off..off + n]);
        let raw = u64::from_le_bytes(bytes);
        match kind {
            IntKind::I8 => raw as u8 as i8 as i64 as u64,
            IntKind::I16 => raw as u16 as i16 as i64 as u64,
            IntKind::I32 => raw as u32 as i32 as i64 as u64,
            _ => raw,
        }
    }

    fn store(&mut self, slot: usize, off: usize, kind: IntKind, value: u64) {
        let n = width(kind);
        self.slots[slot][off..off + n].copy_from_slice(&value.to_le_bytes()[..n]);
    }
}

/// A program whose `main` returns 0 when lowering is right.
fn demo_program() -> Vec<Func> {
    vec![
        // two: i64 { 2 }
        func(10, I64, vec![], Some(lit(2))),
        // make_point: Point { Point { x: 3, y: two() * 4 } }
        func(11, POINT, vec![], Some(point(lit(3), bin(BinOpKind::Mul, Expr::Call(sig(10, I64)), lit(4))))),
        // forward: Point { make_point() }
        func(12, POINT, vec![], Some(Expr::Call(sig(11, POINT)))),
        // main: i64 { ... }
        func(
            0,
            I64,
            vec![
                let_(X, I64, lit(5)),
                assign(AssignKind::Equals, ident(X), bin(BinOpKind::Add, ident(X), lit(2))),
                assign(AssignKind::Add, ident(X), ident(X)),
                let_(P, POINT, point(ident(X), Expr::Call(sig(10, I64)))),
                assign(AssignKind::Add, field(ident(P), X), lit(10)),
                let_(Q, POINT, Expr::Call(sig(12, POINT))),
                let_(L, LINE, Expr::Struct(StructDef {
                    id: StructId(1),
                    fields: vec![
                        FieldDef { name: A_FIELD, expr: ident(P) },
                        FieldDef { name: B_FIELD, expr: ident(Q) },
                    ],
                })),
                let_(
                    Z,
                    I64,
                    bin(
                        BinOpKind::Sub,
                        bin(BinOpKind::Mul, field(field(ident(L), B_FIELD), Y), lit(3)),
                        bin(BinOpKind::Add, Expr::Call(sig(10, I64)), field(field(ident(L), A_FIELD), X)),
                    ),
                ),
                Stmt::Call(sig(10, I64)),
            ],
            // x = 14, p = (24, 2), q = (3, 8), z = 8 * 3 - (2 + 24) = -2
            // main returns z + x - p.x - q.x + 11 = -2 + 14 - 24 - 3 + 15 = 0
            Some(bin(
                BinOpKind::Add,
                bin(
                    BinOpKind::Sub,
                    bin(
                        BinOpKind::Sub,
                        bin(BinOpKind::Add, ident(Z), ident(X)),
                        field(ident(P), X),
                    ),
                    field(field(ident(L), B_FIELD), X),
                ),
                lit(15),
            )),
        ),
    ]
}

fn run_demo() -> u64 {
    let mut ctx = AirCtx::new(store());
    let funcs: Vec<AirFunc> = demo_program()
        .iter()
        .map(|f| lower_func(&mut ctx, f).expect("lowering failed"))
        .collect();
    let mut machine = Machine { funcs: &funcs, slots: Vec::new() };
    machine.run(IdentId(0))
}

#[test]
fn language_tests() {
    for _ in 0..100 {
        assert_eq!(0, run_demo());
    }
}

#[test]
fn deterministic() {
    let program = demo_program();
    let mut first_ctx = AirCtx::new(store());
    let mut second_ctx = AirCtx::new(store());
    // the second context has lowered something else before
    lower_func(&mut second_ctx, &program[1]).unwrap();
    let first: Vec<AirFunc> = program.iter().map(|f| lower_func(&mut first_ctx, f).unwrap()).collect();
    let second: Vec<AirFunc> = program.iter().map(|f| lower_func(&mut second_ctx, f).unwrap()).collect();
    assert_eq!(first.len(), second.len());
    assert_eq!(first, second);
    assert_eq!(first[3].sig, second[3].sig);
}

#[test]
fn let_add_then_return_scenario() {
    let f = func(
        0,
        I64,
        vec![
            let_(X, I64, lit(5)),
            assign(AssignKind::Equals, ident(X), bin(BinOpKind::Add, ident(X), lit(2))),
        ],
        Some(ident(X)),
    );
    let x = at(0, 0);
    assert_eq!(
        lower(&f).unwrap().instrs,
        vec![
            Air::SAlloc(Var(0), 8),
            Air::PushIConst(x, IntKind::I64, 5),
            Air::MovIVar(Reg::A, x, IntKind::I64),
            Air::MovIConst(Reg::B, 2),
            Air::AddAB,
            Air::PushIReg { dst: x, kind: IntKind::I64, src: Reg::A },
            Air::MovIVar(Reg::A, x, IntKind::I64),
            Air::Ret,
        ]
    );
    let mut ctx = AirCtx::new(store());
    let funcs = vec![lower_func(&mut ctx, &f).unwrap()];
    assert_eq!(Machine { funcs: &funcs, slots: Vec::new() }.run(IdentId(0)), 7);
}

#[test]
fn struct_literal_let_scenario() {
    let f = func(0, UNIT, vec![let_(P, POINT, point(lit(1), lit(2)))], None);
    let instrs = lower(&f).unwrap().instrs;
    assert_eq!(
        instrs,
        vec![
            Air::SAlloc(Var(0), 16),
            Air::PushIConst(at(0, 0), IntKind::I64, 1),
            Air::PushIConst(at(0, 8), IntKind::I64, 2),
            Air::Ret,
        ]
    );
    assert!(!instrs.iter().any(|i| matches!(i, Air::MemCpy { .. })));
}

#[test]
fn struct_call_return_scenario() {
    let f = func(0, POINT, vec![], Some(Expr::Call(sig(11, POINT))));
    assert_eq!(lower(&f).unwrap().instrs, vec![Air::Call(sig(11, POINT)), Air::Ret]);
}

#[test]
fn compound_add_order() {
    let f = func(
        0,
        I64,
        vec![let_(X, I64, lit(1)), assign(AssignKind::Add, ident(X), bin(BinOpKind::Mul, ident(X), lit(3)))],
        Some(ident(X)),
    );
    let x = at(0, 0);
    let tmp = at(1, 0);
    assert_eq!(
        lower(&f).unwrap().instrs,
        vec![
            Air::SAlloc(Var(0), 8),
            Air::PushIConst(x, IntKind::I64, 1),
            Air::SAlloc(Var(1), 8),
            Air::PushIVar { dst: tmp, kind: IntKind::I64, src: x },
            Air::MovIVar(Reg::A, x, IntKind::I64),
            Air::MovIConst(Reg::B, 3),
            Air::MulAB,
            Air::PushIReg { dst: x, kind: IntKind::I64, src: Reg::A },
            Air::MovIVar(Reg::A, tmp, IntKind::I64),
            Air::MovIVar(Reg::B, x, IntKind::I64),
            Air::AddAB,
            Air::PushIReg { dst: x, kind: IntKind::I64, src: Reg::A },
            Air::MovIVar(Reg::A, x, IntKind::I64),
            Air::Ret,
        ]
    );
    let mut ctx = AirCtx::new(store());
    let funcs = vec![lower_func(&mut ctx, &f).unwrap()];
    assert_eq!(Machine { funcs: &funcs, slots: Vec::new() }.run(IdentId(0)), 4);
}

#[test]
fn scalar_store_kind_matches_destination() {
    let f = func(
        0,
        U8,
        vec![let_(X, U8, bin(BinOpKind::Add, lit(250), lit(10)))],
        Some(ident(X)),
    );
    let instrs = lower(&f).unwrap().instrs;
    assert_eq!(instrs[4], Air::PushIReg { dst: at(0, 0), kind: IntKind::U8, src: Reg::A });
    assert!(!instrs.iter().any(|i| matches!(i, Air::MemCpy { .. })));
    let mut ctx = AirCtx::new(store());
    let funcs = vec![lower_func(&mut ctx, &f).unwrap()];
    assert_eq!(Machine { funcs: &funcs, slots: Vec::new() }.run(IdentId(0)), 4);
}

#[test]
fn aggregate_copy_uses_struct_size() {
    let f = func(0, UNIT, vec![let_(P, POINT, point(lit(1), lit(2))), let_(Q, POINT, ident(P))], None);
    let instrs = lower(&f).unwrap().instrs;
    assert_eq!(
        instrs[3..],
        [
            Air::SAlloc(Var(1), 16),
            Air::Addr(Reg::B, at(1, 0)),
            Air::Addr(Reg::A, at(0, 0)),
            Air::MemCpy { dst: Reg::B, src: Reg::A, bytes: 16 },
            Air::Ret,
        ]
    );
}

#[test]
fn nested_field_offsets() {
    let f = func(
        0,
        I64,
        vec![
            let_(L, LINE, Expr::Struct(StructDef {
                id: StructId(1),
                fields: vec![
                    FieldDef { name: A_FIELD, expr: point(lit(1), lit(2)) },
                    FieldDef { name: B_FIELD, expr: point(lit(3), lit(4)) },
                ],
            })),
        ],
        Some(field(field(ident(L), B_FIELD), Y)),
    );
    assert_eq!(
        lower(&f).unwrap().instrs,
        vec![
            Air::SAlloc(Var(0), 32),
            Air::PushIConst(at(0, 0), IntKind::I64, 1),
            Air::PushIConst(at(0, 8), IntKind::I64, 2),
            Air::PushIConst(at(0, 16), IntKind::I64, 3),
            Air::PushIConst(at(0, 24), IntKind::I64, 4),
            Air::MovIVar(Reg::A, at(0, 24), IntKind::I64),
            Air::Ret,
        ]
    );
}

#[test]
fn both_operands_compound_spill() {
    // (x * 2) - (x + 1) with x = 5
    let f = func(
        0,
        I64,
        vec![let_(X, I64, lit(5))],
        Some(bin(
            BinOpKind::Sub,
            bin(BinOpKind::Mul, ident(X), lit(2)),
            bin(BinOpKind::Add, ident(X), lit(1)),
        )),
    );
    let instrs = lower(&f).unwrap().instrs;
    assert!(instrs.contains(&Air::SwapReg));
    let mut ctx = AirCtx::new(store());
    let funcs = vec![lower_func(&mut ctx, &f).unwrap()];
    assert_eq!(Machine { funcs: &funcs, slots: Vec::new() }.run(IdentId(0)), 4);
    // 10 - (2 * x) with a leaf on the left
    let g = func(
        0,
        I64,
        vec![let_(X, I64, lit(3))],
        Some(bin(BinOpKind::Sub, lit(10), bin(BinOpKind::Mul, lit(2), ident(X)))),
    );
    let funcs = vec![lower_func(&mut ctx, &g).unwrap()];
    assert_eq!(Machine { funcs: &funcs, slots: Vec::new() }.run(IdentId(0)), 4);
}

#[test]
fn single_final_ret_and_alloc_before_use() {
    for f in demo_program().iter() {
        let instrs = lower(f).unwrap().instrs;
        assert_eq!(instrs.last(), Some(&Air::Ret));
        assert_eq!(instrs.iter().filter(|i| **i == Air::Ret).count(), 1);
        let reserved: Vec<Var> = instrs
            .iter()
            .filter_map(|i| if let Air::SAlloc(v, _) = i { Some(*v) } else { None })
            .collect();
        for (n, v) in reserved.iter().enumerate() {
            assert!(!reserved[n + 1..].contains(v));
        }
        let mut allocated: Vec<Var> = Vec::new();
        for i in instrs.iter() {
            let used: Vec<Var> = match *i {
                Air::MovIVar(_, o, _) | Air::Addr(_, o) | Air::PushIConst(o, _, _) => vec![o.var],
                Air::PushIReg { dst, .. } => vec![dst.var],
                Air::PushIVar { dst, src, .. } => vec![dst.var, src.var],
                Air::SAlloc(v, _) => {
                    allocated.push(v);
                    vec![]
                }
                _ => vec![],
            };
            assert!(used.iter().all(|v| allocated.contains(v)));
        }
    }
}

#[test]
fn explicit_return_statement() {
    let f = func(0, I64, vec![Stmt::Ret(Some(lit(1)))], None);
    assert_eq!(lower(&f).unwrap().instrs, vec![Air::MovIConst(Reg::A, 1), Air::Ret]);
}

#[test]
fn return_statement_ends_the_function() {
    let f = func(
        0,
        I64,
        vec![let_(X, I64, lit(4)), Stmt::Ret(Some(ident(X))), Stmt::Call(sig(10, I64))],
        Some(lit(9)),
    );
    assert_eq!(
        lower(&f).unwrap().instrs,
        vec![
            Air::SAlloc(Var(0), 8),
            Air::PushIConst(at(0, 0), IntKind::I64, 4),
            Air::MovIVar(Reg::A, at(0, 0), IntKind::I64),
            Air::Ret,
        ]
    );
    let g = func(0, UNIT, vec![Stmt::Ret(None), Stmt::Ret(None)], None);
    assert_eq!(lower(&g).unwrap().instrs, vec![Air::Ret]);
}

#[test]
fn context_lowers_functions_in_turn() {
    let mut ctx = AirCtx::new(store());
    let f = func(0, I64, vec![let_(X, I64, lit(1))], Some(ident(X)));
    let first = lower_func(&mut ctx, &f).unwrap();
    let second = lower_func(&mut ctx, &f).unwrap();
    assert_eq!(first, second);
    assert_eq!(first.instrs[0], Air::SAlloc(Var(0), 8));
}

#[test]
fn empty_function_returns() {
    assert_eq!(lower(&func(0, UNIT, vec![], None)).unwrap().instrs, vec![Air::Ret]);
}

#[test]
fn semi_statements_emit_calls_only() {
    let f = func(
        0,
        UNIT,
        vec![
            let_(P, POINT, point(lit(1), lit(2))),
            Stmt::Bin(BinOp {
                kind: BinOpKind::Add,
                lhs: Expr::Call(sig(10, I64)),
                rhs: bin(BinOpKind::Mul, lit(1), Expr::Call(sig(13, I64))),
            }),
            Stmt::Bin(BinOp { kind: BinOpKind::Field, lhs: ident(P), rhs: ident(X) }),
        ],
        None,
    );
    let instrs = lower(&f).unwrap().instrs;
    assert_eq!(instrs[3..], [Air::Call(sig(10, I64)), Air::Call(sig(13, I64)), Air::Ret]);
}

#[test]
fn unbound_identifier_error() {
    let f = func(0, I64, vec![], Some(ident(X)));
    assert_eq!(lower(&f), Err(LowerError::Unbound(X)));
}

#[test]
fn literal_into_struct_error() {
    let f = func(0, UNIT, vec![let_(P, POINT, lit(1))], None);
    assert_eq!(lower(&f), Err(LowerError::TypeMismatch));
}

#[test]
fn invalid_field_error() {
    let f = func(0, I64, vec![let_(P, POINT, point(lit(1), lit(2)))], Some(field(ident(P), Z)));
    assert_eq!(lower(&f), Err(LowerError::InvalidField(Z)));
}

#[test]
fn enum_value_unsupported() {
    let f = func(
        0,
        I64,
        vec![let_(X, I64, Expr::Enum(EnumDef { name: IdentId(50), variant: IdentId(51) }))],
        None,
    );
    assert_eq!(lower(&f), Err(LowerError::Unsupported));
}

#[test]
fn unit_target_unsupported() {
    let f = func(0, UNIT, vec![let_(X, UNIT, lit(1))], None);
    assert_eq!(lower(&f), Err(LowerError::Unsupported));
}

#[test]
fn unknown_type_error() {
    let f = func(0, UNIT, vec![let_(X, TyId(99), lit(1))], None);
    assert_eq!(lower(&f), Err(LowerError::UnknownType(TyId(99))));
}

#[test]
fn return_type_mismatch_error() {
    let f = func(0, POINT, vec![let_(X, I64, lit(1))], Some(ident(X)));
    assert_eq!(lower(&f), Err(LowerError::TypeMismatch));
}

#[test]
fn int_kinds_and_names() {
    assert_eq!(IntTy::new_32(Sign::U).kind(), IntKind::U32);
    assert_eq!(IntTy::new_16(Sign::I).kind(), IntKind::I16);
    assert_eq!(IntTy::new(Sign::I, IWidth::W8).as_str(), "i8");
    assert_eq!(IntKind::U64.as_str(), "u64");
    assert_eq!(IntTy::new_64(Sign::U).size(), 8);
    assert_eq!(IntTy::new_32(Sign::I).layout().alignment, 4);
    assert_eq!(IWidth::W16.bytes(), 2);
    assert!(Ty::Int(IntTy::new_8(Sign::U)).is_int());
    assert!(!Ty::Unit.is_int());
    assert_eq!(Ty::Struct(StructId(3)).expect_struct(), StructId(3));
    assert_eq!(Ty::Int(IntTy::new_8(Sign::I)).expect_int(), IntTy::new_8(Sign::I));
}

#[test]
fn struct_field_queries() {
    let tys = store();
    let line = tys.strukt(StructId(1));
    assert_eq!(line.get_field_ty(B_FIELD), Some(POINT));
    assert_eq!(line.get_field_ty(X), None);
    assert_eq!(line.field_ty(A_FIELD), POINT);
    assert_eq!(line.field_offset(tys.fields(StructId(1)), B_FIELD), 16);
    assert_eq!(tys.fields(StructId(0)).get(Y), Some((I64, 8)));
    assert_eq!(tys.ty(POINT), Some(Ty::Struct(StructId(0))));
    assert_eq!(tys.ty(TyId(40)), None);
    assert_eq!(tys.size(Ty::Struct(StructId(1))), 32);
    assert_eq!(OffsetVar::zero(Var(2)), OffsetVar::new(Var(2), 0));
}

#[test]
fn store_well_formedness() {
    assert!(store().is_wf());
    let mut bad_offset = store();
    bad_offset.layouts[0].fields[1].2 = 12;
    assert!(!bad_offset.is_wf());
    let mut bad_struct = store();
    bad_struct.tys.push(Ty::Struct(StructId(7)));
    assert!(!bad_struct.is_wf());
    let mut overlapping = store();
    overlapping.layouts[1].fields[1].2 = 8;
    overlapping.layouts[1].size = 24;
    assert!(!overlapping.is_wf());
    let mut repeated_name = store();
    repeated_name.layouts[0].fields[1].0 = X;
    assert!(!repeated_name.is_wf());
    let mut bad_field_ty = store();
    bad_field_ty.layouts[1].fields[0].1 = TyId(30);
    assert!(!bad_field_ty.is_wf());
}

#[test]
fn call_results_arrive_in_register_a() {
    assert_eq!(pebblec::air::RET_REG, Reg::A);
    let f = func(0, UNIT, vec![let_(P, POINT, Expr::Call(sig(11, POINT)))], None);
    assert_eq!(
        lower(&f).unwrap().instrs[1..],
        [
            Air::Call(sig(11, POINT)),
            Air::Addr(Reg::B, at(0, 0)),
            Air::MemCpy { dst: Reg::B, src: Reg::A, bytes: 16 },
            Air::Ret,
        ]
    );
}
