//! Value snapshots, lowering, and the constant-function call path of the
//! assembler.

use rune_core::assembler::AsmScopes;
use rune_core::assembler::Assembler;
use rune_core::assembler::Assembly;
use rune_core::assembler::Context;
use rune_core::assembler::Loops;
use rune_core::assembler::QueryConstFn;
use rune_core::error::CompileErrorKind;
use rune_core::hir::expr;
use rune_core::hir::Hir;
use rune_core::hir::HirKind;
use rune_core::ir::IrBinaryOp;
use rune_core::ir::IrFn;
use rune_core::ir::IrKind;
use rune_core::ir::IrTarget;
use rune_core::ir::IrTargetKind;
use rune_core::meta::ItemMeta;
use rune_core::meta::Meta;
use rune_core::meta::MetaKind;
use rune_core::meta::MetaVisibility;
use rune_core::pool::Pool;
use rune_core::query::Query;
use rune_core::span::Span;
use rune_core::value::ConstValue;
use rune_core::value::IrValue;
use rune_core::visitor::NoopCompileVisitor;
use rune_core::warning::Diagnostics;

fn sp() -> Span {
    Span { start: 0, end: 0 }
}

fn hir(kind: HirKind) -> Hir {
    Hir { span: sp(), kind }
}

#[test]
fn working_values_snapshot_to_equal_constants() {
    let v = IrValue::Object(vec![
        ("a".to_string(), IrValue::Vector(vec![IrValue::Integer(1), IrValue::Bool(true)])),
        ("b".to_string(), IrValue::Str("hi".to_string())),
    ]);
    let c = v.into_const();
    assert_eq!(
        c,
        ConstValue::Object(vec![
            (
                "a".to_string(),
                ConstValue::Vector(vec![ConstValue::Integer(1), ConstValue::Bool(true)])
            ),
            ("b".to_string(), ConstValue::Str("hi".to_string())),
        ])
    );
    // Lifting the snapshot back gives the working value again.
    assert_eq!(IrValue::from_const(&c), v);
    assert_eq!(v.duplicate(), v);
    assert_eq!(c.duplicate(), c);
}

#[test]
fn lowering_maps_each_shape_to_one_ir_shape() {
    let lowered = expr(&hir(HirKind::Literal(ConstValue::Integer(3))));
    assert!(matches!(lowered.kind, IrKind::Value(ConstValue::Integer(3))));

    let lowered = expr(&hir(HirKind::Variable("x".to_string())));
    match lowered.kind {
        IrKind::Target(IrTarget { kind: IrTargetKind::Name(n), .. }) => assert_eq!(n, "x"),
        other => panic!("expected a name read, got {:?}", other),
    }

    let lowered = expr(&hir(HirKind::Binary(
        IrBinaryOp::Add,
        Box::new(hir(HirKind::Literal(ConstValue::Integer(1)))),
        Box::new(hir(HirKind::Literal(ConstValue::Integer(2)))),
    )));
    assert!(matches!(lowered.kind, IrKind::Binary(IrBinaryOp::Add, _, _)));

    let lowered = expr(&hir(HirKind::NonConst));
    assert!(matches!(lowered.kind, IrKind::NotConstExpr));

    // Assigning through something that names no place has no constant
    // meaning.
    let lowered = expr(&hir(HirKind::Assign(
        Box::new(hir(HirKind::Literal(ConstValue::Integer(1)))),
        Box::new(hir(HirKind::Literal(ConstValue::Integer(2)))),
    )));
    assert!(matches!(lowered.kind, IrKind::NotConstExpr));

    let lowered = expr(&hir(HirKind::FieldAccess(
        Box::new(hir(HirKind::Variable("o".to_string()))),
        "f".to_string(),
    )));
    assert!(matches!(
        lowered.kind,
        IrKind::Target(IrTarget { kind: IrTargetKind::Field(_, _), .. })
    ));
}

fn assembler_with(q: Query) -> Assembler<NoopCompileVisitor> {
    Assembler {
        source_id: 0,
        context: Context::new(),
        q,
        assembly: Assembly::new(),
        scopes: AsmScopes::new(),
        contexts: Vec::new(),
        loops: Loops::new(),
        diagnostics: Diagnostics::new(),
        visitor: NoopCompileVisitor::new(),
    }
}

fn item_meta(item: usize) -> ItemMeta {
    ItemMeta { item, module: item, visibility: MetaVisibility::Public, source_id: 0 }
}

#[test]
fn call_const_fn_evaluates_arguments_in_the_caller() {
    let mut pool = Pool::new();
    let caller = pool.intern(vec!["main".to_string()]);
    let callee = pool.intern(vec!["add2".to_string()]);
    let q = Query::new(pool);
    let mut a = assembler_with(q);
    let const_fn = QueryConstFn {
        ir_fn: IrFn {
            args: vec!["x".to_string()],
            ir: rune_core::ir::Ir {
                span: sp(),
                kind: IrKind::Binary(
                    IrBinaryOp::Add,
                    Box::new(rune_core::ir::Ir {
                        span: sp(),
                        kind: IrKind::Target(IrTarget {
                            span: sp(),
                            kind: IrTargetKind::Name("x".to_string()),
                        }),
                    }),
                    Box::new(rune_core::ir::Ir {
                        span: sp(),
                        kind: IrKind::Value(ConstValue::Integer(2)),
                    }),
                ),
            },
        },
        item_meta: item_meta(callee),
    };
    let meta = Meta { item_meta: item_meta(callee), parameters: 0, kind: MetaKind::Fn };
    let args = vec![hir(HirKind::Literal(ConstValue::Integer(40)))];
    let from = item_meta(caller);
    let r = a.call_const_fn(sp(), &meta, &from, &const_fn, &args).unwrap();
    assert_eq!(r, ConstValue::Integer(42));
}

#[test]
fn call_const_fn_rejects_a_wrong_argument_count() {
    let mut pool = Pool::new();
    let caller = pool.intern(vec!["main".to_string()]);
    let callee = pool.intern(vec!["id".to_string()]);
    let q = Query::new(pool);
    let mut a = assembler_with(q);
    let const_fn = QueryConstFn {
        ir_fn: IrFn {
            args: vec!["x".to_string()],
            ir: rune_core::ir::Ir {
                span: sp(),
                kind: IrKind::Value(ConstValue::Unit),
            },
        },
        item_meta: item_meta(callee),
    };
    let meta = Meta { item_meta: item_meta(callee), parameters: 0, kind: MetaKind::Fn };
    let from = item_meta(caller);
    let err = a.call_const_fn(sp(), &meta, &from, &const_fn, &vec![]).unwrap_err();
    match err.kind {
        CompileErrorKind::UnsupportedArgumentCount { expected, actual, .. } => {
            assert_eq!(expected, 1);
            assert_eq!(actual, 0);
        },
        other => panic!("expected an argument-count error, got {:?}", other),
    }
}
