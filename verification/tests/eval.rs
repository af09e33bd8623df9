//! Constant evaluation: caching, cycles, budgets, calls and targets.

use rune_core::error::IrErrorKind;
use rune_core::interp::IrInterpreter;
use rune_core::ir::Ir;
use rune_core::ir::IrAssignOp;
use rune_core::ir::IrBinaryOp;
use rune_core::ir::IrFn;
use rune_core::ir::IrKind;
use rune_core::ir::IrTarget;
use rune_core::ir::IrTargetKind;
use rune_core::pool::Pool;
use rune_core::query::Query;
use rune_core::query::Used;
use rune_core::span::Span;
use rune_core::value::ConstValue;
use rune_core::value::IrValue;

fn sp() -> Span {
    Span { start: 0, end: 0 }
}

fn ir(kind: IrKind) -> Ir {
    Ir { span: sp(), kind }
}

fn val(i: i64) -> Ir {
    ir(IrKind::Value(ConstValue::Integer(i)))
}

fn name(n: &str) -> IrTarget {
    IrTarget { span: sp(), kind: IrTargetKind::Name(n.to_string()) }
}

fn read(n: &str) -> Ir {
    ir(IrKind::Target(name(n)))
}

fn binary(op: IrBinaryOp, a: Ir, b: Ir) -> Ir {
    ir(IrKind::Binary(op, Box::new(a), Box::new(b)))
}

#[test]
fn literal_addition_is_cached() {
    let mut pool = Pool::new();
    let n = pool.intern(vec!["N".to_string()]);
    let q = Query::new(pool);
    let mut interp = IrInterpreter::new(1000, n, n);
    let tree = binary(IrBinaryOp::Add, val(40), val(2));
    let r = interp.eval_expr(&q, &tree, Used::Used).unwrap();
    assert_eq!(r, ConstValue::Integer(42));
    assert_eq!(interp.consts.get(n), Some(ConstValue::Integer(42)));
}

#[test]
fn second_evaluation_returns_cached_value() {
    let mut pool = Pool::new();
    let n = pool.intern(vec!["N".to_string()]);
    let q = Query::new(pool);
    let mut interp = IrInterpreter::new(1000, n, n);
    let first = interp
        .eval_expr(&q, &binary(IrBinaryOp::Add, val(40), val(2)), Used::Used)
        .unwrap();
    // A second call answers from the cache: equal value, and the budget is
    // untouched because the evaluator body is never re-entered.
    let second = interp.eval_expr(&q, &val(7), Used::Used).unwrap();
    assert_eq!(first, second);
    assert_eq!(second, ConstValue::Integer(42));
}

#[test]
fn const_cycle_is_detected_and_nothing_is_cached() {
    let mut pool = Pool::new();
    let a = pool.intern(vec!["A".to_string()]);
    let b = pool.intern(vec!["B".to_string()]);
    let mut q = Query::new(pool);
    q.declare_const(a, read("B"));
    q.declare_const(b, read("A"));
    let mut interp = IrInterpreter::new(1000, a, a);
    let err = interp.eval_expr(&q, &read("B"), Used::Used).unwrap_err();
    assert_eq!(err.kind, IrErrorKind::ConstCycle);
    assert!(interp.consts.get(a).is_none());
    assert!(interp.consts.get(b).is_none());
}

#[test]
fn const_fn_call_passes_argument_through() {
    let mut pool = Pool::new();
    let id_fn = pool.intern(vec!["id".to_string()]);
    let k = pool.intern(vec!["K".to_string()]);
    let mut q = Query::new(pool);
    q.declare_const_fn(id_fn, IrFn { args: vec!["x".to_string()], ir: read("x") });
    let mut interp = IrInterpreter::new(1000, k, k);
    let call = ir(IrKind::Call("id".to_string(), vec![val(7)]));
    let r = interp.eval_expr(&q, &call, Used::Used).unwrap();
    assert_eq!(r, ConstValue::Integer(7));
}

#[test]
fn recursive_const_fn_exhausts_the_budget() {
    let mut pool = Pool::new();
    let bad = pool.intern(vec!["bad".to_string()]);
    let k = pool.intern(vec!["K".to_string()]);
    let mut q = Query::new(pool);
    q.declare_const_fn(
        bad,
        IrFn { args: vec![], ir: ir(IrKind::Call("bad".to_string(), vec![])) },
    );
    // The budget bounds the evaluation of a self-recursive function; a
    // small budget keeps the recursion shallow enough to run here. A
    // user-invoked call starts with [rune_core::budget::DEFAULT_BUDGET]
    // steps.
    assert_eq!(rune_core::budget::DEFAULT_BUDGET, 1000000);
    let mut interp = IrInterpreter::new(2000, k, k);
    let call = ir(IrKind::Call("bad".to_string(), vec![]));
    let err = interp.eval_value(&q, &call, Used::Used).unwrap_err();
    assert_eq!(err.kind, IrErrorKind::BudgetExceeded);
}

#[test]
fn budget_one_short_of_node_count_is_exceeded() {
    let mut pool = Pool::new();
    let n = pool.intern(vec!["N".to_string()]);
    let q = Query::new(pool);
    // A vector literal of three values has four nodes.
    let tree = ir(IrKind::Vector(vec![val(1), val(2), val(3)]));
    let mut short = IrInterpreter::new(3, n, n);
    let err = short.eval_value(&q, &tree, Used::Used).unwrap_err();
    assert_eq!(err.kind, IrErrorKind::BudgetExceeded);
    let mut exact = IrInterpreter::new(4, n, n);
    let r = exact.eval_value(&q, &tree, Used::Used).unwrap();
    assert_eq!(
        r,
        IrValue::Vector(vec![
            IrValue::Integer(1),
            IrValue::Integer(2),
            IrValue::Integer(3)
        ])
    );
}

#[test]
fn tuple_index_of_a_constant_vector() {
    let mut pool = Pool::new();
    let v = pool.intern(vec!["V".to_string()]);
    let x = pool.intern(vec!["X".to_string()]);
    let mut q = Query::new(pool);
    q.declare_const(v, ir(IrKind::Vector(vec![val(1), val(2), val(3)])));
    let mut interp = IrInterpreter::new(1000, x, x);
    let tree = ir(IrKind::Target(IrTarget {
        span: sp(),
        kind: IrTargetKind::Index(Box::new(name("V")), 1),
    }));
    let r = interp.eval_expr(&q, &tree, Used::Used).unwrap();
    assert_eq!(r, ConstValue::Integer(2));
}

#[test]
fn break_outside_of_loop_is_reported() {
    let mut pool = Pool::new();
    let n = pool.intern(vec!["N".to_string()]);
    let q = Query::new(pool);
    let mut interp = IrInterpreter::new(1000, n, n);
    let tree = ir(IrKind::Break(None));
    let err = interp.eval_expr(&q, &tree, Used::Used).unwrap_err();
    assert_eq!(err.kind, IrErrorKind::BreakOutsideOfLoop);
}

#[test]
fn loop_with_break_produces_the_break_value() {
    let mut pool = Pool::new();
    let n = pool.intern(vec!["N".to_string()]);
    let q = Query::new(pool);
    let mut interp = IrInterpreter::new(1000, n, n);
    let tree = ir(IrKind::Loop(Box::new(ir(IrKind::Break(Some(Box::new(val(9))))))));
    let r = interp.eval_value(&q, &tree, Used::Used).unwrap();
    assert_eq!(r, IrValue::Integer(9));
}

#[test]
fn unresolved_name_is_not_const() {
    let mut pool = Pool::new();
    let n = pool.intern(vec!["N".to_string()]);
    let q = Query::new(pool);
    let mut interp = IrInterpreter::new(1000, n, n);
    let err = interp.eval_expr(&q, &read("missing"), Used::Used).unwrap_err();
    assert_eq!(err.kind, IrErrorKind::NotConst);
}

#[test]
fn division_by_zero_and_overflow_are_reported() {
    let mut pool = Pool::new();
    let n = pool.intern(vec!["N".to_string()]);
    let q = Query::new(pool);
    let mut interp = IrInterpreter::new(1000, n, n);
    let err = interp
        .eval_value(&q, &binary(IrBinaryOp::Div, val(1), val(0)), Used::Used)
        .unwrap_err();
    assert_eq!(err.kind, IrErrorKind::DivisionByZero);
    let err = interp
        .eval_value(&q, &binary(IrBinaryOp::Add, val(i64::MAX), val(1)), Used::Used)
        .unwrap_err();
    assert_eq!(err.kind, IrErrorKind::Overflow);
}

#[test]
fn condition_must_be_boolean() {
    let mut pool = Pool::new();
    let n = pool.intern(vec!["N".to_string()]);
    let q = Query::new(pool);
    let mut interp = IrInterpreter::new(1000, n, n);
    let tree = ir(IrKind::If(Box::new(val(1)), Box::new(val(2)), None));
    let err = interp.eval_value(&q, &tree, Used::Used).unwrap_err();
    assert!(matches!(err.kind, IrErrorKind::ExpectedKind { .. }));
}

#[test]
fn block_declares_and_reads_locals() {
    let mut pool = Pool::new();
    let n = pool.intern(vec!["N".to_string()]);
    let q = Query::new(pool);
    let mut interp = IrInterpreter::new(1000, n, n);
    let tree = ir(IrKind::Block(
        vec![
            ir(IrKind::Let("a".to_string(), Box::new(val(5)))),
            ir(IrKind::Modify(name("a"), IrAssignOp::Mul, Box::new(val(3)))),
        ],
        Some(Box::new(read("a"))),
    ));
    let r = interp.eval_value(&q, &tree, Used::Used).unwrap();
    assert_eq!(r, IrValue::Integer(15));
}

#[test]
fn comparison_and_equality_operators() {
    let mut pool = Pool::new();
    let n = pool.intern(vec!["N".to_string()]);
    let q = Query::new(pool);
    let mut interp = IrInterpreter::new(1000, n, n);
    let r = interp
        .eval_value(&q, &binary(IrBinaryOp::Lt, val(2), val(3)), Used::Used)
        .unwrap();
    assert_eq!(r, IrValue::Bool(true));
    let r = interp
        .eval_value(&q, &binary(IrBinaryOp::Eq, val(3), val(3)), Used::Used)
        .unwrap();
    assert_eq!(r, IrValue::Bool(true));
    let r = interp
        .eval_value(&q, &binary(IrBinaryOp::Gte, val(2), val(3)), Used::Used)
        .unwrap();
    assert_eq!(r, IrValue::Bool(false));
}

#[test]
fn wrong_argument_count_on_inner_call() {
    let mut pool = Pool::new();
    let id_fn = pool.intern(vec!["id".to_string()]);
    let k = pool.intern(vec!["K".to_string()]);
    let mut q = Query::new(pool);
    q.declare_const_fn(id_fn, IrFn { args: vec!["x".to_string()], ir: read("x") });
    let mut interp = IrInterpreter::new(1000, k, k);
    let call = ir(IrKind::Call("id".to_string(), vec![]));
    let err = interp.eval_value(&q, &call, Used::Used).unwrap_err();
    assert!(matches!(err.kind, IrErrorKind::ArgumentCountMismatch { .. }));
}
