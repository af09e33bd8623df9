//! Lowering of typed HIR expressions into the reduced trees consumed by the
//! constant evaluator. Each HIR shape maps to exactly one IR shape; a
//! construct with no constant meaning lowers to a node that fails at
//! evaluation rather than at lowering.

use vstd::prelude::*;

use crate::ir::Ir;
use crate::ir::IrAssignOp;
use crate::ir::IrBinaryOp;
use crate::ir::IrKind;
use crate::ir::IrTarget;
use crate::ir::IrTargetKind;
use crate::span::Span;
use crate::value::ConstValue;

verus! {

/// A typed, name-resolved expression, as far as constant lowering reads it.
#[derive(Debug)]
pub struct Hir {
    /// The span of the expression.
    pub span: Span,
    /// The shape of the expression.
    pub kind: HirKind,
}

/// The shape of a HIR expression.
#[derive(Debug)]
pub enum HirKind {
    /// A literal.
    Literal(ConstValue),
    /// A named variable or constant.
    Variable(String),
    /// A field access.
    FieldAccess(Box<Hir>, String),
    /// A numeric index access.
    IndexAccess(Box<Hir>, usize),
    /// A let binding.
    Let(String, Box<Hir>),
    /// An assignment to a place.
    Assign(Box<Hir>, Box<Hir>),
    /// A compound assignment to a place.
    Modify(Box<Hir>, IrAssignOp, Box<Hir>),
    /// A binary operation.
    Binary(IrBinaryOp, Box<Hir>, Box<Hir>),
    /// A block of statements with an optional tail expression.
    Block(Vec<Hir>, Option<Box<Hir>>),
    /// A conditional.
    If(Box<Hir>, Box<Hir>, Option<Box<Hir>>),
    /// A loop.
    Loop(Box<Hir>),
    /// A break with an optional value.
    Break(Option<Box<Hir>>),
    /// A call of a known constant function.
    CallConstFn(String, Vec<Hir>),
    /// A vector literal.
    Vector(Vec<Hir>),
    /// A tuple literal.
    Tuple(Vec<Hir>),
    /// An object literal.
    Object(Vec<(String, Hir)>),
    /// A side-effecting or otherwise non-constant construct.
    NonConst,
}


/// Whether an expression names a place: a variable, or a chain of field
/// and index accesses rooted at one.
pub open spec fn is_place(h: Hir) -> bool
    decreases h,
{
    match h.kind {
        HirKind::Variable(_) => true,
        HirKind::FieldAccess(inner, _) => is_place(*inner),
        HirKind::IndexAccess(inner, _) => is_place(*inner),
        _ => false,
    }
}

/// The lowering relation on places: the target mirrors the access chain,
/// component by component, keeping names, indices and spans.
pub open spec fn lowers_target(h: Hir, t: IrTarget) -> bool
    decreases h,
{
    &&& t.span == h.span
    &&& match h.kind {
        HirKind::Variable(n) => t.kind matches IrTargetKind::Name(m) && m@ == n@,
        HirKind::FieldAccess(inner, f) => t.kind matches IrTargetKind::Field(it, g) && g@ == f@
            && lowers_target(*inner, *it),
        HirKind::IndexAccess(inner, i) => t.kind matches IrTargetKind::Index(it, j) && j == i
            && lowers_target(*inner, *it),
        _ => false,
    }
}

/// The lowering relation: the IR tree mirrors the HIR tree shape by shape,
/// child by child. An assignment or mutation through something that names
/// no place, and a construct with no constant meaning, lowers to the
/// not-constant node.
pub open spec fn lowers(h: Hir, r: Ir) -> bool
    decreases h,
{
    &&& r.span == h.span
    &&& match h.kind {
        HirKind::Literal(c) => r.kind matches IrKind::Value(v) && v@ == c@,
        HirKind::Variable(_) => r.kind matches IrKind::Target(t) && lowers_target(h, t),
        HirKind::FieldAccess(_, _) => if is_place(h) {
            r.kind matches IrKind::Target(t) && lowers_target(h, t)
        } else {
            r.kind matches IrKind::NotConstExpr
        },
        HirKind::IndexAccess(_, _) => if is_place(h) {
            r.kind matches IrKind::Target(t) && lowers_target(h, t)
        } else {
            r.kind matches IrKind::NotConstExpr
        },
        HirKind::Let(n, init) => r.kind matches IrKind::Let(m, e) && m@ == n@ && lowers(
            *init,
            *e,
        ),
        HirKind::Assign(lhs, rhs) => if is_place(*lhs) {
            r.kind matches IrKind::Assign(t, e) && lowers_target(*lhs, t) && lowers(*rhs, *e)
        } else {
            r.kind matches IrKind::NotConstExpr
        },
        HirKind::Modify(lhs, op, rhs) => if is_place(*lhs) {
            r.kind matches IrKind::Modify(t, p, e) && p == op && lowers_target(*lhs, t)
                && lowers(*rhs, *e)
        } else {
            r.kind matches IrKind::NotConstExpr
        },
        HirKind::Binary(op, a, b) => r.kind matches IrKind::Binary(p, x, y) && p == op && lowers(
            *a,
            *x,
        ) && lowers(*b, *y),
        HirKind::Block(stmts, tail) => r.kind matches IrKind::Block(s, t) && lowers_list(
            stmts@,
            s@,
        ) && match (tail, t) {
            (Some(h2), Some(i2)) => lowers(*h2, *i2),
            (None, None) => true,
            _ => false,
        },
        HirKind::If(c, th, e) => r.kind matches IrKind::If(x, y, z) && lowers(*c, *x) && lowers(
            *th,
            *y,
        ) && match (e, z) {
            (Some(h2), Some(i2)) => lowers(*h2, *i2),
            (None, None) => true,
            _ => false,
        },
        HirKind::Loop(b) => r.kind matches IrKind::Loop(x) && lowers(*b, *x),
        HirKind::Break(v) => r.kind matches IrKind::Break(w) && match (v, w) {
            (Some(h2), Some(i2)) => lowers(*h2, *i2),
            (None, None) => true,
            _ => false,
        },
        HirKind::CallConstFn(n, args) => r.kind matches IrKind::Call(m, a) && m@ == n@
            && lowers_list(args@, a@),
        HirKind::Vector(items) => r.kind matches IrKind::Vector(a) && lowers_list(items@, a@),
        HirKind::Tuple(items) => r.kind matches IrKind::Tuple(a) && lowers_list(items@, a@),
        HirKind::Object(entries) => r.kind matches IrKind::Object(a) && lowers_entries(
            entries@,
            a@,
        ),
        HirKind::NonConst => r.kind matches IrKind::NotConstExpr,
    }
}

/// The lowering relation on lists, position by position.
pub open spec fn lowers_list(hs: Seq<Hir>, irs: Seq<Ir>) -> bool
    decreases hs,
{
    &&& hs.len() == irs.len()
    &&& hs.len() > 0 ==> lowers_list(hs.drop_last(), irs.drop_last()) && lowers(
        hs.last(),
        irs.last(),
    )
}

/// The lowering relation on object entries: keys kept, values lowered.
pub open spec fn lowers_entries(hs: Seq<(String, Hir)>, irs: Seq<(String, Ir)>) -> bool
    decreases hs,
{
    &&& hs.len() == irs.len()
    &&& hs.len() > 0 ==> lowers_entries(hs.drop_last(), irs.drop_last()) && hs.last().0@
        == irs.last().0@ && lowers(hs.last().1, irs.last().1)
}

/// Lower a place expression. Only a variable, a field access or an index
/// access names a place; anything else has no constant meaning as a target.
fn target_of(h: &Hir) -> (r: Option<IrTarget>)
    ensures
        r is Some <==> is_place(*h),
        r matches Some(t) ==> lowers_target(*h, t),
        h.kind matches HirKind::Variable(n) ==> (r matches Some(t) && t.span == h.span && (t.kind
            matches IrTargetKind::Name(m) && m@ == n@)),
        h.kind matches HirKind::FieldAccess(_, f) ==> (r is Some ==> (r matches Some(t) && t.span
            == h.span && (t.kind matches IrTargetKind::Field(_, g) && g@ == f@))),
        h.kind matches HirKind::IndexAccess(_, i) ==> (r is Some ==> (r matches Some(t) && t.span
            == h.span && (t.kind matches IrTargetKind::Index(_, j) && j == i))),
        !(h.kind matches HirKind::Variable(_) || h.kind matches HirKind::FieldAccess(_, _)
            || h.kind matches HirKind::IndexAccess(_, _)) ==> r is None,
    decreases h,
{
    match &h.kind {
        HirKind::Variable(n) => Some(
            IrTarget { span: h.span, kind: IrTargetKind::Name(n.clone()) },
        ),
        HirKind::FieldAccess(inner, f) => match target_of(inner) {
            Some(t) => Some(
                IrTarget { span: h.span, kind: IrTargetKind::Field(Box::new(t), f.clone()) },
            ),
            None => None,
        },
        HirKind::IndexAccess(inner, i) => match target_of(inner) {
            Some(t) => Some(
                IrTarget { span: h.span, kind: IrTargetKind::Index(Box::new(t), *i) },
            ),
            None => None,
        },
        _ => None,
    }
}

/// Lower a list of HIR expressions, in order.
fn exprs(list: &Vec<Hir>) -> (r: Vec<Ir>)
    ensures
        r@.len() == list@.len(),
        lowers_list(list@, r@),
    decreases list,
{
    let mut out: Vec<Ir> = Vec::new();
    let mut i: usize = 0;
    proof {
        assert(list@.take(0) =~= Seq::<Hir>::empty());
        assert(out@ =~= Seq::<Ir>::empty());
    }
    while i < list.len()
        invariant
            i <= list@.len(),
            out@.len() == i,
            lowers_list(list@.take(i as int), out@),
        decreases list@.len() - i,
    {
        let lowered = expr(&list[i]);
        let ghost out0 = out@;
        out.push(lowered);
        proof {
            assert(list@.take(i + 1).drop_last() =~= list@.take(i as int));
            assert(out@.drop_last() =~= out0);
            assert(list@.take(i + 1).last() == list@[i as int]);
        }
        i = i + 1;
    }
    proof {
        assert(list@.take(list@.len() as int) =~= list@);
    }
    out
}

/// Lower the entries of an object literal, in order, keeping the keys.
fn entry_exprs(list: &Vec<(String, Hir)>) -> (r: Vec<(String, Ir)>)
    ensures
        r@.len() == list@.len(),
        forall|j: int| 0 <= j < list@.len() ==> #[trigger] r@[j].0@ == list@[j].0@,
        lowers_entries(list@, r@),
    decreases list,
{
    let mut out: Vec<(String, Ir)> = Vec::new();
    let mut i: usize = 0;
    proof {
        assert(list@.take(0) =~= Seq::<(String, Hir)>::empty());
        assert(out@ =~= Seq::<(String, Ir)>::empty());
    }
    while i < list.len()
        invariant
            i <= list@.len(),
            out@.len() == i,
            forall|j: int| 0 <= j < i ==> #[trigger] out@[j].0@ == list@[j].0@,
            lowers_entries(list@.take(i as int), out@),
        decreases list@.len() - i,
    {
        let key = list[i].0.clone();
        let v = expr(&list[i].1);
        let ghost out0 = out@;
        out.push((key, v));
        proof {
            assert(list@.take(i + 1).drop_last() =~= list@.take(i as int));
            assert(out@.drop_last() =~= out0);
            assert(list@.take(i + 1).last() == list@[i as int]);
        }
        i = i + 1;
    }
    proof {
        assert(list@.take(list@.len() as int) =~= list@);
    }
    out
}

/// Lower one HIR expression into the IR tree the constant evaluator
/// consumes. Each shape maps to exactly one IR shape; the lowered node
/// keeps the expression's span. An assignment through something that names
/// no place, and any construct with no constant meaning, lowers to the
/// not-constant node, which fails at evaluation.
pub fn expr(h: &Hir) -> (r: Ir)
    ensures
        lowers(*h, r),
        r.span == h.span,
        h.kind matches HirKind::Literal(c) ==> (r.kind matches IrKind::Value(v) && v@ == c@),
        h.kind matches HirKind::Variable(n) ==> (r.kind matches IrKind::Target(t) && (t.kind
            matches IrTargetKind::Name(m) && m@ == n@)),
        h.kind matches HirKind::FieldAccess(_, _) ==> (r.kind matches IrKind::Target(t) || r.kind
            matches IrKind::NotConstExpr),
        h.kind matches HirKind::IndexAccess(_, _) ==> (r.kind matches IrKind::Target(t) || r.kind
            matches IrKind::NotConstExpr),
        h.kind matches HirKind::Let(n, _) ==> (r.kind matches IrKind::Let(m, _) && m@ == n@),
        h.kind matches HirKind::Assign(_, _) ==> (r.kind matches IrKind::Assign(_, _) || r.kind
            matches IrKind::NotConstExpr),
        h.kind matches HirKind::Modify(_, op, _) ==> ((r.kind matches IrKind::Modify(_, p, _) && p
            == op) || r.kind matches IrKind::NotConstExpr),
        h.kind matches HirKind::Binary(op, _, _) ==> (r.kind matches IrKind::Binary(p, _, _) && p
            == op),
        h.kind matches HirKind::Block(stmts, tail) ==> (r.kind matches IrKind::Block(s, t)
            && s@.len() == stmts@.len() && (t is Some <==> tail is Some)),
        h.kind matches HirKind::If(_, _, e) ==> (r.kind matches IrKind::If(_, _, f) && (f is Some
            <==> e is Some)),
        h.kind matches HirKind::Loop(_) ==> r.kind matches IrKind::Loop(_),
        h.kind matches HirKind::Break(v) ==> (r.kind matches IrKind::Break(w) && (w is Some <==> v
            is Some)),
        h.kind matches HirKind::CallConstFn(n, args) ==> (r.kind matches IrKind::Call(m, a) && m@
            == n@ && a@.len() == args@.len()),
        h.kind matches HirKind::Vector(items) ==> (r.kind matches IrKind::Vector(a) && a@.len()
            == items@.len()),
        h.kind matches HirKind::Tuple(items) ==> (r.kind matches IrKind::Tuple(a) && a@.len()
            == items@.len()),
        h.kind matches HirKind::Object(entries) ==> (r.kind matches IrKind::Object(a) && a@.len()
            == entries@.len() && forall|j: int|
            0 <= j < a@.len() ==> #[trigger] a@[j].0@ == entries@[j].0@),
        h.kind matches HirKind::NonConst ==> r.kind matches IrKind::NotConstExpr,
    decreases h,
{
    let span = h.span;
    match &h.kind {
        HirKind::Literal(c) => Ir { span, kind: IrKind::Value(c.duplicate()) },
        HirKind::Variable(_) | HirKind::FieldAccess(_, _) | HirKind::IndexAccess(_, _) => {
            match target_of(h) {
                Some(t) => Ir { span, kind: IrKind::Target(t) },
                None => Ir { span, kind: IrKind::NotConstExpr },
            }
        },
        HirKind::Let(n, init) => Ir {
            span,
            kind: IrKind::Let(n.clone(), Box::new(expr(init))),
        },
        HirKind::Assign(lhs, rhs) => match target_of(lhs) {
            Some(t) => Ir { span, kind: IrKind::Assign(t, Box::new(expr(rhs))) },
            None => Ir { span, kind: IrKind::NotConstExpr },
        },
        HirKind::Modify(lhs, op, rhs) => match target_of(lhs) {
            Some(t) => Ir { span, kind: IrKind::Modify(t, *op, Box::new(expr(rhs))) },
            None => Ir { span, kind: IrKind::NotConstExpr },
        },
        HirKind::Binary(op, a, b) => Ir {
            span,
            kind: IrKind::Binary(*op, Box::new(expr(a)), Box::new(expr(b))),
        },
        HirKind::Block(stmts, tail) => {
            let out = exprs(stmts);
            let t = match tail {
                Some(t) => Some(Box::new(expr(t))),
                None => None,
            };
            Ir { span, kind: IrKind::Block(out, t) }
        },
        HirKind::If(c, t, e) => {
            let els = match e {
                Some(e) => Some(Box::new(expr(e))),
                None => None,
            };
            Ir { span, kind: IrKind::If(Box::new(expr(c)), Box::new(expr(t)), els) }
        },
        HirKind::Loop(b) => Ir { span, kind: IrKind::Loop(Box::new(expr(b))) },
        HirKind::Break(v) => {
            let w = match v {
                Some(v) => Some(Box::new(expr(v))),
                None => None,
            };
            Ir { span, kind: IrKind::Break(w) }
        },
        HirKind::CallConstFn(n, args) => {
            let out = exprs(args);
            Ir { span, kind: IrKind::Call(n.clone(), out) }
        },
        HirKind::Vector(items) => {
            let out = exprs(items);
            Ir { span, kind: IrKind::Vector(out) }
        },
        HirKind::Tuple(items) => {
            let out = exprs(items);
            Ir { span, kind: IrKind::Tuple(out) }
        },
        HirKind::Object(entries) => {
            let out = entry_exprs(entries);
            Ir { span, kind: IrKind::Object(out) }
        },
        HirKind::NonConst => Ir { span, kind: IrKind::NotConstExpr },
    }
}

} // verus!
