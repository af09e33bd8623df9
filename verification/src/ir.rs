//! The intermediate representation consumed by the constant evaluator.
//!
//! Each node carries the span of the source expression it was lowered from,
//! so every evaluation error can point back into the source.

use vstd::prelude::*;

use crate::span::Span;
use crate::value::ConstValue;

verus! {

/// A place expression: the left-hand side of an assignment or mutation.
#[derive(Debug)]
pub struct IrTarget {
    /// The span of the place expression.
    pub span: Span,
    /// The shape of the place.
    pub kind: IrTargetKind,
}

/// The shape of a place expression.
#[derive(Debug)]
pub enum IrTargetKind {
    /// A named local variable.
    Name(String),
    /// A field of an object place.
    Field(Box<IrTarget>, String),
    /// A numeric index into a vector or tuple place.
    Index(Box<IrTarget>, usize),
}

/// A binary operation over constant values.
#[derive(Debug, Clone, Copy, PartialEq, Eq, Structural)]
pub enum IrBinaryOp {
    /// Checked addition.
    Add,
    /// Checked subtraction.
    Sub,
    /// Checked multiplication.
    Mul,
    /// Checked division.
    Div,
    /// Strictly less.
    Lt,
    /// Less or equal.
    Lte,
    /// Strictly greater.
    Gt,
    /// Greater or equal.
    Gte,
    /// Equality.
    Eq,
}

/// A compound-assignment operation applied through a place.
#[derive(Debug, Clone, Copy, PartialEq, Eq, Structural)]
pub enum IrAssignOp {
    /// Checked addition.
    Add,
    /// Checked subtraction.
    Sub,
    /// Checked multiplication.
    Mul,
    /// Checked division.
    Div,
}

/// One node of the reduced tree consumed by the constant evaluator.
#[derive(Debug)]
pub struct Ir {
    /// The span of the source expression this node was lowered from.
    pub span: Span,
    /// The shape of the node.
    pub kind: IrKind,
}

/// The shape of an IR node.
#[derive(Debug)]
pub enum IrKind {
    /// A literal constant value.
    Value(ConstValue),
    /// A read of a place.
    Target(IrTarget),
    /// Declaration of a local variable in the innermost scope.
    Let(String, Box<Ir>),
    /// Assignment to a place; yields unit.
    Assign(IrTarget, Box<Ir>),
    /// Compound mutation of a place; yields unit.
    Modify(IrTarget, IrAssignOp, Box<Ir>),
    /// A binary operation.
    Binary(IrBinaryOp, Box<Ir>, Box<Ir>),
    /// A block: statements followed by an optional tail expression.
    Block(Vec<Ir>, Option<Box<Ir>>),
    /// A conditional with an optional alternative.
    If(Box<Ir>, Box<Ir>, Option<Box<Ir>>),
    /// A loop, run until a break escapes it.
    Loop(Box<Ir>),
    /// A break with an optional value.
    Break(Option<Box<Ir>>),
    /// A call of a constant function found by name resolution.
    Call(String, Vec<Ir>),
    /// A vector literal.
    Vector(Vec<Ir>),
    /// A tuple literal.
    Tuple(Vec<Ir>),
    /// An object literal.
    Object(Vec<(String, Ir)>),
    /// A lowered construct that has no constant meaning.
    NotConstExpr,
}

/// The reduced form of a user-defined constant function.
#[derive(Debug)]
pub struct IrFn {
    /// The argument names, in declaration order.
    pub args: Vec<String>,
    /// The reduced body.
    pub ir: Ir,
}


/// The number of nodes of an IR tree.
pub open spec fn ir_size(ir: Ir) -> nat
    decreases ir,
{
    1 + match ir.kind {
        IrKind::Value(_) => 0,
        IrKind::Target(_) => 0,
        IrKind::Let(_, e) => ir_size(*e),
        IrKind::Assign(_, e) => ir_size(*e),
        IrKind::Modify(_, _, e) => ir_size(*e),
        IrKind::Binary(_, a, b) => ir_size(*a) + ir_size(*b),
        IrKind::Block(stmts, tail) => ir_list_size(stmts@) + match tail {
            Some(t) => ir_size(*t),
            None => 0,
        },
        IrKind::If(c, t, e) => ir_size(*c) + ir_size(*t) + match e {
            Some(e) => ir_size(*e),
            None => 0,
        },
        IrKind::Loop(b) => ir_size(*b),
        IrKind::Break(v) => match v {
            Some(v) => ir_size(*v),
            None => 0,
        },
        IrKind::Call(_, args) => ir_list_size(args@),
        IrKind::Vector(items) => ir_list_size(items@),
        IrKind::Tuple(items) => ir_list_size(items@),
        IrKind::Object(entries) => ir_entry_list_size(entries@),
        IrKind::NotConstExpr => 0,
    }
}

/// The number of nodes of a list of IR trees.
pub open spec fn ir_list_size(s: Seq<Ir>) -> nat
    decreases s,
{
    if s.len() == 0 {
        0
    } else {
        ir_list_size(s.drop_last()) + ir_size(s.last())
    }
}

/// The number of nodes of the values of an object literal.
pub open spec fn ir_entry_list_size(s: Seq<(String, Ir)>) -> nat
    decreases s,
{
    if s.len() == 0 {
        0
    } else {
        ir_entry_list_size(s.drop_last()) + ir_size(s.last().1)
    }
}

/// Whether evaluating a tree visits every one of its nodes: true of the
/// constructor fragment, whose evaluation never branches or stops early
/// except when the budget runs out.
pub open spec fn ir_total(ir: Ir) -> bool
    decreases ir,
{
    match ir.kind {
        IrKind::Value(_) => true,
        IrKind::Vector(items) => ir_list_total(items@),
        IrKind::Tuple(items) => ir_list_total(items@),
        _ => false,
    }
}

/// Whether every tree of a list is total.
pub open spec fn ir_list_total(s: Seq<Ir>) -> bool
    decreases s,
{
    if s.len() == 0 {
        true
    } else {
        ir_list_total(s.drop_last()) && ir_total(s.last())
    }
}

/// A list is total exactly when each of its trees is.
pub proof fn lemma_ir_list_total(s: Seq<Ir>)
    requires
        ir_list_total(s),
    ensures
        forall|i: int| 0 <= i < s.len() ==> ir_total(s[i]),
    decreases s,
{
    if s.len() > 0 {
        lemma_ir_list_total(s.drop_last());
        assert forall|i: int| 0 <= i < s.len() implies ir_total(s[i]) by {
            if i < s.len() - 1 {
                assert(s.drop_last()[i] == s[i]);
                assert(ir_total(s.drop_last()[i]));
            }
        }
    }
}

/// The size of a list splits around any position.
pub proof fn lemma_ir_list_size_split(s: Seq<Ir>, i: int)
    requires
        0 <= i <= s.len(),
    ensures
        ir_list_size(s) == ir_list_size(s.take(i)) + ir_list_size(s.skip(i)),
    decreases s,
{
    if i == s.len() {
        assert(s.take(i) =~= s);
        assert(s.skip(i) =~= Seq::<Ir>::empty());
    } else {
        lemma_ir_list_size_split(s.drop_last(), i);
        assert(s.take(i) =~= s.drop_last().take(i));
        assert(s.skip(i).drop_last() =~= s.drop_last().skip(i));
        assert(s.skip(i).last() == s.last());
        assert(s.skip(i).len() > 0);
        assert(ir_list_size(s.skip(i)) == ir_list_size(s.drop_last().skip(i)) + ir_size(
            s.last(),
        ));
    }
}

/// One step of a left-to-right walk over a list's sizes.
pub proof fn lemma_ir_list_size_step(s: Seq<Ir>, i: int)
    requires
        0 <= i < s.len(),
    ensures
        ir_list_size(s.take(i + 1)) == ir_list_size(s.take(i)) + ir_size(s[i]),
{
    assert(s.take(i + 1).drop_last() =~= s.take(i));
    assert(s.take(i + 1).last() == s[i]);
    assert(s.take(i + 1).len() > 0);
}


/// The number of components of a place expression.
pub open spec fn target_size(t: IrTarget) -> nat
    decreases t,
{
    match t.kind {
        IrTargetKind::Name(_) => 1,
        IrTargetKind::Field(inner, _) => 1 + target_size(*inner),
        IrTargetKind::Index(inner, _) => 1 + target_size(*inner),
    }
}

} // verus!
