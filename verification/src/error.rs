//! Errors raised while resolving items and evaluating constant expressions.
//!
//! Every error is a tagged sum carrying the span it arose at. Interpreter
//! errors travel through [`EvalOutcome`] and are translated at the outer
//! evaluation boundary; assembler errors surface directly.

use vstd::prelude::*;

use crate::meta::MetaInfo;
use crate::pool::ItemId;
use crate::span::Span;
use crate::value::IrValue;
use crate::value::ValueKind;

verus! {

/// Why a constant evaluation failed.
#[derive(Debug, PartialEq, Eq)]
pub enum IrErrorKind {
    /// The expression has no constant meaning.
    NotConst,
    /// A constant's value depends on itself.
    ConstCycle,
    /// The evaluation budget ran out.
    BudgetExceeded,
    /// A break escaped the outermost evaluated expression.
    BreakOutsideOfLoop,
    /// Name resolution found an item of a kind the evaluator cannot use.
    UnsupportedMeta {
        /// The offending item.
        meta: MetaInfo,
    },
    /// An object has no field of the requested name.
    MissingField {
        /// The requested field.
        field: String,
    },
    /// A vector or tuple has no slot at the requested index.
    MissingIndex {
        /// The requested index.
        index: usize,
    },
    /// A value of one kind stood where another kind was required.
    ExpectedKind {
        /// The kind that was required.
        expected: ValueKind,
        /// The kind that was found.
        actual: ValueKind,
    },
    /// No binding of the requested name is in scope.
    MissingLocal {
        /// The requested name.
        name: String,
    },
    /// The scope stack was empty where a binding had to be made.
    NoScopes,
    /// Checked integer arithmetic overflowed.
    Overflow,
    /// Division by zero.
    DivisionByZero,
    /// A constant function was called with the wrong number of arguments.
    ArgumentCountMismatch {
        /// How many arguments the function declares.
        declared: usize,
        /// How many were supplied.
        supplied: usize,
    },
}

/// An error of the constant evaluator, with the span it arose at.
#[derive(Debug, PartialEq, Eq)]
pub struct IrError {
    /// Where the error arose.
    pub span: Span,
    /// Why the evaluation failed.
    pub kind: IrErrorKind,
}

impl IrError {
    /// Construct an error.
    pub fn new(span: Span, kind: IrErrorKind) -> (r: IrError)
        ensures
            r == (IrError { span, kind }),
    {
        IrError { span, kind }
    }
}

/// How one evaluation step ends when it does not produce a value.
///
/// A `Break` can only arise from a break expression not enclosed by a loop
/// within the evaluated tree; the outer evaluation entry turns it into a
/// [`IrErrorKind::BreakOutsideOfLoop`] error.
#[derive(Debug, PartialEq, Eq)]
pub enum EvalOutcome {
    /// A hard error.
    Error(IrError),
    /// The expression at the given span has no constant meaning.
    NotConst(Span),
    /// A break, with the value it carries, escaping to the nearest loop.
    Break(Span, Option<IrValue>),
}

/// Why compilation of an item failed.
#[derive(Debug, PartialEq, Eq)]
pub enum CompileErrorKind {
    /// No meta could be found for an item.
    MissingItem {
        /// The missing item.
        item: ItemId,
    },
    /// No meta with the requested parameters could be found for an item.
    MissingItemParameters {
        /// The item.
        item: ItemId,
        /// The requested parameters hash.
        parameters: u64,
    },
    /// Two or more host registrations match the requested item equally well.
    AmbiguousContextItem {
        /// The item.
        item: ItemId,
        /// The description of every registration fetched for the item.
        infos: Vec<MetaInfo>,
    },
    /// A constant function was called with the wrong number of arguments.
    UnsupportedArgumentCount {
        /// The function.
        meta: MetaInfo,
        /// How many arguments it declares.
        expected: usize,
        /// How many were supplied.
        actual: usize,
    },
    /// Constant evaluation failed.
    Ir {
        /// The evaluation error.
        error: IrError,
    },
    /// A scope was popped with a guard that is not the one of the most
    /// recent push.
    ScopeMismatch {
        /// The depth the presented guard was made at.
        guard: usize,
        /// The depth of the stack when the pop was attempted.
        depth: usize,
    },
}

/// An error of the assembler, with the span it arose at.
#[derive(Debug, PartialEq, Eq)]
pub struct CompileError {
    /// Where the error arose.
    pub span: Span,
    /// Why compilation failed.
    pub kind: CompileErrorKind,
}

impl CompileError {
    /// Construct an error.
    pub fn new(span: Span, kind: CompileErrorKind) -> (r: CompileError)
        ensures
            r == (CompileError { span, kind }),
    {
        CompileError { span, kind }
    }
}

} // verus!
