//! Compilation warnings. Warnings never halt compilation; they accumulate
//! and are handed over when the unit is done.

use vstd::prelude::*;

use crate::error::CompileError;
use crate::span::Span;

verus! {

/// Compilation warning.
#[derive(Debug, Clone, Copy, PartialEq, Eq)]
pub enum Warning {
    /// Item identified by the span is not used.
    NotUsed {
        /// The span that is not used.
        span: Span,
        /// The context in which the value was not used.
        context: Option<Span>,
    },
    /// Warning that an unconditional let pattern will panic if it doesn't
    /// match.
    LetPatternMightPanic {
        /// The span of the pattern.
        span: Span,
        /// The context in which it is used.
        context: Option<Span>,
    },
    /// A break that does not produce a value.
    BreakDoesNotProduceValue {
        /// The span of the break.
        span: Span,
        /// The context in which it is used.
        context: Option<Span>,
    },
    /// Encountered a template string without an expansion.
    TemplateWithoutExpansions {
        /// Span that caused the error.
        span: Span,
        /// The context in which it is used.
        context: Option<Span>,
    },
}

/// Compilation warnings, in the order they were raised.
#[derive(Debug)]
pub struct Warnings {
    warnings: Vec<Warning>,
}

impl Warnings {
    /// The warnings raised so far, in order.
    pub closed spec fn view(&self) -> Seq<Warning> {
        self.warnings@
    }

    /// Construct a new collection of compilation warnings.
    pub fn new() -> (r: Warnings)
        ensures
            r@.len() == 0,
    {
        Warnings { warnings: Vec::new() }
    }

    /// Indicate if there are warnings or not.
    pub fn is_empty(&self) -> (r: bool)
        ensures
            r == (self@.len() == 0),
    {
        self.warnings.len() == 0
    }

    /// Construct a warning indicating that the item identified by the span
    /// is not used.
    pub fn not_used(&mut self, span: Span, context: Option<Span>)
        ensures
            final(self)@ == old(self)@.push(Warning::NotUsed { span, context }),
    {
        self.warnings.push(Warning::NotUsed { span, context });
    }

    /// Indicate that a pattern might panic.
    pub fn let_pattern_might_panic(&mut self, span: Span, context: Option<Span>)
        ensures
            final(self)@ == old(self)@.push(Warning::LetPatternMightPanic { span, context }),
    {
        self.warnings.push(Warning::LetPatternMightPanic { span, context });
    }

    /// Indicate that a break expression is being used in a value
    /// expression.
    pub fn break_does_not_produce_value(&mut self, span: Span, context: Option<Span>)
        ensures
            final(self)@ == old(self)@.push(
                Warning::BreakDoesNotProduceValue { span, context },
            ),
    {
        self.warnings.push(Warning::BreakDoesNotProduceValue { span, context });
    }

    /// Indicate that we encountered a template string without any expansion
    /// groups.
    pub fn template_without_expansions(&mut self, span: Span, context: Option<Span>)
        ensures
            final(self)@ == old(self)@.push(
                Warning::TemplateWithoutExpansions { span, context },
            ),
    {
        self.warnings.push(Warning::TemplateWithoutExpansions { span, context });
    }

    /// Hand the warnings over, in the order they were raised.
    pub fn into_vec(self) -> (r: Vec<Warning>)
        ensures
            r@ == self@,
    {
        self.warnings
    }
}

/// Accumulated warnings and errors of one compilation. Warnings never halt
/// compilation; an error aborts the item it arose in.
#[derive(Debug)]
pub struct Diagnostics {
    /// The warnings raised so far.
    pub warnings: Warnings,
    /// The errors raised so far.
    pub errors: Vec<CompileError>,
}

impl Diagnostics {
    /// An empty set of diagnostics.
    pub fn new() -> (r: Diagnostics)
        ensures
            r.warnings@.len() == 0,
            r.errors@.len() == 0,
    {
        Diagnostics { warnings: Warnings::new(), errors: Vec::new() }
    }

    /// Whether any error was raised.
    pub fn has_errors(&self) -> (r: bool)
        ensures
            r == (self.errors@.len() != 0),
    {
        self.errors.len() != 0
    }

    /// Record an error.
    pub fn error(&mut self, e: CompileError)
        ensures
            final(self).errors@ == old(self).errors@.push(e),
            final(self).warnings == old(self).warnings,
    {
        self.errors.push(e);
    }
}

} // verus!
