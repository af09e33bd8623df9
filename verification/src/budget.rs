//! The evaluation budget: a step counter bounding the work one constant
//! evaluation may perform.

use vstd::prelude::*;

use crate::error::IrError;
use crate::error::IrErrorKind;
use crate::span::Span;

verus! {

/// The number of steps granted to a user-invoked constant function call.
pub const DEFAULT_BUDGET: usize = 1000000;

/// A budget dictating the number of evaluations the compiler is allowed to
/// do.
pub struct IrBudget {
    budget: usize,
}

impl IrBudget {
    /// The steps left.
    pub closed spec fn remaining(&self) -> nat {
        self.budget as nat
    }

    /// Construct a new constant evaluation budget with the given
    /// constraint.
    pub fn new(budget: usize) -> (r: IrBudget)
        ensures
            r.remaining() == budget,
    {
        IrBudget { budget }
    }

    /// Take an item from the budget. Errors exactly when the budget is
    /// exhausted, and leaves it exhausted then.
    pub fn take(&mut self, span: Span) -> (r: Result<(), IrError>)
        ensures
            old(self).remaining() == 0 ==> (r matches Err(e) && e == (IrError {
                span,
                kind: IrErrorKind::BudgetExceeded,
            }) && final(self).remaining() == 0),
            old(self).remaining() > 0 ==> r is Ok && final(self).remaining() == old(
                self,
            ).remaining() - 1,
    {
        if self.budget == 0 {
            return Err(IrError::new(span, IrErrorKind::BudgetExceeded));
        }
        self.budget = self.budget - 1;
        Ok(())
    }
}

} // verus!
