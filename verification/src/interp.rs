//! The constant-expression interpreter: a budgeted, cycle-detecting
//! evaluator reducing IR trees to ground values.
//!
//! Every node's evaluator takes from the budget first, so one outer call
//! performs a bounded number of steps. Constants referenced by name are
//! evaluated on demand and cached; an item met again while its own
//! evaluation is still in progress is a constant cycle.

use vstd::prelude::*;

use crate::budget::IrBudget;
use crate::error::EvalOutcome;
use crate::error::IrError;
use crate::error::IrErrorKind;
use crate::ir::ir_list_size;
use crate::ir::ir_list_total;
use crate::ir::ir_size;
use crate::ir::ir_total;
use crate::ir::lemma_ir_list_size_split;
use crate::ir::lemma_ir_list_size_step;
use crate::ir::lemma_ir_list_total;
use crate::ir::Ir;
use crate::ir::IrBinaryOp;
use crate::ir::IrKind;
use crate::ir::IrTarget;
use crate::ir::IrTargetKind;
use crate::ir::target_size;
use crate::pool::ItemId;
use crate::query::Consts;
use crate::query::Query;
use crate::query::Used;
use crate::scopes::err_matches;
use crate::scopes::lookup;
use crate::scopes::obj_first;
use crate::scopes::spec_arith;
use crate::scopes::Scopes;
use crate::scopes::TargetErr;
use crate::span::Span;
use crate::value::ConstValue;
use crate::value::IrValue;
use crate::value::Val;
use crate::value::ValueKind;

verus! {

/// What every evaluation step preserves of the budget and the cache: a
/// never-growing budget, a never-shrinking set of marks, write-once cached
/// values, and no value appearing for an item whose evaluation was already
/// in progress when the step began.
pub open spec fn kept_consts(pre: IrInterpreter, post: IrInterpreter) -> bool {
    &&& post.budget.remaining() <= pre.budget.remaining()
    &&& pre.consts.marked().subset_of(post.consts.marked())
    &&& forall|k: int|
        pre.consts.values().contains_key(k) ==> #[trigger] post.consts.values().contains_key(k)
            && post.consts.values()[k] == pre.consts.values()[k]
    &&& forall|k: int|
        pre.consts.marked().contains(k) && !pre.consts.values().contains_key(k)
            ==> !(#[trigger] post.consts.values().contains_key(k))
}

/// What a whole evaluation step preserves: the budget and cache relations,
/// and the item and module the interpreter stands at.
pub open spec fn kept(pre: IrInterpreter, post: IrInterpreter) -> bool {
    &&& kept_consts(pre, post)
    &&& post.item == pre.item
    &&& post.module == pre.module
}

/// The budget and cache relations are transitive.
pub proof fn lemma_kept_consts_trans(a: IrInterpreter, b: IrInterpreter, c: IrInterpreter)
    requires
        kept_consts(a, b),
        kept_consts(b, c),
    ensures
        kept_consts(a, c),
{
    assert forall|k: int|
        a.consts.values().contains_key(k) implies #[trigger] c.consts.values().contains_key(k)
        && c.consts.values()[k] == a.consts.values()[k] by {
        assert(b.consts.values().contains_key(k));
        assert(c.consts.values().contains_key(k));
        assert(b.consts.values()[k] == a.consts.values()[k]);
        assert(c.consts.values()[k] == b.consts.values()[k]);
    }
    assert forall|k: int|
        a.consts.marked().contains(k) && !a.consts.values().contains_key(k)
            implies !(#[trigger] c.consts.values().contains_key(k)) by {
        assert(b.consts.marked().contains(k));
        assert(!b.consts.values().contains_key(k));
    }
}

/// Copy an item path.
fn copy_path(p: &Vec<String>) -> (r: Vec<String>)
    ensures
        r@ == p@,
{
    let mut out: Vec<String> = Vec::new();
    let mut i: usize = 0;
    while i < p.len()
        invariant
            i <= p.len(),
            out.len() == i,
            forall|j: int| 0 <= j < i ==> out[j] == p[j],
        decreases p.len() - i,
    {
        out.push(p[i].clone());
        i = i + 1;
    }
    proof {
        assert(out@ =~= p@);
    }
    out
}

/// A binary operation over two model values. Arithmetic and comparisons
/// take integers; equality also compares booleans and strings.
pub open spec fn spec_binary(op: IrBinaryOp, a: Val, b: Val) -> Result<Val, TargetErr> {
    match op {
        IrBinaryOp::Add => spec_binary_arith(crate::ir::IrAssignOp::Add, a, b),
        IrBinaryOp::Sub => spec_binary_arith(crate::ir::IrAssignOp::Sub, a, b),
        IrBinaryOp::Mul => spec_binary_arith(crate::ir::IrAssignOp::Mul, a, b),
        IrBinaryOp::Div => spec_binary_arith(crate::ir::IrAssignOp::Div, a, b),
        IrBinaryOp::Lt => spec_binary_cmp(a, b, |x: i64, y: i64| x < y),
        IrBinaryOp::Lte => spec_binary_cmp(a, b, |x: i64, y: i64| x <= y),
        IrBinaryOp::Gt => spec_binary_cmp(a, b, |x: i64, y: i64| x > y),
        IrBinaryOp::Gte => spec_binary_cmp(a, b, |x: i64, y: i64| x >= y),
        IrBinaryOp::Eq => match (a, b) {
            (Val::Integer(x), Val::Integer(y)) => Ok(Val::Bool(x == y)),
            (Val::Bool(x), Val::Bool(y)) => Ok(Val::Bool(x == y)),
            (Val::Str(x), Val::Str(y)) => Ok(Val::Bool(x == y)),
            (x, y) => Err(TargetErr::Expected(x.kind(), y.kind())),
        },
    }
}

/// Checked arithmetic lifted to model values.
pub open spec fn spec_binary_arith(op: crate::ir::IrAssignOp, a: Val, b: Val) -> Result<
    Val,
    TargetErr,
> {
    match (a, b) {
        (Val::Integer(x), Val::Integer(y)) => match spec_arith(op, x, y) {
            Ok(v) => Ok(Val::Integer(v)),
            Err(e) => Err(e),
        },
        (Val::Integer(_), y) => Err(TargetErr::Expected(ValueKind::Integer, y.kind())),
        (x, _) => Err(TargetErr::Expected(ValueKind::Integer, x.kind())),
    }
}

/// An integer comparison lifted to model values.
pub open spec fn spec_binary_cmp(a: Val, b: Val, cmp: spec_fn(i64, i64) -> bool) -> Result<
    Val,
    TargetErr,
> {
    match (a, b) {
        (Val::Integer(x), Val::Integer(y)) => Ok(Val::Bool(cmp(x, y))),
        (Val::Integer(_), y) => Err(TargetErr::Expected(ValueKind::Integer, y.kind())),
        (x, _) => Err(TargetErr::Expected(ValueKind::Integer, x.kind())),
    }
}

/// Where the ancestor walk of identifier resolution ends, in the model.
pub enum ResolveStep {
    /// The nearest deciding ancestor extension is a fully evaluated cached
    /// constant, at this pool position.
    Cached(int),
    /// The nearest deciding ancestor extension is a constant declared in
    /// user source, evaluated on demand.
    Declared(int),
    /// The nearest deciding ancestor extension has a stored constant meta.
    StoredConst(int),
    /// The nearest deciding ancestor extension has a stored meta of a kind
    /// the evaluator cannot use.
    Unsupported(int),
    /// No ancestor extension decides the name.
    Missing,
}

/// The position a path is interned at, if any. In a well-formed pool the
/// position is unique.
pub open spec fn interned_id(pool: Seq<Seq<Seq<char>>>, p: Seq<Seq<char>>) -> Option<int> {
    if exists|j: int| 0 <= j < pool.len() && pool[j] == p {
        Some(choose|j: int| 0 <= j < pool.len() && pool[j] == p)
    } else {
        None
    }
}

/// The ancestor walk of identifier resolution: from the nearest ancestor
/// module of `base` outward, the first ancestor whose extension by the name
/// is interned and either cached, declared, or stored in the meta store
/// decides; an ancestor whose extension is interned but nowhere recorded
/// does not stop the walk. Sibling modules are never consulted.
pub open spec fn resolve_walk(
    pool: Seq<Seq<Seq<char>>>,
    values: Map<int, Val>,
    decls: Map<int, Ir>,
    metas: Map<(int, int), crate::meta::Meta>,
    base: Seq<Seq<char>>,
    name: Seq<char>,
) -> ResolveStep
    decreases base.len(),
{
    if base.len() == 0 {
        ResolveStep::Missing
    } else {
        let b = base.drop_last();
        let cand = b.push(name);
        match interned_id(pool, cand) {
            Some(id) => if values.contains_key(id) {
                ResolveStep::Cached(id)
            } else if decls.contains_key(id) {
                ResolveStep::Declared(id)
            } else if metas.contains_key((id, crate::meta::EMPTY_HASH as int)) {
                if metas[(id, crate::meta::EMPTY_HASH as int)].kind matches
                    crate::meta::MetaKind::Const { .. } {
                    ResolveStep::StoredConst(id)
                } else {
                    ResolveStep::Unsupported(id)
                }
            } else {
                resolve_walk(pool, values, decls, metas, b, name)
            },
            None => resolve_walk(pool, values, decls, metas, b, name),
        }
    }
}

/// The meaning of a closed pure tree: a literal, a checked binary
/// operation, a conditional, or a vector or tuple built from such trees.
/// Trees that read state, bind names, call functions or loop have no
/// meaning here; neither has a tree whose operation fails.
pub open spec fn pure_val(ir: Ir) -> Option<Val>
    decreases ir,
{
    match ir.kind {
        IrKind::Value(c) => Some(c@),
        IrKind::Binary(op, a, b) => match (pure_val(*a), pure_val(*b)) {
            (Some(x), Some(y)) => match spec_binary(op, x, y) {
                Ok(v) => Some(v),
                Err(_) => None,
            },
            _ => None,
        },
        IrKind::If(c, t, e) => match pure_val(*c) {
            Some(Val::Bool(true)) => pure_val(*t),
            Some(Val::Bool(false)) => match e {
                Some(e) => pure_val(*e),
                None => Some(Val::Unit),
            },
            _ => None,
        },
        IrKind::Vector(items) => match pure_vals(items@) {
            Some(vs) => Some(Val::Vector(vs)),
            None => None,
        },
        IrKind::Tuple(items) => match pure_vals(items@) {
            Some(vs) => Some(Val::Tuple(vs)),
            None => None,
        },
        _ => None,
    }
}

/// The meanings of a list of closed pure trees, in order.
pub open spec fn pure_vals(s: Seq<Ir>) -> Option<Seq<Val>>
    decreases s,
{
    if s.len() == 0 {
        Some(Seq::empty())
    } else {
        match (pure_vals(s.drop_last()), pure_val(s.last())) {
            (Some(vs), Some(v)) => Some(vs.push(v)),
            _ => None,
        }
    }
}

/// The meanings of a list are pointwise.
pub proof fn lemma_pure_vals(s: Seq<Ir>)
    requires
        pure_vals(s) is Some,
    ensures
        pure_vals(s)->Some_0.len() == s.len(),
        forall|i: int|
            0 <= i < s.len() ==> #[trigger] pure_val(s[i]) is Some && pure_vals(s)->Some_0[i]
                == pure_val(s[i])->Some_0,
    decreases s,
{
    if s.len() > 0 {
        lemma_pure_vals(s.drop_last());
        assert forall|i: int|
            0 <= i < s.len() implies #[trigger] pure_val(s[i]) is Some && pure_vals(s)->Some_0[i]
            == pure_val(s[i])->Some_0 by {
            if i < s.len() - 1 {
                assert(s.drop_last()[i] == s[i]);
                assert(pure_val(s.drop_last()[i]) is Some);
            }
        }
    }
}

/// A pure tree whose compound children are total: its evaluation can be
/// promised to succeed under a budget of its node count, because every
/// child's consumption is exact. This covers a binary operation or a
/// conditional over constructor trees, and every total tree itself.
pub open spec fn pure_shallow(ir: Ir) -> bool {
    &&& pure_val(ir) is Some
    &&& match ir.kind {
        IrKind::Binary(_, a, b) => ir_total(*a) && ir_total(*b),
        IrKind::If(c, t, e) => ir_total(*c) && ir_total(*t) && match e {
            Some(e) => ir_total(*e),
            None => true,
        },
        _ => ir_total(ir),
    }
}

/// Evaluate a binary operation on working values.
fn eval_binary_values(op: IrBinaryOp, a: &IrValue, b: &IrValue, span: Span) -> (r: Result<
    IrValue,
    IrError,
>)
    ensures
        match spec_binary(op, a@, b@) {
            Ok(v) => r matches Ok(rv) && rv@ == v,
            Err(e) => r matches Err(re) && err_matches(re.kind, e),
        },
{
    match (a, b) {
        (IrValue::Integer(x), IrValue::Integer(y)) => {
            let x = *x;
            let y = *y;
            match op {
                IrBinaryOp::Add | IrBinaryOp::Sub | IrBinaryOp::Mul | IrBinaryOp::Div => {
                    let aop = match op {
                        IrBinaryOp::Add => crate::ir::IrAssignOp::Add,
                        IrBinaryOp::Sub => crate::ir::IrAssignOp::Sub,
                        IrBinaryOp::Mul => crate::ir::IrAssignOp::Mul,
                        _ => crate::ir::IrAssignOp::Div,
                    };
                    let res = match aop {
                        crate::ir::IrAssignOp::Add => x.checked_add(y),
                        crate::ir::IrAssignOp::Sub => x.checked_sub(y),
                        crate::ir::IrAssignOp::Mul => x.checked_mul(y),
                        crate::ir::IrAssignOp::Div => {
                            if y == 0 {
                                return Err(IrError::new(span, IrErrorKind::DivisionByZero));
                            }
                            x.checked_div(y)
                        },
                    };
                    match res {
                        Some(v) => Ok(IrValue::Integer(v)),
                        None => Err(IrError::new(span, IrErrorKind::Overflow)),
                    }
                },
                IrBinaryOp::Lt => Ok(IrValue::Bool(x < y)),
                IrBinaryOp::Lte => Ok(IrValue::Bool(x <= y)),
                IrBinaryOp::Gt => Ok(IrValue::Bool(x > y)),
                IrBinaryOp::Gte => Ok(IrValue::Bool(x >= y)),
                IrBinaryOp::Eq => Ok(IrValue::Bool(x == y)),
            }
        },
        (IrValue::Bool(x), IrValue::Bool(y)) => match op {
            IrBinaryOp::Eq => Ok(IrValue::Bool(*x == *y)),
            _ => Err(
                IrError::new(
                    span,
                    IrErrorKind::ExpectedKind {
                        expected: ValueKind::Integer,
                        actual: ValueKind::Bool,
                    },
                ),
            ),
        },
        (IrValue::Str(x), IrValue::Str(y)) => match op {
            IrBinaryOp::Eq => Ok(IrValue::Bool(x.eq(y))),
            _ => Err(
                IrError::new(
                    span,
                    IrErrorKind::ExpectedKind {
                        expected: ValueKind::Integer,
                        actual: ValueKind::Str,
                    },
                ),
            ),
        },
        (x, y) => match op {
            IrBinaryOp::Eq => Err(
                IrError::new(
                    span,
                    IrErrorKind::ExpectedKind { expected: x.kind(), actual: y.kind() },
                ),
            ),
            _ => {
                if matches!(x, IrValue::Integer(_)) {
                    Err(
                        IrError::new(
                            span,
                            IrErrorKind::ExpectedKind {
                                expected: ValueKind::Integer,
                                actual: y.kind(),
                            },
                        ),
                    )
                } else {
                    Err(
                        IrError::new(
                            span,
                            IrErrorKind::ExpectedKind {
                                expected: ValueKind::Integer,
                                actual: x.kind(),
                            },
                        ),
                    )
                }
            },
        },
    }
}

/// Turn an evaluation outcome into the error the outer boundary reports: a
/// break that escaped the whole tree was outside any loop, and a
/// non-constant construct reports its span.
fn outcome_error(outcome: EvalOutcome) -> (r: IrError)
    ensures
        outcome matches EvalOutcome::Error(e) ==> r == e,
        outcome matches EvalOutcome::NotConst(span) ==> r == (IrError {
            span,
            kind: IrErrorKind::NotConst,
        }),
        outcome matches EvalOutcome::Break(span, _) ==> r == (IrError {
            span,
            kind: IrErrorKind::BreakOutsideOfLoop,
        }),
{
    match outcome {
        EvalOutcome::Error(e) => e,
        EvalOutcome::NotConst(span) => IrError::new(span, IrErrorKind::NotConst),
        EvalOutcome::Break(span, _) => IrError::new(span, IrErrorKind::BreakOutsideOfLoop),
    }
}

/// The compiler phase which evaluates constants.
pub struct IrInterpreter {
    /// A budget associated with the interpreter, for how many expressions
    /// it is allowed to evaluate.
    pub budget: IrBudget,
    /// Constant scopes.
    pub scopes: Scopes,
    /// The cache of fully evaluated constants, and the marks of
    /// evaluations in progress.
    pub consts: Consts,
    /// The module where the evaluated expression is located.
    pub module: ItemId,
    /// The item where the evaluated expression is located.
    pub item: ItemId,
}

impl IrInterpreter {
    /// An interpreter over a fresh scope stack and an empty cache.
    pub fn new(budget: usize, module: ItemId, item: ItemId) -> (r: IrInterpreter)
        ensures
            r.budget.remaining() == budget,
            r.scopes.wf(),
            r.scopes@ == seq![Map::<Seq<char>, Val>::empty()],
            r.consts.values() == Map::<int, Val>::empty(),
            r.consts.marked() == Set::<int>::empty(),
            r.module == module,
            r.item == item,
    {
        let r = IrInterpreter {
            budget: IrBudget::new(budget),
            scopes: Scopes::new(),
            consts: Consts::new(),
            module,
            item,
        };
        proof {
            assert(r.scopes@ =~= seq![Map::<Seq<char>, Val>::empty()]);
        }
        r
    }

    /// Resolve a constant function by walking up the item path from the
    /// current item, trying `ancestor ++ name` at each ancestor module.
    fn resolve_fn<'a>(&self, q: &'a Query, name: &String) -> (r: Option<(ItemId, &'a crate::ir::IrFn)>)
        requires
            q.wf(),
            self.item < q.spec_pool()@.len(),
        ensures
            r matches Some(p) ==> p.0 < q.spec_pool()@.len() && q.decl_fns().contains_key(
                p.0 as int,
            ) && *p.1 == q.decl_fns()[p.0 as int],
    {
        let mut base = copy_path(q.item(self.item));
        while base.len() > 0
            invariant
                q.wf(),
            decreases base.len(),
        {
            let _ = base.pop();
            let mut candidate = copy_path(&base);
            candidate.push(name.clone());
            if let Some(id) = q.get_id(&candidate) {
                if let Some(f) = q.get_decl_fn(id) {
                    return Some((id, f));
                }
            }
        }
        None
    }

    /// The outer, caching evaluation of the constant the interpreter
    /// currently stands at.
    ///
    /// If the item is already cached its value is returned and nothing else
    /// happens: the interpreter, its budget included, is left exactly as it
    /// was, so a second call never re-enters the evaluator. If the item is
    /// marked but not cached, its evaluation is already in progress and the
    /// call fails with a constant cycle. Otherwise the item is marked, its
    /// tree evaluated, and the snapshot cached; on any failure the item
    /// stays out of the cache.
    pub fn eval_expr(&mut self, q: &Query, ir: &Ir, used: Used) -> (r: Result<ConstValue, IrError>)
        requires
            old(self).scopes.wf(),
            q.wf(),
            old(self).item < q.spec_pool()@.len(),
        ensures
            final(self).scopes.wf(),
            kept(*old(self), *final(self)),
            old(self).consts.values().contains_key(old(self).item as int) ==> (r matches Ok(v)
                && v@ == old(self).consts.values()[old(self).item as int] && *final(self) == *old(self)),
            (!old(self).consts.values().contains_key(old(self).item as int) && old(self).consts.marked().contains(old(self).item as int)) ==> (r matches Err(e) && e.kind
                == IrErrorKind::ConstCycle && *final(self) == *old(self)),
            r matches Ok(v) ==> final(self).consts.values().contains_key(old(self).item as int)
                && final(self).consts.values()[old(self).item as int] == v@,
            r is Err ==> final(self).consts.values().contains_key(old(self).item as int) == old(self).consts.values().contains_key(old(self).item as int),
            (!old(self).consts.values().contains_key(old(self).item as int) && !old(self).consts.marked().contains(old(self).item as int) && ir_total(*ir) && old(self).budget.remaining() < ir_size(*ir)) ==> (r matches Err(e) && e.kind
                == IrErrorKind::BudgetExceeded),
            (!old(self).consts.values().contains_key(old(self).item as int) && !old(self).consts.marked().contains(old(self).item as int) && ir_total(*ir) && old(self).budget.remaining() >= ir_size(*ir)) ==> r is Ok,
            pure_val(*ir) matches Some(m) ==> (!old(self).consts.values().contains_key(
                old(self).item as int,
            ) ==> (r matches Ok(v) ==> v@ == m && final(self).consts.values()[
                old(self).item as int
            ] == m)),
            (!old(self).consts.values().contains_key(old(self).item as int) && !old(self).consts.marked().contains(old(self).item as int) && old(self).budget.remaining()
                > 0) ==> (ir.kind matches IrKind::Target(t) ==> (t.kind matches
                IrTargetKind::Name(n) ==> ({
                let step = resolve_walk(
                    q.spec_pool()@,
                    old(self).consts.values(),
                    q.decl_consts(),
                    q.metas(),
                    q.spec_pool()@[old(self).item as int],
                    n@,
                );
                &&& lookup(old(self).scopes@, n@) matches Some(v) ==> (r matches Ok(cv) && cv@
                    == v)
                &&& lookup(old(self).scopes@, n@) is None ==> {
                    &&& step matches ResolveStep::Cached(id) ==> (r matches Ok(cv) && cv@ == old(self).consts.values()[id])
                    &&& step matches ResolveStep::Declared(id) ==> (old(self).consts.marked().contains(id) ==> (r matches Err(e) && e.kind
                        == IrErrorKind::ConstCycle))
                    &&& step matches ResolveStep::StoredConst(id) ==> (r matches Ok(cv) && (
                    q.metas()[(id, crate::meta::EMPTY_HASH as int)].kind matches
                        crate::meta::MetaKind::Const { value } && cv@ == value@))
                    &&& step matches ResolveStep::Unsupported(id) ==> (r matches Err(e) && e.kind
                        == (IrErrorKind::UnsupportedMeta {
                        meta: q.metas()[(id, crate::meta::EMPTY_HASH as int)].info_model(),
                    }))
                    &&& step is Missing ==> (r matches Err(e) && e.kind == IrErrorKind::NotConst)
                }
            }))),
        decreases self.budget.remaining(), 2int, 0int,
    {
        let item = self.item;
        if let Some(v) = self.consts.get(item) {
            return Ok(v);
        }
        if !self.consts.mark(item) {
            return Err(IrError::new(ir.span, IrErrorKind::ConstCycle));
        }
        let ghost marked_state = *self;
        let value = match self.eval(q, ir, used) {
            Ok(v) => v,
            Err(outcome) => {
                return Err(outcome_error(outcome));
            },
        };
        let const_value = value.into_const();
        if self.consts.insert(item, const_value.duplicate()).is_some() {
            return Err(IrError::new(ir.span, IrErrorKind::ConstCycle));
        }
        Ok(const_value)
    }

    /// Evaluate an arbitrary tree to a working value, reporting errors at
    /// the outer boundary. Evaluating a total tree takes exactly one budget
    /// step per node, so a budget smaller than the node count of a total
    /// tree is always exceeded.
    pub fn eval_value(&mut self, q: &Query, ir: &Ir, used: Used) -> (r: Result<IrValue, IrError>)
        requires
            old(self).scopes.wf(),
            q.wf(),
            old(self).item < q.spec_pool()@.len(),
        ensures
            final(self).scopes.wf(),
            kept(*old(self), *final(self)),
            ir_total(*ir) && old(self).budget.remaining() >= ir_size(*ir) ==> (r is Ok && final(self).budget.remaining() == old(self).budget.remaining() - ir_size(*ir) && final(self).scopes@ == old(self).scopes@),
            ir_total(*ir) && old(self).budget.remaining() < ir_size(*ir) ==> (r matches Err(e)
                && e.kind == IrErrorKind::BudgetExceeded),
            pure_val(*ir) matches Some(m) ==> (r matches Ok(v) ==> v@ == m),
            pure_shallow(*ir) && old(self).budget.remaining() >= ir_size(*ir) ==> r is Ok,
            ir.kind matches IrKind::Target(t) ==> (t.kind matches IrTargetKind::Name(n) ==> (old(self).budget.remaining() > 0 ==> ({
                let step = resolve_walk(
                    q.spec_pool()@,
                    old(self).consts.values(),
                    q.decl_consts(),
                    q.metas(),
                    q.spec_pool()@[old(self).item as int],
                    n@,
                );
                &&& lookup(old(self).scopes@, n@) matches Some(v) ==> (r matches Ok(rv) && rv@
                    == v)
                &&& lookup(old(self).scopes@, n@) is None ==> {
                    &&& step matches ResolveStep::Cached(id) ==> (r matches Ok(v) && v@ == old(self).consts.values()[id])
                    &&& step matches ResolveStep::Declared(id) ==> ((r matches Ok(v) ==> final(self).consts.values().contains_key(id) && v@ == final(self).consts.values()[id]) && (
                    old(self).consts.marked().contains(id) ==> (r matches Err(e) && e.kind
                        == IrErrorKind::ConstCycle)))
                    &&& step matches ResolveStep::StoredConst(id) ==> (r matches Ok(v) && (
                    q.metas()[(id, crate::meta::EMPTY_HASH as int)].kind matches
                        crate::meta::MetaKind::Const { value } && v@ == value@))
                    &&& step matches ResolveStep::Unsupported(id) ==> (r matches Err(e) && e.kind
                        == (IrErrorKind::UnsupportedMeta {
                        meta: q.metas()[(id, crate::meta::EMPTY_HASH as int)].info_model(),
                    }))
                    &&& step is Missing ==> (r matches Err(e) && e.kind == IrErrorKind::NotConst)
                }
            }))),
    {
        match self.eval(q, ir, used) {
            Ok(v) => Ok(v),
            Err(outcome) => Err(outcome_error(outcome)),
        }
    }

    /// Resolve an identifier: the innermost scope binding it wins; failing
    /// that, the ancestors of the current item are walked from the nearest
    /// module outward, and the first ancestor whose `ancestor ++ name`
    /// names a cached constant, a declared constant, or a stored constant
    /// meta decides. A declared constant found this way is evaluated on
    /// demand, with cycle detection. An item of any other meta kind fails;
    /// running out of ancestors is not constant.
    pub fn resolve_var(&mut self, q: &Query, name: &String, span: Span, used: Used) -> (r: Result<
        IrValue,
        IrError,
    >)
        requires
            old(self).scopes.wf(),
            q.wf(),
            old(self).item < q.spec_pool()@.len(),
        ensures
            final(self).scopes.wf(),
            kept(*old(self), *final(self)),
            lookup(old(self).scopes@, name@) matches Some(v) ==> (r matches Ok(rv) && rv@ == v
                && *final(self) == *old(self)),
            lookup(old(self).scopes@, name@) is None ==> ({
                let step = resolve_walk(
                    q.spec_pool()@,
                    old(self).consts.values(),
                    q.decl_consts(),
                    q.metas(),
                    q.spec_pool()@[old(self).item as int],
                    name@,
                );
                &&& step matches ResolveStep::Cached(id) ==> (r matches Ok(v) && v@ == old(self).consts.values()[id] && *final(self) == *old(self))
                &&& step matches ResolveStep::Declared(id) ==> ((r matches Ok(v) ==> final(self).consts.values().contains_key(id) && v@ == final(self).consts.values()[id]) && (
                old(self).consts.marked().contains(id) ==> (r matches Err(e) && e.kind
                    == IrErrorKind::ConstCycle)))
                &&& step matches ResolveStep::StoredConst(id) ==> (r matches Ok(v) && (q.metas()[
                    (id, crate::meta::EMPTY_HASH as int)
                ].kind matches crate::meta::MetaKind::Const { value } && v@ == value@) && *final(self) == *old(self))
                &&& step matches ResolveStep::Unsupported(id) ==> (r matches Err(e) && e.kind == (
                IrErrorKind::UnsupportedMeta {
                    meta: q.metas()[(id, crate::meta::EMPTY_HASH as int)].info_model(),
                }) && *final(self) == *old(self))
                &&& step is Missing ==> (r matches Err(e) && e.kind == IrErrorKind::NotConst
                    && *final(self) == *old(self))
            }),
        decreases self.budget.remaining(), 3int, 0int,
    {
        if let Some(v) = self.scopes.get(name) {
            return Ok(v);
        }
        let saved_item = self.item;
        let saved_module = self.module;
        let ghost pool_model = q.spec_pool()@;
        let ghost values0 = old(self).consts.values();
        let ghost step = resolve_walk(
            pool_model,
            values0,
            q.decl_consts(),
            q.metas(),
            pool_model[old(self).item as int],
            name@,
        );
        let mut base = copy_path(q.item(self.item));
        proof {
            assert(crate::pool::path_model(base@) == pool_model[old(self).item as int]);
        }
        while base.len() > 0
            invariant
                self.scopes.wf(),
                q.wf(),
                *self == *old(self),
                self.item == saved_item,
                self.module == saved_module,
                saved_item < q.spec_pool()@.len(),
                lookup(old(self).scopes@, name@) is None,
                pool_model == q.spec_pool()@,
                values0 == old(self).consts.values(),
                step == resolve_walk(
                    pool_model,
                    values0,
                    q.decl_consts(),
                    q.metas(),
                    pool_model[old(self).item as int],
                    name@,
                ),
                step == resolve_walk(
                    pool_model,
                    values0,
                    q.decl_consts(),
                    q.metas(),
                    crate::pool::path_model(base@),
                    name@,
                ),
            decreases base.len(),
        {
            let ghost prev_model = crate::pool::path_model(base@);
            let _ = base.pop();
            let mut candidate = copy_path(&base);
            candidate.push(name.clone());
            let ghost cand = crate::pool::path_model(candidate@);
            proof {
                assert(crate::pool::path_model(base@) =~= prev_model.drop_last());
                assert(cand =~= crate::pool::path_model(base@).push(name@));
            }
            if let Some(id) = q.get_id(&candidate) {
                proof {
                    assert(pool_model[id as int] == cand);
                    assert(exists|j: int| 0 <= j < pool_model.len() && pool_model[j] == cand);
                    assert(interned_id(pool_model, cand) is Some);
                    let j0 = interned_id(pool_model, cand)->Some_0;
                    assert(0 <= j0 < pool_model.len() && pool_model[j0] == cand);
                    crate::query::lemma_query_pool_distinct(*q, j0, id as int);
                    assert(interned_id(pool_model, cand) == Some(id as int));
                }
                if let Some(cv) = self.consts.get(id) {
                    proof {
                        assert(step == ResolveStep::Cached(id as int));
                    }
                    return Ok(IrValue::from_const(&cv));
                }
                if let Some(decl_ir) = q.get_decl_const(id) {
                    proof {
                        assert(step == ResolveStep::Declared(id as int));
                    }
                    let ghost before = *self;
                    self.item = id;
                    let res = self.eval_expr(q, decl_ir, used);
                    self.item = saved_item;
                    proof {
                        lemma_kept_consts_trans(*old(self), before, *self);
                    }
                    match res {
                        Ok(cv) => {
                            return Ok(IrValue::from_const(&cv));
                        },
                        Err(e) => {
                            return Err(e);
                        },
                    }
                }
                if let Some(m) = q.query_meta(span, id, used) {
                    match &m.kind {
                        crate::meta::MetaKind::Const { value } => {
                            proof {
                                assert(step == ResolveStep::StoredConst(id as int));
                            }
                            return Ok(IrValue::from_const(value));
                        },
                        _ => {
                            proof {
                                assert(step == ResolveStep::Unsupported(id as int));
                            }
                            return Err(
                                IrError::new(
                                    span,
                                    IrErrorKind::UnsupportedMeta { meta: m.info() },
                                ),
                            );
                        },
                    }
                }
            } else {
                proof {
                    if exists|j: int| 0 <= j < pool_model.len() && pool_model[j] == cand {
                        let j = choose|j: int|
                            0 <= j < pool_model.len() && pool_model[j] == cand;
                        assert(pool_model[j] == cand);
                        assert(false);
                    }
                    assert(interned_id(pool_model, cand) is None);
                }
            }
        }
        proof {
            assert(step == ResolveStep::Missing);
        }
        Err(IrError::new(span, IrErrorKind::NotConst))
    }

    /// Read a place while evaluating an expression: a bare name goes
    /// through full identifier resolution; a field or index projects out of
    /// the read inner value.
    fn read_of_target(&mut self, q: &Query, t: &IrTarget, used: Used) -> (r: Result<
        IrValue,
        EvalOutcome,
    >)
        requires
            old(self).scopes.wf(),
            q.wf(),
            old(self).item < q.spec_pool()@.len(),
        ensures
            final(self).scopes.wf(),
            kept(*old(self), *final(self)),
            t.kind matches IrTargetKind::Name(n) ==> ({
                let step = resolve_walk(
                    q.spec_pool()@,
                    old(self).consts.values(),
                    q.decl_consts(),
                    q.metas(),
                    q.spec_pool()@[old(self).item as int],
                    n@,
                );
                &&& lookup(old(self).scopes@, n@) matches Some(v) ==> (r matches Ok(rv) && rv@
                    == v)
                &&& lookup(old(self).scopes@, n@) is None ==> {
                    &&& step matches ResolveStep::Cached(id) ==> (r matches Ok(v) && v@ == old(self).consts.values()[id])
                    &&& step matches ResolveStep::Declared(id) ==> ((r matches Ok(v) ==> final(self).consts.values().contains_key(id) && v@ == final(self).consts.values()[id]) && (
                    old(self).consts.marked().contains(id) ==> (r matches Err(
                        EvalOutcome::Error(e),
                    ) && e.kind == IrErrorKind::ConstCycle)))
                    &&& step matches ResolveStep::StoredConst(id) ==> (r matches Ok(v) && (
                    q.metas()[(id, crate::meta::EMPTY_HASH as int)].kind matches
                        crate::meta::MetaKind::Const { value } && v@ == value@))
                    &&& step matches ResolveStep::Unsupported(id) ==> (r matches Err(
                        EvalOutcome::Error(e),
                    ) && e.kind == (IrErrorKind::UnsupportedMeta {
                        meta: q.metas()[(id, crate::meta::EMPTY_HASH as int)].info_model(),
                    }))
                    &&& step is Missing ==> (r matches Err(EvalOutcome::Error(e)) && e.kind
                        == IrErrorKind::NotConst)
                }
            }),
        decreases self.budget.remaining(), 4int, target_size(*t),
    {
        match &t.kind {
            IrTargetKind::Name(n) => match self.resolve_var(q, n, t.span, used) {
                Ok(v) => Ok(v),
                Err(e) => Err(EvalOutcome::Error(e)),
            },
            IrTargetKind::Field(inner, f) => {
                let cur = match self.read_of_target(q, inner, used) {
                    Ok(c) => c,
                    Err(e) => {
                        return Err(e);
                    },
                };
                match cur {
                    IrValue::Object(es) => match obj_first(&es, f) {
                        Some(v) => Ok(v),
                        None => Err(
                            EvalOutcome::Error(
                                IrError::new(
                                    t.span,
                                    IrErrorKind::MissingField { field: f.clone() },
                                ),
                            ),
                        ),
                    },
                    actual => Err(
                        EvalOutcome::Error(
                            IrError::new(
                                t.span,
                                IrErrorKind::ExpectedKind {
                                    expected: ValueKind::Tuple,
                                    actual: actual.kind(),
                                },
                            ),
                        ),
                    ),
                }
            },
            IrTargetKind::Index(inner, i) => {
                let cur = match self.read_of_target(q, inner, used) {
                    Ok(c) => c,
                    Err(e) => {
                        return Err(e);
                    },
                };
                match cur {
                    IrValue::Vector(vs) => {
                        if *i < vs.len() {
                            Ok(vs[*i].duplicate())
                        } else {
                            Err(
                                EvalOutcome::Error(
                                    IrError::new(t.span, IrErrorKind::MissingIndex { index: *i }),
                                ),
                            )
                        }
                    },
                    IrValue::Tuple(vs) => {
                        if *i < vs.len() {
                            Ok(vs[*i].duplicate())
                        } else {
                            Err(
                                EvalOutcome::Error(
                                    IrError::new(t.span, IrErrorKind::MissingIndex { index: *i }),
                                ),
                            )
                        }
                    },
                    actual => Err(
                        EvalOutcome::Error(
                            IrError::new(
                                t.span,
                                IrErrorKind::ExpectedKind {
                                    expected: ValueKind::Tuple,
                                    actual: actual.kind(),
                                },
                            ),
                        ),
                    ),
                }
            },
        }
    }

    /// Evaluate the entries of an object literal, left to right, keeping
    /// the keys.
    fn eval_entries(&mut self, q: &Query, entries: &Vec<(String, Ir)>, used: Used) -> (r: Result<
        Vec<(String, IrValue)>,
        EvalOutcome,
    >)
        requires
            old(self).scopes.wf(),
            q.wf(),
            old(self).item < q.spec_pool()@.len(),
        ensures
            final(self).scopes.wf(),
            kept(*old(self), *final(self)),
            r matches Ok(vs) ==> vs@.len() == entries@.len(),
        decreases self.budget.remaining(), 2int, 0int,
    {
        let mut out: Vec<(String, IrValue)> = Vec::new();
        let mut i: usize = 0;
        while i < entries.len()
            invariant
                i <= entries.len(),
                out.len() == i,
                self.scopes.wf(),
                q.wf(),
                self.item < q.spec_pool()@.len(),
                self.item == old(self).item,
                self.module == old(self).module,
                kept_consts(*old(self), *self),
                self.budget.remaining() <= old(self).budget.remaining(),
            decreases entries@.len() - i,
        {
            let ghost before = *self;
            match self.eval(q, &entries[i].1, used) {
                Ok(v) => {
                    let key = entries[i].0.clone();
                    out.push((key, v));
                },
                Err(e) => {
                    proof {
                        lemma_kept_consts_trans(*old(self), before, *self);
                    }
                    return Err(e);
                },
            }
            proof {
                lemma_kept_consts_trans(*old(self), before, *self);
            }
            i = i + 1;
        }
        Ok(out)
    }

    /// Evaluate a list of trees, left to right, into their values. A total
    /// list is promised its values under a budget of its node count, one
    /// step per node, and a shorter budget is promised to run out; values
    /// handed back for a list with meanings are those meanings.
    fn eval_list(&mut self, q: &Query, items: &Vec<Ir>, used: Used) -> (r: Result<
        Vec<IrValue>,
        EvalOutcome,
    >)
        requires
            old(self).scopes.wf(),
            q.wf(),
            old(self).item < q.spec_pool()@.len(),
        ensures
            final(self).scopes.wf(),
            kept(*old(self), *final(self)),
            r matches Ok(vs) ==> vs@.len() == items@.len(),
            ir_list_total(items@) && old(self).budget.remaining() >= ir_list_size(items@) ==> (r
                is Ok && final(self).budget.remaining() == old(self).budget.remaining()
                - ir_list_size(items@) && final(self).scopes@ == old(self).scopes@ && final(self).consts.values() == old(self).consts.values() && final(self).consts.marked() == old(self).consts.marked()),
            ir_list_total(items@) && old(self).budget.remaining() < ir_list_size(items@) ==> (r
                matches Err(EvalOutcome::Error(e)) && e.kind == IrErrorKind::BudgetExceeded),
            pure_vals(items@) is Some ==> (r matches Ok(vs) ==> crate::value::ir_models_of(vs@)
                == pure_vals(items@)->Some_0),
        decreases self.budget.remaining(), 2int, 0int,
    {
        proof {
            assert(items@.take(0) =~= Seq::<Ir>::empty());
        }
        let mut out: Vec<IrValue> = Vec::new();
        let mut i: usize = 0;
        while i < items.len()
            invariant
                i <= items.len(),
                out.len() == i,
                self.scopes.wf(),
                q.wf(),
                self.item < q.spec_pool()@.len(),
                self.item == old(self).item,
                self.module == old(self).module,
                kept_consts(*old(self), *self),
                self.budget.remaining() <= old(self).budget.remaining(),
                ir_list_total(items@) ==> (self.budget.remaining() == old(self).budget.remaining()
                    - ir_list_size(items@.take(i as int)) && old(self).budget.remaining()
                    >= ir_list_size(items@.take(i as int)) && self.scopes@ == old(self).scopes@
                    && self.consts.values() == old(self).consts.values() && self.consts.marked()
                    == old(self).consts.marked()),
                pure_vals(items@) is Some ==> forall|j: int|
                    0 <= j < i ==> #[trigger] out@[j]@ == pure_vals(items@)->Some_0[j],
            decreases items@.len() - i,
        {
            proof {
                if ir_list_total(items@) {
                    lemma_ir_list_total(items@);
                    lemma_ir_list_size_split(items@, i as int);
                    lemma_ir_list_size_step(items@, i as int);
                }
                if pure_vals(items@) is Some {
                    lemma_pure_vals(items@);
                }
            }
            let ghost before = *self;
            match self.eval(q, &items[i], used) {
                Ok(v) => {
                    out.push(v);
                },
                Err(e) => {
                    proof {
                        lemma_kept_consts_trans(*old(self), before, *self);
                        if ir_list_total(items@) {
                            lemma_ir_list_size_split(items@, i as int);
                            assert(items@.skip(i as int)[0] == items@[i as int]);
                            assert(ir_list_size(items@.skip(i as int)) >= ir_size(
                                items@[i as int],
                            )) by {
                                lemma_ir_list_size_split(items@.skip(i as int), 1);
                                assert(items@.skip(i as int).take(1).drop_last()
                                    =~= Seq::<Ir>::empty());
                                assert(items@.skip(i as int).take(1).last()
                                    == items@[i as int]);
                            }
                        }
                    }
                    return Err(e);
                },
            }
            proof {
                lemma_kept_consts_trans(*old(self), before, *self);
                if ir_list_total(items@) {
                    lemma_ir_list_size_step(items@, i as int);
                }
            }
            i = i + 1;
        }
        proof {
            assert(items@.take(items@.len() as int) =~= items@);
            if pure_vals(items@) is Some {
                lemma_pure_vals(items@);
                crate::value::lemma_ir_models_of(out@);
                assert(crate::value::ir_models_of(out@) =~= pure_vals(items@)->Some_0);
            }
        }
        Ok(out)
    }

    /// Evaluate one tree. Every shape takes one budget step before doing
    /// anything else.
    #[verifier::rlimit(100)]
    #[verifier::spinoff_prover]
    fn eval(&mut self, q: &Query, ir: &Ir, used: Used) -> (r: Result<IrValue, EvalOutcome>)
        requires
            old(self).scopes.wf(),
            q.wf(),
            old(self).item < q.spec_pool()@.len(),
        ensures
            final(self).scopes.wf(),
            kept(*old(self), *final(self)),
            old(self).budget.remaining() == 0 ==> r is Err,
            old(self).budget.remaining() > 0 ==> final(self).budget.remaining() < old(self).budget.remaining(),
            ir_total(*ir) && old(self).budget.remaining() >= ir_size(*ir) ==> (r is Ok && final(self).budget.remaining() == old(self).budget.remaining() - ir_size(*ir) && final(self).scopes@ == old(self).scopes@ && final(self).consts.values() == old(self).consts.values() && final(self).consts.marked() == old(self).consts.marked()),
            ir_total(*ir) && old(self).budget.remaining() < ir_size(*ir) ==> (r matches Err(
                EvalOutcome::Error(e),
            ) && e.kind == IrErrorKind::BudgetExceeded),
            pure_val(*ir) matches Some(m) ==> (r matches Ok(v) ==> v@ == m),
            pure_shallow(*ir) && old(self).budget.remaining() >= ir_size(*ir) ==> r is Ok,
            ir.kind matches IrKind::Target(t) ==> (t.kind matches IrTargetKind::Name(n) ==> (old(self).budget.remaining() > 0 ==> ({
                let step = resolve_walk(
                    q.spec_pool()@,
                    old(self).consts.values(),
                    q.decl_consts(),
                    q.metas(),
                    q.spec_pool()@[old(self).item as int],
                    n@,
                );
                &&& lookup(old(self).scopes@, n@) matches Some(v) ==> (r matches Ok(rv) && rv@
                    == v)
                &&& lookup(old(self).scopes@, n@) is None ==> {
                    &&& step matches ResolveStep::Cached(id) ==> (r matches Ok(v) && v@ == old(self).consts.values()[id])
                    &&& step matches ResolveStep::Declared(id) ==> ((r matches Ok(v) ==> final(self).consts.values().contains_key(id) && v@ == final(self).consts.values()[id]) && (
                    old(self).consts.marked().contains(id) ==> (r matches Err(
                        EvalOutcome::Error(e),
                    ) && e.kind == IrErrorKind::ConstCycle)))
                    &&& step matches ResolveStep::StoredConst(id) ==> (r matches Ok(v) && (
                    q.metas()[(id, crate::meta::EMPTY_HASH as int)].kind matches
                        crate::meta::MetaKind::Const { value } && v@ == value@))
                    &&& step matches ResolveStep::Unsupported(id) ==> (r matches Err(
                        EvalOutcome::Error(e),
                    ) && e.kind == (IrErrorKind::UnsupportedMeta {
                        meta: q.metas()[(id, crate::meta::EMPTY_HASH as int)].info_model(),
                    }))
                    &&& step is Missing ==> (r matches Err(EvalOutcome::Error(e)) && e.kind
                        == IrErrorKind::NotConst)
                }
            }))),
        decreases self.budget.remaining(), 1int, 0int,
    {
        if let Err(e) = self.budget.take(ir.span) {
            return Err(EvalOutcome::Error(e));
        }
        let ghost entered = *self;
        proof {
            assert(kept_consts(*old(self), entered));
        }
        match &ir.kind {
            IrKind::Value(c) => Ok(IrValue::from_const(c)),
            IrKind::Target(t) => {
                let r = self.read_of_target(q, t, used);
                proof {
                    lemma_kept_consts_trans(*old(self), entered, *self);
                }
                r
            },
            IrKind::Let(name, init) => {
                let v = match self.eval(q, init, used) {
                    Ok(v) => {
                        proof {
                            lemma_kept_consts_trans(*old(self), entered, *self);
                        }
                        v
                    },
                    Err(e) => {
                        proof {
                            lemma_kept_consts_trans(*old(self), entered, *self);
                        }
                        return Err(e);
                    },
                };
                match self.scopes.decl(name.clone(), v) {
                    Ok(()) => Ok(IrValue::Unit),
                    Err(k) => Err(EvalOutcome::Error(IrError::new(ir.span, k))),
                }
            },
            IrKind::Assign(t, rhs) => {
                let v = match self.eval(q, rhs, used) {
                    Ok(v) => {
                        proof {
                            lemma_kept_consts_trans(*old(self), entered, *self);
                        }
                        v
                    },
                    Err(e) => {
                        proof {
                            lemma_kept_consts_trans(*old(self), entered, *self);
                        }
                        return Err(e);
                    },
                };
                match self.scopes.set_target(t, v) {
                    Ok(()) => Ok(IrValue::Unit),
                    Err(e) => Err(EvalOutcome::Error(e)),
                }
            },
            IrKind::Modify(t, op, rhs) => {
                let v = match self.eval(q, rhs, used) {
                    Ok(v) => {
                        proof {
                            lemma_kept_consts_trans(*old(self), entered, *self);
                        }
                        v
                    },
                    Err(e) => {
                        proof {
                            lemma_kept_consts_trans(*old(self), entered, *self);
                        }
                        return Err(e);
                    },
                };
                match self.scopes.mut_target(t, *op, &v) {
                    Ok(()) => Ok(IrValue::Unit),
                    Err(e) => Err(EvalOutcome::Error(e)),
                }
            },
            IrKind::Binary(op, a, b) => {
                let ghost enough = pure_shallow(*ir) && old(self).budget.remaining() >= ir_size(
                    *ir,
                );
                let va = match self.eval(q, a, used) {
                    Ok(v) => {
                        proof {
                            lemma_kept_consts_trans(*old(self), entered, *self);
                        }
                        v
                    },
                    Err(e) => {
                        proof {
                            lemma_kept_consts_trans(*old(self), entered, *self);
                            if enough {
                                assert(false);
                            }
                        }
                        return Err(e);
                    },
                };
                let ghost mid = *self;
                let vb = match self.eval(q, b, used) {
                    Ok(v) => {
                        proof {
                            lemma_kept_consts_trans(*old(self), mid, *self);
                        }
                        v
                    },
                    Err(e) => {
                        proof {
                            lemma_kept_consts_trans(*old(self), mid, *self);
                            if enough {
                                assert(false);
                            }
                        }
                        return Err(e);
                    },
                };
                match eval_binary_values(*op, &va, &vb, ir.span) {
                    Ok(v) => Ok(v),
                    Err(e) => {
                        proof {
                            if enough {
                                assert(false);
                            }
                        }
                        Err(EvalOutcome::Error(e))
                    },
                }
            },
            IrKind::Block(stmts, tail) => {
                let guard = self.scopes.push();
                let mut i: usize = 0;
                while i < stmts.len()
                    invariant
                        i <= stmts.len(),
                        !ir_total(*ir),
                        pure_val(*ir) is None,
                        !(ir.kind matches IrKind::Target(_)),
                        self.scopes.wf(),
                        q.wf(),
                        self.item < q.spec_pool()@.len(),
                        self.item == entered.item,
                        self.module == entered.module,
                        kept(*old(self), entered),
                        kept_consts(entered, *self),
                        old(self).budget.remaining() == entered.budget.remaining() + 1,
                        self.budget.remaining() <= entered.budget.remaining(),
                    decreases self.budget.remaining(),
                {
                    let ghost before = *self;
                    match self.eval(q, &stmts[i], used) {
                        Ok(_) => {},
                        Err(e) => {
                            proof {
                                lemma_kept_consts_trans(entered, before, *self);
                                lemma_kept_consts_trans(*old(self), entered, *self);
                            }
                            return Err(e);
                        },
                    }
                    proof {
                        lemma_kept_consts_trans(entered, before, *self);
                                lemma_kept_consts_trans(*old(self), entered, *self);
                    }
                    i = i + 1;
                }
                let value = match tail {
                    Some(t) => {
                        let ghost before = *self;
                        match self.eval(q, t, used) {
                            Ok(v) => {
                                proof {
                                    lemma_kept_consts_trans(entered, before, *self);
                                lemma_kept_consts_trans(*old(self), entered, *self);
                                }
                                v
                            },
                            Err(e) => {
                                proof {
                                    lemma_kept_consts_trans(entered, before, *self);
                                lemma_kept_consts_trans(*old(self), entered, *self);
                                }
                                return Err(e);
                            },
                        }
                    },
                    None => IrValue::Unit,
                };
                match self.scopes.pop(guard) {
                    Ok(_) => Ok(value),
                    Err(k) => Err(EvalOutcome::Error(IrError::new(ir.span, k))),
                }
            },
            IrKind::If(cond, then_ir, else_ir) => {
                let c = match self.eval(q, cond, used) {
                    Ok(v) => {
                        proof {
                            lemma_kept_consts_trans(*old(self), entered, *self);
                        }
                        v
                    },
                    Err(e) => {
                        proof {
                            lemma_kept_consts_trans(*old(self), entered, *self);
                        }
                        return Err(e);
                    },
                };
                let ghost before = *self;
                match c {
                    IrValue::Bool(true) => {
                        let r = self.eval(q, then_ir, used);
                        proof {
                            lemma_kept_consts_trans(*old(self), before, *self);
                        }
                        r
                    },
                    IrValue::Bool(false) => match else_ir {
                        Some(e) => {
                            let r = self.eval(q, e, used);
                            proof {
                                lemma_kept_consts_trans(*old(self), before, *self);
                            }
                            r
                        },
                        None => Ok(IrValue::Unit),
                    },
                    actual => Err(
                        EvalOutcome::Error(
                            IrError::new(
                                ir.span,
                                IrErrorKind::ExpectedKind {
                                    expected: ValueKind::Bool,
                                    actual: actual.kind(),
                                },
                            ),
                        ),
                    ),
                }
            },
            IrKind::Loop(body) => {
                loop
                    invariant
                        !ir_total(*ir),
                        pure_val(*ir) is None,
                        !(ir.kind matches IrKind::Target(_)),
                        self.scopes.wf(),
                        q.wf(),
                        self.item < q.spec_pool()@.len(),
                        self.item == entered.item,
                        self.module == entered.module,
                        kept(*old(self), entered),
                        kept_consts(entered, *self),
                        old(self).budget.remaining() == entered.budget.remaining() + 1,
                        self.budget.remaining() <= entered.budget.remaining(),
                    decreases self.budget.remaining(),
                {
                    let ghost before = *self;
                    match self.eval(q, body, used) {
                        Ok(_) => {
                            proof {
                                lemma_kept_consts_trans(entered, before, *self);
                                lemma_kept_consts_trans(*old(self), entered, *self);
                            }
                        },
                        Err(EvalOutcome::Break(_, v)) => {
                            proof {
                                lemma_kept_consts_trans(entered, before, *self);
                                lemma_kept_consts_trans(*old(self), entered, *self);
                            }
                            return Ok(
                                match v {
                                    Some(v) => v,
                                    None => IrValue::Unit,
                                },
                            );
                        },
                        Err(e) => {
                            proof {
                                lemma_kept_consts_trans(entered, before, *self);
                                lemma_kept_consts_trans(*old(self), entered, *self);
                            }
                            return Err(e);
                        },
                    }
                }
            },
            IrKind::Break(value) => {
                let v = match value {
                    Some(e) => {
                        let v = match self.eval(q, e, used) {
                            Ok(v) => {
                                proof {
                                    lemma_kept_consts_trans(*old(self), entered, *self);
                                }
                                v
                            },
                            Err(err) => {
                                proof {
                                    lemma_kept_consts_trans(*old(self), entered, *self);
                                }
                                return Err(err);
                            },
                        };
                        Some(v)
                    },
                    None => None,
                };
                Err(EvalOutcome::Break(ir.span, v))
            },
            IrKind::Call(name, args) => {
                let (id, f) = match self.resolve_fn(q, name) {
                    Some(p) => p,
                    None => {
                        return Err(EvalOutcome::NotConst(ir.span));
                    },
                };
                if f.args.len() != args.len() {
                    return Err(
                        EvalOutcome::Error(
                            IrError::new(
                                ir.span,
                                IrErrorKind::ArgumentCountMismatch {
                                    declared: f.args.len(),
                                    supplied: args.len(),
                                },
                            ),
                        ),
                    );
                }
                let mut values: Vec<IrValue> = Vec::new();
                let mut i: usize = 0;
                while i < args.len()
                    invariant
                        i <= args.len(),
                        values.len() == i,
                        !ir_total(*ir),
                        pure_val(*ir) is None,
                        !(ir.kind matches IrKind::Target(_)),
                        self.scopes.wf(),
                        q.wf(),
                        self.item < q.spec_pool()@.len(),
                        self.item == entered.item,
                        self.module == entered.module,
                        kept(*old(self), entered),
                        kept_consts(entered, *self),
                        old(self).budget.remaining() == entered.budget.remaining() + 1,
                        self.budget.remaining() <= entered.budget.remaining(),
                    decreases self.budget.remaining(),
                {
                    let ghost before = *self;
                    match self.eval(q, &args[i], used) {
                        Ok(v) => {
                            values.push(v);
                        },
                        Err(e) => {
                            proof {
                                lemma_kept_consts_trans(entered, before, *self);
                                lemma_kept_consts_trans(*old(self), entered, *self);
                            }
                            return Err(e);
                        },
                    }
                    proof {
                        lemma_kept_consts_trans(entered, before, *self);
                                lemma_kept_consts_trans(*old(self), entered, *self);
                    }
                    i = i + 1;
                }
                let mut callee_scopes = Scopes::new();
                let ghost arg_count = values@.len();
                let mut k = values.len();
                while k > 0
                    invariant
                        values@.len() == k,
                        k <= arg_count,
                        arg_count == f.args@.len(),
                        callee_scopes.wf(),
                        callee_scopes@.len() > 0,
                    decreases k,
                {
                    k = k - 1;
                    let v = match values.pop() {
                        Some(v) => v,
                        None => {
                            proof {
                                assert(false);
                            }
                            unreached()
                        },
                    };
                    match callee_scopes.decl(f.args[k].clone(), v) {
                        Ok(()) => {},
                        Err(_) => {
                            proof {
                                assert(false);
                            }
                            unreached()
                        },
                    }
                }
                let ghost argdone = *self;
                core::mem::swap(&mut self.scopes, &mut callee_scopes);
                let saved_item = self.item;
                self.item = id;
                let ghost before = *self;
                proof {
                    assert(before.consts == argdone.consts);
                    assert(before.budget == argdone.budget);
                    assert(kept_consts(entered, before));
                }
                let res = self.eval(q, &f.ir, used);
                let ghost after_eval = *self;
                self.item = saved_item;
                core::mem::swap(&mut self.scopes, &mut callee_scopes);
                proof {
                    assert(self.consts == after_eval.consts);
                    assert(self.budget == after_eval.budget);
                    assert(kept_consts(before, after_eval));
                    assert(kept_consts(after_eval, *self));
                    lemma_kept_consts_trans(before, after_eval, *self);
                    lemma_kept_consts_trans(entered, before, *self);
                    lemma_kept_consts_trans(*old(self), entered, *self);
                }
                res
            },
            IrKind::Vector(items) => {
                let r = self.eval_list(q, items, used);
                proof {
                    lemma_kept_consts_trans(*old(self), entered, *self);
                }
                match r {
                    Ok(vs) => Ok(IrValue::Vector(vs)),
                    Err(e) => Err(e),
                }
            },
            IrKind::Tuple(items) => {
                let r = self.eval_list(q, items, used);
                proof {
                    lemma_kept_consts_trans(*old(self), entered, *self);
                }
                match r {
                    Ok(vs) => Ok(IrValue::Tuple(vs)),
                    Err(e) => Err(e),
                }
            },
            IrKind::Object(entries) => {
                let r = self.eval_entries(q, entries, used);
                proof {
                    lemma_kept_consts_trans(*old(self), entered, *self);
                }
                match r {
                    Ok(vs) => Ok(IrValue::Object(vs)),
                    Err(e) => Err(e),
                }
            },
            IrKind::NotConstExpr => Err(EvalOutcome::NotConst(ir.span)),
        }
    }
}

} // verus!
