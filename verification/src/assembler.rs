//! The assembler: the central driver that emits stack-machine instructions,
//! resolves referenced items through the query system and the host context,
//! and invokes the constant evaluator for constant functions.

use vstd::prelude::*;

use crate::budget::DEFAULT_BUDGET;
use crate::error::CompileError;
use crate::error::CompileErrorKind;
use crate::hir::expr;
use crate::hir::Hir;
use crate::interp::IrInterpreter;
use crate::ir::IrFn;
use crate::ir::IrKind;
use crate::ir::IrTargetKind;
use crate::value::Val;
use crate::meta::ContextMeta;
use crate::meta::ItemMeta;
use crate::meta::Meta;
use crate::meta::MetaInfo;
use crate::meta::EMPTY_HASH;
use crate::pool::ItemId;
use crate::query::Query;
use crate::query::Used;
use crate::scopes::ScopeGuard;
use crate::span::SourceId;
use crate::span::Span;
use crate::value::ConstValue;
use crate::visitor::CompileVisitor;
use crate::warning::Diagnostics;

verus! {

/// A needs hint for an expression: what the surrounding context expects the
/// expression to leave on the stack.
#[derive(Debug, Clone, Copy, PartialEq, Eq, Structural)]
pub enum Needs {
    /// A type is expected.
    Type,
    /// A value is expected.
    Value,
    /// Nothing is expected; the expression's value is discarded.
    Nothing,
}

impl Needs {
    /// Whether any sort of value is needed, in the model.
    pub open spec fn spec_value(self) -> bool {
        self == Needs::Type || self == Needs::Value
    }

    /// Test if any sort of value is needed.
    pub fn value(self) -> (r: bool)
        ensures
            r == self.spec_value(),
    {
        matches!(self, Needs::Type | Needs::Value)
    }
}

/// A stack-machine instruction, as far as this core reads them. Other
/// instructions of the target machine are opaque to it.
#[derive(Debug, Clone, Copy, PartialEq, Eq, Structural)]
pub enum Inst {
    /// Pop the top of the stack.
    Pop,
    /// Pop a number of values off the stack.
    PopN {
        /// How many values to pop.
        count: usize,
    },
    /// Pop a number of values under the top of the stack, preserving the
    /// value on top.
    Clean {
        /// How many values to pop under the top.
        count: usize,
    },
    /// Jump to a label.
    Jump {
        /// The label jumped to.
        label: usize,
    },
}

/// The emitted artifact: an ordered sequence of instructions, each carrying
/// the span it was emitted for, plus a label table and a constant pool.
#[derive(Debug)]
pub struct Assembly {
    instructions: Vec<(Inst, Span)>,
    labels: usize,
    constants: Vec<ConstValue>,
}

impl Assembly {
    /// The emitted instructions with their spans, in order.
    pub closed spec fn view(&self) -> Seq<(Inst, Span)> {
        self.instructions@
    }

    /// How many labels have been handed out.
    pub closed spec fn labels(&self) -> nat {
        self.labels as nat
    }

    /// The constant pool.
    pub closed spec fn constants(&self) -> Seq<ConstValue> {
        self.constants@
    }

    /// An empty assembly.
    pub fn new() -> (r: Assembly)
        ensures
            r@.len() == 0,
            r.labels() == 0,
            r.constants().len() == 0,
    {
        Assembly { instructions: Vec::new(), labels: 0, constants: Vec::new() }
    }

    /// Emit one instruction.
    pub fn push(&mut self, inst: Inst, span: Span)
        ensures
            final(self)@ == old(self)@.push((inst, span)),
            final(self).labels() == old(self).labels(),
            final(self).constants() == old(self).constants(),
    {
        self.instructions.push((inst, span));
    }

    /// Hand out a fresh label.
    pub fn new_label(&mut self) -> (label: usize)
        requires
            old(self).labels() < usize::MAX,
        ensures
            label == old(self).labels(),
            final(self).labels() == old(self).labels() + 1,
            final(self)@ == old(self)@,
            final(self).constants() == old(self).constants(),
    {
        let label = self.labels;
        self.labels = self.labels + 1;
        label
    }

    /// Add a constant to the pool, handing back its position.
    pub fn add_constant(&mut self, value: ConstValue) -> (r: usize)
        ensures
            final(self).constants() == old(self).constants().push(value),
            r == old(self).constants().len(),
            final(self)@ == old(self)@,
            final(self).labels() == old(self).labels(),
    {
        let i = self.constants.len();
        self.constants.push(value);
        i
    }

    /// The emitted instructions, for the runtime to take over.
    pub fn instructions(&self) -> (r: &Vec<(Inst, Span)>)
        ensures
            r@ == self@,
    {
        &self.instructions
    }
}

/// The lexical scopes of assembly: each scope counts the local variables
/// declared in it. Pushing returns a guard; popping requires the guard of
/// the most recent push not yet popped.
#[derive(Debug)]
pub struct AsmScopes {
    scopes: Vec<usize>,
}

impl AsmScopes {
    /// The local-variable counts of the open scopes, outermost first.
    pub closed spec fn view(&self) -> Seq<usize> {
        self.scopes@
    }

    /// A stack holding one scope with no locals.
    pub fn new() -> (r: AsmScopes)
        ensures
            r@ == seq![0usize],
    {
        let mut scopes: Vec<usize> = Vec::new();
        scopes.push(0);
        let r = AsmScopes { scopes };
        proof {
            assert(r@ =~= seq![0usize]);
        }
        r
    }

    /// Push a fresh scope.
    pub fn push_scope(&mut self) -> (g: ScopeGuard)
        ensures
            final(self)@ == old(self)@.push(0usize),
            g.depth == old(self)@.len(),
    {
        let g = ScopeGuard { depth: self.scopes.len() };
        self.scopes.push(0);
        g
    }

    /// Declare one local in the innermost scope, handing back its offset
    /// within that scope. Fails only on an empty stack or a full scope.
    pub fn decl_var(&mut self) -> (r: Option<usize>)
        ensures
            r matches Some(offset) ==> old(self)@.len() > 0 && offset == old(self)@.last()
                && final(self)@ == old(self)@.update(
                old(self)@.len() - 1,
                (old(self)@.last() + 1) as usize,
            ),
            r is None ==> final(self)@ == old(self)@ && (old(self)@.len() == 0 || old(
                self,
            )@.last() == usize::MAX),
    {
        if self.scopes.len() == 0 {
            return None;
        }
        let n = self.scopes.len();
        let count = self.scopes[n - 1];
        if count == usize::MAX {
            return None;
        }
        self.scopes.set(n - 1, count + 1);
        Some(count)
    }

    /// Pop the topmost scope, handing back its local count. Succeeds
    /// exactly when the guard is the one of the most recent unmatched push.
    pub fn pop_scope(&mut self, guard: ScopeGuard) -> (r: Option<usize>)
        ensures
            r is Some <==> old(self)@.len() == guard.depth + 1,
            r matches Some(count) ==> count == old(self)@.last() && final(self)@ == old(
                self,
            )@.drop_last(),
            r is None ==> final(self)@ == old(self)@,
    {
        if self.scopes.len() > 0 && self.scopes.len() - 1 == guard.depth {
            let count = self.scopes.pop().unwrap();
            Some(count)
        } else {
            None
        }
    }

    /// Depth of the stack.
    pub fn depth(&self) -> (r: usize)
        ensures
            r == self@.len(),
    {
        self.scopes.len()
    }

    /// The total number of locals declared over all open scopes.
    pub fn total_locals(&self) -> (r: usize)
        requires
            sum_locals(self@) <= usize::MAX,
        ensures
            r == sum_locals(self@),
    {
        let mut total: usize = 0;
        let mut i: usize = 0;
        proof {
            assert(self@.take(0) =~= Seq::<usize>::empty());
        }
        while i < self.scopes.len()
            invariant
                i <= self.scopes@.len(),
                total == sum_locals(self@.take(i as int)),
                sum_locals(self@) <= usize::MAX,
            decreases self.scopes@.len() - i,
        {
            proof {
                lemma_sum_locals_step(self@, i as int);
                lemma_sum_locals_bound(self@, i + 1);
            }
            total = total + self.scopes[i];
            i = i + 1;
        }
        proof {
            assert(self@.take(self@.len() as int) =~= self@);
        }
        total
    }
}

/// The sum of the local counts of a scope stack.
pub open spec fn sum_locals(s: Seq<usize>) -> int
    decreases s,
{
    if s.len() == 0 {
        0
    } else {
        sum_locals(s.drop_last()) + s.last()
    }
}

/// One step of a left-to-right walk over the local counts.
proof fn lemma_sum_locals_step(s: Seq<usize>, i: int)
    requires
        0 <= i < s.len(),
    ensures
        sum_locals(s.take(i + 1)) == sum_locals(s.take(i)) + s[i],
{
    assert(s.take(i + 1).drop_last() =~= s.take(i));
    assert(s.take(i + 1).last() == s[i]);
    assert(s.take(i + 1).len() > 0);
}

/// Every prefix sum is bounded by the whole sum.
proof fn lemma_sum_locals_bound(s: Seq<usize>, i: int)
    requires
        0 <= i <= s.len(),
    ensures
        sum_locals(s.take(i)) <= sum_locals(s),
    decreases s.len() - i,
{
    if i == s.len() {
        assert(s.take(i) =~= s);
    } else {
        lemma_sum_locals_step(s, i);
        lemma_sum_locals_bound(s, i + 1);
    }
}

/// The instructions a grouped pop of some locals emits.
pub open spec fn pop_insts(count: usize, span: Span) -> Seq<(Inst, Span)> {
    if count == 0 {
        Seq::empty()
    } else if count == 1 {
        seq![(Inst::Pop, span)]
    } else {
        seq![(Inst::PopN { count }, span)]
    }
}

/// The instructions a top-preserving clean of some locals emits.
pub open spec fn clean_insts(count: usize, span: Span) -> Seq<(Inst, Span)> {
    if count == 0 {
        Seq::empty()
    } else {
        seq![(Inst::Clean { count }, span)]
    }
}

/// A loop frame: what a break or continue inside the loop needs to know.
#[derive(Debug, Clone, Copy, PartialEq, Eq, Structural)]
pub struct LoopFrame {
    /// The label of the loop's head.
    pub start_label: usize,
    /// The label jumped to by a break.
    pub break_label: usize,
    /// Whether the surrounding context expects the loop to produce a value.
    pub expects_value: bool,
    /// The total number of locals live when the loop was entered.
    pub locals_at_entry: usize,
}

/// The stack of loop frames the assembler currently stands in.
#[derive(Debug)]
pub struct Loops {
    frames: Vec<LoopFrame>,
}

impl Loops {
    /// The open frames, outermost first.
    pub closed spec fn view(&self) -> Seq<LoopFrame> {
        self.frames@
    }

    /// No open loop.
    pub fn new() -> (r: Loops)
        ensures
            r@.len() == 0,
    {
        Loops { frames: Vec::new() }
    }

    /// Enter a loop.
    pub fn enter(&mut self, frame: LoopFrame)
        ensures
            final(self)@ == old(self)@.push(frame),
    {
        self.frames.push(frame);
    }

    /// Leave the innermost loop.
    pub fn exit(&mut self) -> (r: Option<LoopFrame>)
        ensures
            old(self)@.len() > 0 ==> (r == Some(old(self)@.last()) && final(self)@ == old(
                self,
            )@.drop_last()),
            old(self)@.len() == 0 ==> r is None && final(self)@ == old(self)@,
    {
        self.frames.pop()
    }

    /// The innermost frame, which an unlabelled break consults.
    pub fn last(&self) -> (r: Option<&LoopFrame>)
        ensures
            self@.len() > 0 ==> (r matches Some(f) && *f == self@.last()),
            self@.len() == 0 ==> r is None,
    {
        if self.frames.len() > 0 {
            Some(&self.frames[self.frames.len() - 1])
        } else {
            None
        }
    }
}

/// A constant function elaborated from user source, as handed to the
/// assembler for a call.
pub struct QueryConstFn {
    /// The reduced function.
    pub ir_fn: IrFn,
    /// Where the function lives.
    pub item_meta: ItemMeta,
}

/// The host context: the read-only registrations a host makes available to
/// a compile unit.
pub struct Context {
    metas: Vec<ContextMeta>,
}

/// Whether one registration matches a selection: it is for the item, it
/// names a callable or addressable value, and its parameters hash is the
/// requested one.
pub open spec fn selectable(cm: ContextMeta, item: ItemId, parameters: u64) -> bool {
    cm.item == item && cm.kind.spec_is_value() && cm.parameters == parameters
}

/// How many registrations of a list match a selection.
pub open spec fn count_selectable(s: Seq<ContextMeta>, item: ItemId, parameters: u64) -> nat
    decreases s,
{
    if s.len() == 0 {
        0
    } else {
        count_selectable(s.drop_last(), item, parameters) + if selectable(
            s.last(),
            item,
            parameters,
        ) {
            1nat
        } else {
            0nat
        }
    }
}

/// The descriptions of every registration made for an item, in
/// registration order.
pub open spec fn infos_for(s: Seq<ContextMeta>, item: ItemId) -> Seq<MetaInfo>
    decreases s,
{
    if s.len() == 0 {
        Seq::empty()
    } else if s.last().item == item {
        infos_for(s.drop_last(), item).push(s.last().info_model())
    } else {
        infos_for(s.drop_last(), item)
    }
}

/// One step of a left-to-right walk over the descriptions for an item.
proof fn lemma_infos_for_step(s: Seq<ContextMeta>, item: ItemId, i: int)
    requires
        0 <= i < s.len(),
    ensures
        s[i].item == item ==> infos_for(s.take(i + 1), item) == infos_for(s.take(i), item).push(
            s[i].info_model(),
        ),
        s[i].item != item ==> infos_for(s.take(i + 1), item) == infos_for(s.take(i), item),
{
    assert(s.take(i + 1).drop_last() =~= s.take(i));
    assert(s.take(i + 1).last() == s[i]);
    assert(s.take(i + 1).len() > 0);
}

/// One step of a left-to-right walk over the selectable count.
proof fn lemma_count_selectable_step(s: Seq<ContextMeta>, item: ItemId, parameters: u64, i: int)
    requires
        0 <= i < s.len(),
    ensures
        count_selectable(s.take(i + 1), item, parameters) == count_selectable(
            s.take(i),
            item,
            parameters,
        ) + if selectable(s[i], item, parameters) {
            1nat
        } else {
            0nat
        },
{
    assert(s.take(i + 1).drop_last() =~= s.take(i));
    assert(s.take(i + 1).last() == s[i]);
    assert(s.take(i + 1).len() > 0);
}

/// A later count is at least an earlier one.
proof fn lemma_count_selectable_mono(s: Seq<ContextMeta>, item: ItemId, parameters: u64, i: int)
    requires
        0 <= i <= s.len(),
    ensures
        count_selectable(s.take(i), item, parameters) <= count_selectable(s, item, parameters),
    decreases s.len() - i,
{
    if i == s.len() {
        assert(s.take(i) =~= s);
    } else {
        lemma_count_selectable_step(s, item, parameters, i);
        lemma_count_selectable_mono(s, item, parameters, i + 1);
    }
}

impl Context {
    /// The registrations, in registration order.
    pub closed spec fn view(&self) -> Seq<ContextMeta> {
        self.metas@
    }

    /// A context with no registrations.
    pub fn new() -> (r: Context)
        ensures
            r@.len() == 0,
    {
        Context { metas: Vec::new() }
    }

    /// Register an item.
    pub fn register(&mut self, cm: ContextMeta)
        ensures
            final(self)@ == old(self)@.push(cm),
    {
        self.metas.push(cm);
    }

    /// The descriptions of the registrations made for one item, in order.
    pub fn lookup_meta(&self, item: ItemId) -> (r: Vec<MetaInfo>)
        ensures
            r@ == infos_for(self@, item),
    {
        let ghost cms = self@;
        let mut out: Vec<MetaInfo> = Vec::new();
        let mut i: usize = 0;
        proof {
            assert(cms.take(0) =~= Seq::<ContextMeta>::empty());
        }
        while i < self.metas.len()
            invariant
                i <= self.metas@.len(),
                cms == self.metas@,
                out@ == infos_for(cms.take(i as int), item),
            decreases self.metas@.len() - i,
        {
            proof {
                lemma_infos_for_step(cms, item, i as int);
            }
            if self.metas[i].item == item {
                let info = self.metas[i].info();
                out.push(info);
            }
            i = i + 1;
        }
        proof {
            assert(cms.take(self.metas@.len() as int) =~= cms);
        }
        out
    }
}

/// The assembler for one compile unit.
pub struct Assembler<V: CompileVisitor> {
    /// The source id of the source being compiled.
    pub source_id: SourceId,
    /// The host context compiled against.
    pub context: Context,
    /// The query system: pool, meta store, and declarations.
    pub q: Query,
    /// The assembly being generated.
    pub assembly: Assembly,
    /// The lexical scopes of the assembly.
    pub scopes: AsmScopes,
    /// The contexts for which warnings are emitted, innermost last.
    pub contexts: Vec<Span>,
    /// The nesting of loops currently stood in.
    pub loops: Loops,
    /// Compilation warnings and errors.
    pub diagnostics: Diagnostics,
    /// The visitor told of every resolved meta.
    pub visitor: V,
}

impl<V: CompileVisitor> Assembler<V> {
    /// Pick the context registration to compile for an item: of the
    /// registrations that name a value and carry the requested parameters
    /// hash, exactly one may match. None matching is answered with nothing;
    /// two or more matching is ambiguous, and the report lists every
    /// registration fetched for the item.
    pub fn select_context_meta(&self, item: ItemId, parameters: Option<u64>) -> (r: Result<
        Option<usize>,
        CompileErrorKind,
    >)
        ensures
            ({
                let params = match parameters {
                    Some(p) => p,
                    None => EMPTY_HASH,
                };
                let n = count_selectable(self.context@, item, params);
                &&& n == 0 ==> r == Ok::<Option<usize>, CompileErrorKind>(None)
                &&& n == 1 ==> (r matches Ok(Some(i)) && i < self.context@.len() && selectable(
                    self.context@[i as int],
                    item,
                    params,
                ))
                &&& n >= 2 ==> (r matches Err(e) && e matches
                    CompileErrorKind::AmbiguousContextItem { item: it, infos } && it == item
                    && infos@ == infos_for(self.context@, item))
            }),
    {
        let params = match parameters {
            Some(p) => p,
            None => EMPTY_HASH,
        };
        let ghost cms = self.context@;
        let metas = &self.context.metas;
        let mut first: Option<usize> = None;
        let mut count: usize = 0;
        let mut i: usize = 0;
        proof {
            assert(cms.take(0) =~= Seq::<ContextMeta>::empty());
        }
        while i < metas.len()
            invariant
                i <= metas@.len(),
                cms == metas@,
                count == count_selectable(cms.take(i as int), item, params),
                count <= i,
                count == 0 ==> first is None,
                count > 0 ==> (first matches Some(f) && f < i && selectable(
                    cms[f as int],
                    item,
                    params,
                )),
            decreases metas@.len() - i,
        {
            proof {
                lemma_count_selectable_step(cms, item, params, i as int);
            }
            let cm = &metas[i];
            if cm.item == item && cm.kind.is_value() && cm.parameters == params {
                if first.is_none() {
                    first = Some(i);
                }
                count = count + 1;
            }
            i = i + 1;
        }
        proof {
            assert(cms.take(metas@.len() as int) =~= cms);
        }
        if count == 0 {
            return Ok(None);
        }
        if count == 1 {
            return Ok(first);
        }
        let infos = self.context.lookup_meta(item);
        Err(CompileErrorKind::AmbiguousContextItem { item, infos })
    }

    /// Access the meta for the given language item, if one can be found.
    ///
    /// Without requested parameters the query store is consulted first; on
    /// a hit the stored meta is answered. Otherwise the host registrations
    /// for the item are filtered: one match is copied into the store and
    /// answered, none is answered with nothing, and several matches are
    /// ambiguous. The visitor is told of every resolution.
    pub fn try_lookup_meta(&mut self, span: Span, item: ItemId, generics: Option<u64>) -> (r:
        Result<Option<&Meta>, CompileError>)
        ensures
            old(self).q.wf() ==> final(self).q.wf(),
            final(self).q.spec_pool() == old(self).q.spec_pool(),
            final(self).q.decl_consts() == old(self).q.decl_consts(),
            final(self).q.decl_fns() == old(self).q.decl_fns(),
            final(self).context@ == old(self).context@,
            generics is None && old(self).q.metas().contains_key(
                (item as int, EMPTY_HASH as int),
            ) ==> (r matches Ok(Some(m)) && *m == old(self).q.metas()[
                (item as int, EMPTY_HASH as int)
            ] && final(self).q.metas() == old(self).q.metas()),
            ({
                let params = match generics {
                    Some(p) => p,
                    None => EMPTY_HASH,
                };
                let n = count_selectable(old(self).context@, item, params);
                &&& (!(generics is None && old(self).q.metas().contains_key(
                    (item as int, EMPTY_HASH as int),
                )) && n == 0) ==> (r matches Ok(o) && o is None && final(self).q.metas() == old(
                    self,
                ).q.metas())
                &&& (!(generics is None && old(self).q.metas().contains_key(
                    (item as int, EMPTY_HASH as int),
                )) && n >= 2) ==> (r matches Err(e) && e.kind matches
                    CompileErrorKind::AmbiguousContextItem { item: it, infos } && it == item
                    && infos@ == infos_for(old(self).context@, item) && final(self).q.metas()
                    == old(self).q.metas())
                &&& (!(generics is None && old(self).q.metas().contains_key(
                    (item as int, EMPTY_HASH as int),
                )) && n == 1) ==> (r matches Ok(Some(m)) && m.item_meta.item == item
                    && m.parameters == params && final(self).q.metas().contains_key(
                    (item as int, params as int),
                ) && *m == final(self).q.metas()[(item as int, params as int)])
            }),
    {
        if generics.is_none() {
            if self.q.query_meta(span, item, Used::Used).is_some() {
                let m = match self.q.query_meta(span, item, Used::Used) {
                    Some(m) => m,
                    None => {
                        proof {
                            assert(false);
                        }
                        unreached()
                    },
                };
                self.visitor.visit_meta(self.source_id, m, span);
                let m = match self.q.query_meta(span, item, Used::Used) {
                    Some(m) => m,
                    None => {
                        proof {
                            assert(false);
                        }
                        unreached()
                    },
                };
                return Ok(Some(m));
            }
        }
        let sel = match self.select_context_meta(item, generics) {
            Ok(sel) => sel,
            Err(kind) => {
                return Err(CompileError::new(span, kind));
            },
        };
        let idx = match sel {
            Some(idx) => idx,
            None => {
                return Ok(None);
            },
        };
        let cm = &self.context.metas[idx];
        let m = self.q.insert_context_meta(span, cm);
        self.visitor.visit_meta(self.source_id, m, span);
        let m = match self.q.get_meta(item, cm.as_parameters()) {
            Some(m) => m,
            None => {
                proof {
                    assert(false);
                }
                unreached()
            },
        };
        Ok(Some(m))
    }

    /// Access the meta for the given language item, failing when none can
    /// be found: without requested parameters the item is missing, with
    /// them the item is missing under those parameters.
    pub fn lookup_meta(&mut self, span: Span, item: ItemId, parameters: Option<u64>) -> (r: Result<
        &Meta,
        CompileError,
    >)
        ensures
            old(self).q.wf() ==> final(self).q.wf(),
            final(self).q.spec_pool() == old(self).q.spec_pool(),
            final(self).q.decl_consts() == old(self).q.decl_consts(),
            final(self).q.decl_fns() == old(self).q.decl_fns(),
            final(self).context@ == old(self).context@,
            ({
                let params = match parameters {
                    Some(p) => p,
                    None => EMPTY_HASH,
                };
                let store_hit = parameters is None && old(self).q.metas().contains_key(
                    (item as int, EMPTY_HASH as int),
                );
                let n = count_selectable(old(self).context@, item, params);
                &&& store_hit ==> (r matches Ok(m) && *m == old(self).q.metas()[
                    (item as int, EMPTY_HASH as int)
                ] && final(self).q.metas() == old(self).q.metas())
                &&& (!store_hit && n == 1) ==> (r matches Ok(m) && m.item_meta.item == item
                    && m.parameters == params && final(self).q.metas().contains_key(
                    (item as int, params as int),
                ) && *m == final(self).q.metas()[(item as int, params as int)])
                &&& (!store_hit && n == 0 && parameters is None) ==> (r matches Err(e) && e.kind
                    matches CompileErrorKind::MissingItem { item: it } && it == item)
                &&& (!store_hit && n == 0 && parameters is Some) ==> (r matches Err(e) && e.kind
                    matches CompileErrorKind::MissingItemParameters { item: it, parameters: ps }
                    && it == item && ps == parameters->Some_0)
                &&& (!store_hit && n >= 2) ==> (r matches Err(e) && e.kind matches
                    CompileErrorKind::AmbiguousContextItem { item: it, infos } && it == item
                    && infos@ == infos_for(old(self).context@, item))
                &&& r is Ok <==> (store_hit || (!store_hit && n == 1))
            }),
    {
        let r = self.try_lookup_meta(span, item, parameters);
        match r {
            Ok(Some(m)) => Ok(m),
            Ok(None) => {
                let kind = match parameters {
                    Some(parameters) => CompileErrorKind::MissingItemParameters {
                        item,
                        parameters,
                    },
                    None => CompileErrorKind::MissingItem { item },
                };
                Err(CompileError::new(span, kind))
            },
            Err(e) => Err(e),
        }
    }

    /// Pop locals by simply popping them: one pop for a single local, one
    /// grouped pop for several, nothing for none.
    pub fn locals_pop(&mut self, total_var_count: usize, span: Span)
        ensures
            total_var_count == 0 ==> final(self).assembly@ == old(self).assembly@,
            total_var_count == 1 ==> final(self).assembly@ == old(self).assembly@.push((Inst::Pop, span)),
            total_var_count > 1 ==> final(self).assembly@ == old(self).assembly@.push(
                (Inst::PopN { count: total_var_count }, span),
            ),
            final(self).assembly.labels() == old(self).assembly.labels(),
            final(self).assembly.constants() == old(self).assembly.constants(),
            final(self).scopes@ == old(self).scopes@,
            final(self).loops@ == old(self).loops@,
            final(self).contexts@ == old(self).contexts@,
            final(self).diagnostics.warnings@ == old(self).diagnostics.warnings@,
            final(self).diagnostics.errors@ == old(self).diagnostics.errors@,
    {
        if total_var_count == 0 {
        } else if total_var_count == 1 {
            self.assembly.push(Inst::Pop, span);
        } else {
            self.assembly.push(Inst::PopN { count: total_var_count }, span);
        }
    }

    /// Clean up local variables by preserving the value on top of the
    /// stack and popping the values under it; nothing is emitted for none.
    pub fn locals_clean(&mut self, total_var_count: usize, span: Span)
        ensures
            total_var_count == 0 ==> final(self).assembly@ == old(self).assembly@,
            total_var_count > 0 ==> final(self).assembly@ == old(self).assembly@.push(
                (Inst::Clean { count: total_var_count }, span),
            ),
            final(self).assembly.labels() == old(self).assembly.labels(),
            final(self).assembly.constants() == old(self).assembly.constants(),
            final(self).scopes@ == old(self).scopes@,
            final(self).loops@ == old(self).loops@,
            final(self).contexts@ == old(self).contexts@,
            final(self).diagnostics.warnings@ == old(self).diagnostics.warnings@,
            final(self).diagnostics.errors@ == old(self).diagnostics.errors@,
    {
        if total_var_count == 0 {
        } else {
            self.assembly.push(Inst::Clean { count: total_var_count }, span);
        }
    }

    /// Convert a path into the stable identifier of the named item.
    pub fn convert_path(&mut self, path: Vec<String>) -> (r: ItemId)
        requires
            old(self).q.wf(),
        ensures
            final(self).q.wf(),
            r < final(self).q.spec_pool()@.len(),
            final(self).q.spec_pool()@.len() >= old(self).q.spec_pool()@.len(),
            final(self).q.spec_pool()@[r as int] == crate::pool::path_model(path@),
            final(self).context@ == old(self).context@,
            final(self).assembly@ == old(self).assembly@,
            final(self).scopes@ == old(self).scopes@,
            final(self).loops@ == old(self).loops@,
            final(self).contexts@ == old(self).contexts@,
            final(self).diagnostics.warnings@ == old(self).diagnostics.warnings@,
            final(self).diagnostics.errors@ == old(self).diagnostics.errors@,
            forall|j: int|
                0 <= j < old(self).q.spec_pool()@.len() ==> final(self).q.spec_pool()@[j] == old(
                    self,
                ).q.spec_pool()@[j],
            final(self).q.metas() == old(self).q.metas(),
            final(self).q.decl_consts() == old(self).q.decl_consts(),
            final(self).q.decl_fns() == old(self).q.decl_fns(),
    {
        self.q.intern(path)
    }

    /// Clean the last scope: pop it, then keep the top of the stack when
    /// the context wants a value, or pop everything otherwise.
    pub fn clean_last_scope(&mut self, span: Span, expected: ScopeGuard, needs: Needs) -> (r:
        Result<(), CompileError>)
        ensures
            r is Ok <==> old(self).scopes@.len() == expected.depth + 1,
            r is Err ==> final(self).assembly@ == old(self).assembly@ && final(self).scopes@ == old(
                self,
            ).scopes@,
            r is Ok ==> ({
                let count = old(self).scopes@.last();
                &&& final(self).scopes@ == old(self).scopes@.drop_last()
                &&& needs.spec_value() && count > 0 ==> final(self).assembly@ == old(self).assembly@.push(
                    (Inst::Clean { count }, span),
                )
                &&& !needs.spec_value() && count == 1 ==> final(self).assembly@ == old(self).assembly@.push(
                    (Inst::Pop, span),
                )
                &&& !needs.spec_value() && count > 1 ==> final(self).assembly@ == old(self).assembly@.push(
                    (Inst::PopN { count }, span),
                )
                &&& count == 0 ==> final(self).assembly@ == old(self).assembly@
            }),
    {
        let count = match self.scopes.pop_scope(expected) {
            Some(count) => count,
            None => {
                let depth = self.scopes.depth();
                return Err(
                    CompileError::new(
                        span,
                        CompileErrorKind::ScopeMismatch { guard: expected.depth, depth },
                    ),
                );
            },
        };
        if needs.value() {
            self.locals_clean(count, span);
        } else {
            self.locals_pop(count, span);
        }
        Ok(())
    }

    /// The latest relevant warning context.
    pub fn context(&self) -> (r: Option<Span>)
        ensures
            self.contexts@.len() > 0 ==> r == Some(self.contexts@.last()),
            self.contexts@.len() == 0 ==> r is None,
    {
        if self.contexts.len() > 0 {
            Some(self.contexts[self.contexts.len() - 1])
        } else {
            None
        }
    }

    /// Emit a break: consult the innermost loop frame, warn when the frame
    /// expects a value and the break produces none, emit the cleanup of the
    /// locals declared since the frame was entered, and jump to the frame's
    /// break label.
    pub fn assemble_break(&mut self, span: Span, has_value: bool) -> (r: Result<(), CompileError>)
        requires
            sum_locals(old(self).scopes@) <= usize::MAX,
        ensures
            old(self).loops@.len() == 0 ==> (r is Err && final(self).assembly@ == old(self).assembly@
                && final(self).diagnostics.warnings@ == old(self).diagnostics.warnings@),
            old(self).loops@.len() > 0 ==> ({
                let frame = old(self).loops@.last();
                let warned = frame.expects_value && !has_value;
                &&& r is Ok
                &&& warned ==> final(self).diagnostics.warnings@ == old(
                    self,
                ).diagnostics.warnings@.push(
                    crate::warning::Warning::BreakDoesNotProduceValue {
                        span,
                        context: if old(self).contexts@.len() > 0 {
                            Some(old(self).contexts@.last())
                        } else {
                            None
                        },
                    },
                )
                &&& !warned ==> final(self).diagnostics.warnings@ == old(
                    self,
                ).diagnostics.warnings@
                &&& ({
                    let count = (if sum_locals(old(self).scopes@) >= frame.locals_at_entry {
                        sum_locals(old(self).scopes@) - frame.locals_at_entry
                    } else {
                        0
                    }) as usize;
                    let cleanup = if frame.expects_value && has_value {
                        clean_insts(count, span)
                    } else {
                        pop_insts(count, span)
                    };
                    final(self).assembly@ == old(self).assembly@ + cleanup + seq![
                        (Inst::Jump { label: frame.break_label }, span),
                    ]
                })
                &&& final(self).assembly@.len() > 0 && final(self).assembly@.last() == (
                Inst::Jump { label: frame.break_label },
                span,
                )
            }),
    {
        let frame = match self.loops.last() {
            Some(f) => *f,
            None => {
                return Err(
                    CompileError::new(
                        span,
                        CompileErrorKind::Ir {
                            error: crate::error::IrError::new(
                                span,
                                crate::error::IrErrorKind::BreakOutsideOfLoop,
                            ),
                        },
                    ),
                );
            },
        };
        let produces_value = has_value;
        if frame.expects_value && !produces_value {
            let context = self.context();
            self.diagnostics.warnings.break_does_not_produce_value(span, context);
        }
        let total = self.scopes.total_locals();
        let to_clean = if total >= frame.locals_at_entry {
            total - frame.locals_at_entry
        } else {
            0
        };
        if frame.expects_value && produces_value {
            self.locals_clean(to_clean, span);
        } else {
            self.locals_pop(to_clean, span);
        }
        self.assembly.push(Inst::Jump { label: frame.break_label }, span);
        Ok(())
    }

    /// Call a constant function and return the resulting value.
    ///
    /// The number of supplied arguments must be the number the function
    /// declares. Each argument is lowered to IR in the caller's module and
    /// evaluated there; a fresh interpreter with [`DEFAULT_BUDGET`] steps is
    /// then seeded with the argument bindings, switched to the callee's
    /// item, and run over the body. With matching arity, every failure is a
    /// constant-evaluation failure.
    pub fn call_const_fn(
        &mut self,
        span: Span,
        meta: &Meta,
        from: &ItemMeta,
        const_fn: &QueryConstFn,
        args: &Vec<Hir>,
    ) -> (r: Result<ConstValue, CompileError>)
        requires
            old(self).q.wf(),
            from.item < old(self).q.spec_pool()@.len(),
            const_fn.item_meta.item < old(self).q.spec_pool()@.len(),
        ensures
            final(self).q == old(self).q,
            args@.len() != const_fn.ir_fn.args@.len() ==> (r matches Err(e) && e.kind matches
                CompileErrorKind::UnsupportedArgumentCount { meta: info, expected, actual }
                && info == meta.info_model() && expected == const_fn.ir_fn.args@.len() && actual
                == args@.len()),
            args@.len() == const_fn.ir_fn.args@.len() ==> (r matches Err(e) ==> e.kind matches
                CompileErrorKind::Ir { .. }),
            r is Ok ==> args@.len() == const_fn.ir_fn.args@.len(),
            args@.len() == const_fn.ir_fn.args@.len() ==> (crate::interp::pure_val(
                const_fn.ir_fn.ir,
            ) matches Some(m) ==> (r matches Ok(v) ==> v@ == m)),
            (args@.len() == 0 && const_fn.ir_fn.args@.len() == 0 && (crate::ir::ir_total(
                const_fn.ir_fn.ir,
            ) || crate::interp::pure_shallow(const_fn.ir_fn.ir)) && crate::ir::ir_size(
                const_fn.ir_fn.ir,
            ) <= DEFAULT_BUDGET) ==> r is Ok,
            args@.len() == 1 && const_fn.ir_fn.args@.len() == 1 ==> (args@[0].kind matches
                crate::hir::HirKind::Literal(c) ==> (const_fn.ir_fn.ir.kind matches
                IrKind::Target(t) ==> (t.kind matches IrTargetKind::Name(n) ==> (n@
                == const_fn.ir_fn.args@[0]@ ==> (r matches Ok(v) && v@ == c@))))),
    {
        if const_fn.ir_fn.args.len() != args.len() {
            return Err(
                CompileError::new(
                    span,
                    CompileErrorKind::UnsupportedArgumentCount {
                        meta: meta.info(),
                        expected: const_fn.ir_fn.args.len(),
                        actual: args.len(),
                    },
                ),
            );
        }
        let mut interpreter = IrInterpreter::new(DEFAULT_BUDGET, from.module, from.item);
        let mut i: usize = 0;
        while i < args.len()
            invariant
                i <= args@.len(),
                args@.len() == const_fn.ir_fn.args@.len(),
                self.q.wf(),
                self.q == old(self).q,
                interpreter.scopes.wf(),
                interpreter.item == from.item,
                from.item < self.q.spec_pool()@.len(),
                i == 0 ==> interpreter.budget.remaining() == DEFAULT_BUDGET
                    && interpreter.scopes@ == seq![Map::<Seq<char>, Val>::empty()],
                args@.len() == 1 ==> (args@[0].kind matches crate::hir::HirKind::Literal(c) ==> (i
                    == 1 ==> interpreter.budget.remaining() == DEFAULT_BUDGET - 1
                    && interpreter.scopes@ == seq![
                    Map::<Seq<char>, Val>::empty().insert(const_fn.ir_fn.args@[0]@, c@),
                ])),
            decreases args@.len() - i,
        {
            let ir = expr(&args[i]);
            let value = match interpreter.eval_value(&self.q, &ir, Used::Used) {
                Ok(v) => v,
                Err(error) => {
                    return Err(CompileError::new(span, CompileErrorKind::Ir { error }));
                },
            };
            proof {
                if args@.len() == 1 && args@[0].kind matches crate::hir::HirKind::Literal(_) {
                    assert(crate::ir::ir_total(ir));
                    assert(crate::ir::ir_size(ir) == 1);
                    assert(crate::interp::pure_val(ir) is Some);
                    assert(value@ == crate::interp::pure_val(ir)->Some_0);
                }
            }
            let name = const_fn.ir_fn.args[i].clone();
            let ghost nm = name@;
            let ghost vm = value@;
            match interpreter.scopes.decl(name, value) {
                Ok(()) => {},
                Err(k) => {
                    return Err(
                        CompileError::new(
                            span,
                            CompileErrorKind::Ir { error: crate::error::IrError::new(span, k) },
                        ),
                    );
                },
            }
            proof {
                if args@.len() == 1 && args@[0].kind matches crate::hir::HirKind::Literal(_) {
                    assert(nm == const_fn.ir_fn.args@[0]@);
                    assert(vm == crate::interp::pure_val(ir)->Some_0);
                    assert(interpreter.scopes@ =~= seq![
                        Map::<Seq<char>, Val>::empty().insert(nm, vm),
                    ]);
                }
            }
            i = i + 1;
        }
        interpreter.module = const_fn.item_meta.module;
        interpreter.item = const_fn.item_meta.item;
        let value = match interpreter.eval_value(&self.q, &const_fn.ir_fn.ir, Used::Used) {
            Ok(v) => v,
            Err(error) => {
                return Err(CompileError::new(span, CompileErrorKind::Ir { error }));
            },
        };
        Ok(value.into_const())
    }
}

} // verus!
