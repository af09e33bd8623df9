//! Lexical scopes for the constant evaluator, and the place operations
//! (read, write, mutate) the evaluator performs through them.
//!
//! A scope maps identifiers to working values. Scopes form a stack: pushing
//! returns a guard, and popping requires presenting the guard of the most
//! recent push that has not yet been popped.

use vstd::prelude::*;

use crate::error::IrError;
use crate::error::IrErrorKind;
use crate::ir::IrAssignOp;
use crate::ir::IrTarget;
use crate::span::Span;
use crate::ir::IrTargetKind;
use crate::value::IrValue;
use crate::value::Val;
use crate::value::ValueKind;

verus! {

/// Keys of a binding list are pairwise distinct.
pub open spec fn keys_unique(s: Seq<(String, IrValue)>) -> bool {
    forall|i: int, j: int|
        #![trigger s[i], s[j]]
        0 <= i < j < s.len() ==> s[i].0@ != s[j].0@
}

/// The mapping described by a binding list; a later binding overrides an
/// earlier one of the same name.
pub open spec fn entries_map(s: Seq<(String, IrValue)>) -> Map<Seq<char>, Val>
    decreases s,
{
    if s.len() == 0 {
        Map::empty()
    } else {
        entries_map(s.drop_last()).insert(s.last().0@, s.last().1@)
    }
}

/// With distinct keys, the mapping of a binding list is pointwise.
pub proof fn lemma_entries_map(s: Seq<(String, IrValue)>)
    requires
        keys_unique(s),
    ensures
        forall|i: int|
            0 <= i < s.len() ==> #[trigger] entries_map(s).contains_key(s[i].0@)
                && entries_map(s)[s[i].0@] == s[i].1@,
        forall|k: Seq<char>|
            #[trigger] entries_map(s).contains_key(k) ==> exists|i: int|
                0 <= i < s.len() && s[i].0@ == k,
    decreases s,
{
    if s.len() > 0 {
        assert forall|i: int, j: int|
            #![trigger s.drop_last()[i], s.drop_last()[j]]
            0 <= i < j < s.drop_last().len() implies s.drop_last()[i].0@
            != s.drop_last()[j].0@ by {
            assert(s.drop_last()[i] == s[i]);
            assert(s.drop_last()[j] == s[j]);
        }
        lemma_entries_map(s.drop_last());
        assert forall|i: int|
            0 <= i < s.len() implies #[trigger] entries_map(s).contains_key(s[i].0@)
            && entries_map(s)[s[i].0@] == s[i].1@ by {
            if i < s.len() - 1 {
                assert(s.drop_last()[i] == s[i]);
                assert(entries_map(s.drop_last()).contains_key(s.drop_last()[i].0@));
                assert(s[i].0@ != s[s.len() - 1].0@);
            }
        }
        assert forall|k: Seq<char>|
            #[trigger] entries_map(s).contains_key(k) implies exists|i: int|
            0 <= i < s.len() && s[i].0@ == k by {
            if k == s.last().0@ {
                assert(s[s.len() - 1].0@ == k);
            } else {
                assert(entries_map(s.drop_last()).contains_key(k));
                let i = choose|i: int|
                    0 <= i < s.drop_last().len() && s.drop_last()[i].0@ == k;
                assert(s[i].0@ == k);
            }
        }
    }
}

/// One lexical scope: a list of bindings with distinct names.
pub struct Scope {
    bindings: Vec<(String, IrValue)>,
}

impl Scope {
    /// The mapping from names to modelled values.
    pub closed spec fn view(&self) -> Map<Seq<char>, Val> {
        entries_map(self.bindings@)
    }

    /// The binding names are pairwise distinct.
    pub closed spec fn wf(&self) -> bool {
        keys_unique(self.bindings@)
    }

    /// An empty scope.
    pub fn new() -> (r: Scope)
        ensures
            r@ == Map::<Seq<char>, Val>::empty(),
            r.wf(),
    {
        Scope { bindings: Vec::new() }
    }

    /// Number of bindings held; the local-variable count of the scope.
    pub fn local_count(&self) -> (r: usize)
        requires
            self.wf(),
        ensures
            r == self@.dom().len(),
    {
        proof {
            lemma_entries_map(self.bindings@);
            lemma_scope_dom_len(self.bindings@);
        }
        self.bindings.len()
    }

    /// Position of a binding, if the name is bound.
    fn find(&self, name: &String) -> (r: Option<usize>)
        requires
            self.wf(),
        ensures
            match r {
                Some(i) => i < self.bindings@.len() && self.bindings@[i as int].0@ == name@
                    && self@.contains_key(name@) && self@[name@] == self.bindings@[i as int].1@,
                None => !self@.contains_key(name@),
            },
    {
        proof {
            lemma_entries_map(self.bindings@);
        }
        let mut i: usize = 0;
        while i < self.bindings.len()
            invariant
                self.wf(),
                i <= self.bindings.len(),
                forall|j: int| 0 <= j < i ==> self.bindings@[j].0@ != name@,
            decreases self.bindings.len() - i,
        {
            if self.bindings[i].0.eq(name) {
                proof {
                    lemma_entries_map(self.bindings@);
                }
                return Some(i);
            }
            i = i + 1;
        }
        proof {
            lemma_entries_map(self.bindings@);
            if self@.contains_key(name@) {
                let i = choose|i: int|
                    0 <= i < self.bindings@.len() && self.bindings@[i].0@ == name@;
                assert(self.bindings@[i].0@ == name@);
            }
        }
        None
    }

    /// Read the value bound to a name, if any.
    pub fn get(&self, name: &String) -> (r: Option<&IrValue>)
        requires
            self.wf(),
        ensures
            match r {
                Some(v) => self@.contains_key(name@) && self@[name@] == v@,
                None => !self@.contains_key(name@),
            },
    {
        match self.find(name) {
            Some(i) => Some(&self.bindings[i].1),
            None => None,
        }
    }

    /// Bind a name, overriding an existing binding of the same name.
    pub fn insert(&mut self, name: String, value: IrValue)
        requires
            old(self).wf(),
        ensures
            final(self).wf(),
            final(self)@ == old(self)@.insert(name@, value@),
    {
        let ghost name_model = name@;
        let ghost value_model = value@;
        match self.find(&name) {
            Some(i) => {
                self.bindings.set(i, (name, value));
                proof {
                    lemma_entries_map_update(old(self).bindings@, i as int, name_model,
                        value_model);
                    assert(self.bindings@ =~= old(self).bindings@.update(i as int,
                        self.bindings@[i as int]));
                    assert forall|a: int, b: int|
                        #![trigger self.bindings@[a], self.bindings@[b]]
                        0 <= a < b < self.bindings@.len() implies self.bindings@[a].0@
                        != self.bindings@[b].0@ by {
                        assert(old(self).bindings@[a].0@ != old(self).bindings@[b].0@);
                        assert(old(self).bindings@[i as int].0@ == name_model);
                    }
                }
            },
            None => {
                proof {
                    lemma_entries_map(self.bindings@);
                }
                self.bindings.push((name, value));
                proof {
                    assert(self.bindings@.drop_last() =~= old(self).bindings@);
                    assert forall|a: int, b: int|
                        #![trigger self.bindings@[a], self.bindings@[b]]
                        0 <= a < b < self.bindings@.len() implies self.bindings@[a].0@
                        != self.bindings@[b].0@ by {
                        if b < self.bindings@.len() - 1 {
                            assert(old(self).bindings@[a].0@ != old(self).bindings@[b].0@);
                        } else {
                            assert(self.bindings@[a] == old(self).bindings@[a]);
                            assert(old(self)@.contains_key(old(self).bindings@[a].0@));
                        }
                    }
                }
            },
        }
    }
}

/// With distinct keys, a binding list has as many bindings as its mapping
/// has names.
pub proof fn lemma_scope_dom_len(s: Seq<(String, IrValue)>)
    requires
        keys_unique(s),
    ensures
        entries_map(s).dom().len() == s.len(),
        entries_map(s).dom().finite(),
    decreases s,
{
    if s.len() > 0 {
        assert(keys_unique(s.drop_last()));
        lemma_scope_dom_len(s.drop_last());
        lemma_entries_map(s.drop_last());
        assert(!entries_map(s.drop_last()).contains_key(s.last().0@));
        assert(entries_map(s).dom() =~= entries_map(s.drop_last()).dom().insert(s.last().0@));
    }
}

/// Rebinding the position that holds a name updates the mapping at that
/// name alone.
pub proof fn lemma_entries_map_update(
    s: Seq<(String, IrValue)>,
    i: int,
    name: Seq<char>,
    value: Val,
)
    requires
        keys_unique(s),
        0 <= i < s.len(),
        s[i].0@ == name,
    ensures
        forall|p: (String, IrValue)|
            p.0@ == name && p.1@ == value ==> entries_map(s.update(i, p)) == entries_map(
                s,
            ).insert(name, value),
    decreases s,
{
    assert forall|p: (String, IrValue)|
        p.0@ == name && p.1@ == value implies entries_map(s.update(i, p)) == entries_map(
        s,
    ).insert(name, value) by {
        let t = s.update(i, p);
        if i == s.len() - 1 {
            assert(t.drop_last() =~= s.drop_last());
            assert(entries_map(t) == entries_map(s.drop_last()).insert(name, value));
            assert(entries_map(s).insert(name, value) =~= entries_map(s.drop_last()).insert(
                name,
                value,
            ));
        } else {
            assert forall|a: int, b: int|
                #![trigger s.drop_last()[a], s.drop_last()[b]]
                0 <= a < b < s.drop_last().len() implies s.drop_last()[a].0@
                != s.drop_last()[b].0@ by {
                assert(s.drop_last()[a] == s[a]);
                assert(s.drop_last()[b] == s[b]);
            }
            assert(s.drop_last()[i] == s[i]);
            lemma_entries_map_update(s.drop_last(), i, name, value);
            assert(t.drop_last() =~= s.drop_last().update(i, p));
            assert(t.last() == s.last());
            assert(entries_map(t) == entries_map(s.drop_last()).insert(name, value).insert(
                s.last().0@,
                s.last().1@,
            ));
            assert(s[i].0@ != s[s.len() - 1].0@);
            assert(entries_map(s.drop_last()).insert(name, value).insert(s.last().0@, s.last().1@)
                =~= entries_map(s.drop_last()).insert(s.last().0@, s.last().1@).insert(name,
                value));
        }
    }
}

/// A token enforcing pop-order: popping requires presenting the guard of the
/// most recent push that has not yet been popped.
#[derive(Debug, Clone, Copy, PartialEq, Eq, Structural)]
pub struct ScopeGuard {
    /// The depth at which the guarded scope was pushed.
    pub depth: usize,
}

/// The stack of lexical scopes.
pub struct Scopes {
    scopes: Vec<Scope>,
}

/// Whether presenting a guard may pop the topmost scope of a stack: exactly
/// when the guard's depth is the position of the topmost scope, which is the
/// depth the most recent unmatched push returned.
pub open spec fn pop_allowed(stack: Seq<Map<Seq<char>, Val>>, guard: ScopeGuard) -> bool {
    stack.len() == guard.depth + 1
}

/// Innermost-first lookup of a name through a stack of scopes.
pub open spec fn lookup(stack: Seq<Map<Seq<char>, Val>>, name: Seq<char>) -> Option<Val>
    decreases stack,
{
    if stack.len() == 0 {
        None
    } else if stack.last().contains_key(name) {
        Some(stack.last()[name])
    } else {
        lookup(stack.drop_last(), name)
    }
}

impl Scopes {
    /// The stack of mappings, outermost first.
    pub closed spec fn view(&self) -> Seq<Map<Seq<char>, Val>> {
        self.scopes@.map_values(|s: Scope| s@)
    }

    /// Every scope on the stack has distinct binding names.
    pub closed spec fn wf(&self) -> bool {
        forall|i: int| 0 <= i < self.scopes@.len() ==> #[trigger] self.scopes@[i].wf()
    }

    /// A stack holding one empty base scope.
    pub fn new() -> (r: Scopes)
        ensures
            r.wf(),
            r@.len() == 1,
            r@[0] == Map::<Seq<char>, Val>::empty(),
    {
        let mut scopes: Vec<Scope> = Vec::new();
        scopes.push(Scope::new());
        Scopes { scopes }
    }

    /// Depth of the stack.
    pub fn depth(&self) -> (r: usize)
        ensures
            r == self@.len(),
    {
        self.scopes.len()
    }

    /// Push a fresh scope; the returned guard must be presented to pop it.
    pub fn push(&mut self) -> (g: ScopeGuard)
        requires
            old(self).wf(),
        ensures
            final(self).wf(),
            final(self)@ == old(self)@.push(Map::<Seq<char>, Val>::empty()),
            g.depth == old(self)@.len(),
            pop_allowed(final(self)@, g),
    {
        let g = ScopeGuard { depth: self.scopes.len() };
        self.scopes.push(Scope::new());
        proof {
            assert(final(self)@ =~= old(self)@.push(Map::<Seq<char>, Val>::empty()));
        }
        g
    }

    /// Pop the topmost scope. Succeeds exactly when the guard is the one
    /// returned by the most recent push that has not yet been popped; the
    /// stack is unchanged otherwise.
    pub fn pop(&mut self, guard: ScopeGuard) -> (r: Result<Scope, IrErrorKind>)
        requires
            old(self).wf(),
        ensures
            final(self).wf(),
            r is Ok <==> pop_allowed(old(self)@, guard),
            r is Ok ==> final(self)@ == old(self)@.drop_last() && r->Ok_0@ == old(self)@.last()
                && r->Ok_0.wf(),
            r is Err ==> final(self)@ == old(self)@ && r->Err_0 == IrErrorKind::NoScopes,
    {
        if self.scopes.len() > 0 && self.scopes.len() - 1 == guard.depth {
            let scope = self.scopes.pop().unwrap();
            proof {
                assert(final(self)@ =~= old(self)@.drop_last());
            }
            Ok(scope)
        } else {
            Err(IrErrorKind::NoScopes)
        }
    }

    /// Declare a binding in the innermost scope. Fails only on an empty
    /// stack.
    pub fn decl(&mut self, name: String, value: IrValue) -> (r: Result<(), IrErrorKind>)
        requires
            old(self).wf(),
        ensures
            final(self).wf(),
            r is Ok <==> old(self)@.len() > 0,
            r is Ok ==> final(self)@ == old(self)@.update(
                old(self)@.len() - 1,
                old(self)@.last().insert(name@, value@),
            ),
            r is Err ==> final(self)@ == old(self)@ && r->Err_0 == IrErrorKind::NoScopes,
    {
        if self.scopes.len() == 0 {
            return Err(IrErrorKind::NoScopes);
        }
        let mut scope = self.scopes.pop().unwrap();
        proof {
            assert(scope.wf());
        }
        scope.insert(name, value);
        self.scopes.push(scope);
        proof {
            assert(final(self)@ =~= old(self)@.update(
                old(self)@.len() - 1,
                old(self)@.last().insert(name@, value@),
            ));
        }
        Ok(())
    }

    /// Innermost-first lookup: a clone of the bound value, if any scope
    /// binds the name.
    pub fn get(&self, name: &String) -> (r: Option<IrValue>)
        requires
            self.wf(),
        ensures
            match r {
                Some(v) => lookup(self@, name@) == Some(v@),
                None => lookup(self@, name@) is None,
            },
    {
        let mut k: usize = self.scopes.len();
        proof {
            assert(self@.subrange(0, k as int) =~= self@);
        }
        while k > 0
            invariant
                self.wf(),
                k <= self.scopes.len(),
                lookup(self@, name@) == lookup(self@.subrange(0, k as int), name@),
            decreases k,
        {
            proof {
                assert(self.scopes@[k - 1].wf());
            }
            match self.scopes[k - 1].get(name) {
                Some(v) => {
                    proof {
                        assert(self@.subrange(0, k as int).last() == self@[k - 1]);
                    }
                    return Some(v.duplicate());
                },
                None => {
                    proof {
                        assert(self@.subrange(0, k as int).drop_last() =~= self@.subrange(
                            0,
                            k - 1,
                        ));
                    }
                },
            }
            k = k - 1;
        }
        proof {
            assert(self@.subrange(0, 0) =~= Seq::<Map<Seq<char>, Val>>::empty());
        }
        None
    }
}

/// The outcome, in the model, of a place operation that fails.
pub enum TargetErr {
    /// No binding of the name is in scope.
    MissingName(Seq<char>),
    /// A value of the wrong kind stood in the place path: expected, actual.
    Expected(ValueKind, ValueKind),
    /// The object has no field of the name.
    MissingField(Seq<char>),
    /// The vector or tuple has no slot at the index.
    MissingIndex(int),
    /// The scope stack was empty.
    NoScopes,
    /// Checked integer arithmetic overflowed.
    Overflow,
    /// Division by zero.
    DivisionByZero,
}

/// Whether an executable error kind reports the modelled failure.
pub open spec fn err_matches(k: IrErrorKind, e: TargetErr) -> bool {
    match e {
        TargetErr::MissingName(n) => k matches IrErrorKind::MissingLocal { name } && name@ == n,
        TargetErr::Expected(expected, actual) => k == (IrErrorKind::ExpectedKind {
            expected,
            actual,
        }),
        TargetErr::MissingField(f) => k matches IrErrorKind::MissingField { field } && field@ == f,
        TargetErr::MissingIndex(i) => k matches IrErrorKind::MissingIndex { index } && index == i,
        TargetErr::NoScopes => k == IrErrorKind::NoScopes,
        TargetErr::Overflow => k == IrErrorKind::Overflow,
        TargetErr::DivisionByZero => k == IrErrorKind::DivisionByZero,
    }
}

/// First entry of an object holding a key, in the model.
pub open spec fn obj_find(es: Seq<(Seq<char>, Val)>, k: Seq<char>) -> Option<Val>
    decreases es.len(),
{
    if es.len() == 0 {
        None
    } else if es[0].0 == k {
        Some(es[0].1)
    } else {
        obj_find(es.skip(1), k)
    }
}

/// Insert or overwrite a key of an object, in the model: the first entry
/// holding the key is overwritten; a missing key is appended.
pub open spec fn obj_set(es: Seq<(Seq<char>, Val)>, k: Seq<char>, v: Val) -> Seq<
    (Seq<char>, Val),
>
    decreases es.len(),
{
    if es.len() == 0 {
        seq![(k, v)]
    } else if es[0].0 == k {
        es.update(0, (k, v))
    } else {
        seq![es[0]] + obj_set(es.skip(1), k, v)
    }
}

/// Setting a key and then finding it yields the value set.
pub proof fn lemma_obj_find_set(es: Seq<(Seq<char>, Val)>, k: Seq<char>, v: Val)
    ensures
        obj_find(obj_set(es, k, v), k) == Some(v),
    decreases es.len(),
{
    if es.len() == 0 {
    } else if es[0].0 == k {
    } else {
        lemma_obj_find_set(es.skip(1), k, v);
        assert((seq![es[0]] + obj_set(es.skip(1), k, v)).skip(1) =~= obj_set(es.skip(1), k, v));
    }
}

/// Update the nearest scope binding a name, in the model.
pub open spec fn update_binding(
    stack: Seq<Map<Seq<char>, Val>>,
    k: Seq<char>,
    v: Val,
) -> Seq<Map<Seq<char>, Val>>
    decreases stack,
{
    if stack.len() == 0 {
        stack
    } else if stack.last().contains_key(k) {
        stack.update(stack.len() - 1, stack.last().insert(k, v))
    } else {
        update_binding(stack.drop_last(), k, v).push(stack.last())
    }
}

/// After updating the nearest binding of a bound name, looking the name up
/// yields the value written, and other names read as before.
pub proof fn lemma_lookup_update_binding(
    stack: Seq<Map<Seq<char>, Val>>,
    k: Seq<char>,
    v: Val,
)
    requires
        lookup(stack, k) is Some,
    ensures
        lookup(update_binding(stack, k, v), k) == Some(v),
        update_binding(stack, k, v).len() == stack.len(),
    decreases stack,
{
    if stack.len() > 0 {
        if stack.last().contains_key(k) {
            assert(update_binding(stack, k, v).last() == stack.last().insert(k, v));
        } else {
            lemma_lookup_update_binding(stack.drop_last(), k, v);
            assert(update_binding(stack, k, v).last() == stack.last());
            assert(update_binding(stack, k, v).drop_last() =~= update_binding(
                stack.drop_last(),
                k,
                v,
            ));
        }
    }
}

/// Checked integer arithmetic for a compound assignment, in the model.
pub open spec fn spec_arith(op: IrAssignOp, x: i64, y: i64) -> Result<i64, TargetErr> {
    match op {
        IrAssignOp::Add => match x.checked_add(y) {
            Some(v) => Ok(v),
            None => Err(TargetErr::Overflow),
        },
        IrAssignOp::Sub => match x.checked_sub(y) {
            Some(v) => Ok(v),
            None => Err(TargetErr::Overflow),
        },
        IrAssignOp::Mul => match x.checked_mul(y) {
            Some(v) => Ok(v),
            None => Err(TargetErr::Overflow),
        },
        IrAssignOp::Div => if y == 0 {
            Err(TargetErr::DivisionByZero)
        } else {
            match x.checked_div(y) {
                Some(v) => Ok(v),
                None => Err(TargetErr::Overflow),
            }
        },
    }
}

/// A compound assignment applied to a current value and an operand, in the
/// model. Only integers can be mutated this way.
pub open spec fn apply_assign(op: IrAssignOp, a: Val, b: Val) -> Result<Val, TargetErr> {
    match a {
        Val::Integer(x) => match b {
            Val::Integer(y) => match spec_arith(op, x, y) {
                Ok(v) => Ok(Val::Integer(v)),
                Err(e) => Err(e),
            },
            _ => Err(TargetErr::Expected(ValueKind::Integer, b.kind())),
        },
        _ => Err(TargetErr::Expected(ValueKind::Integer, a.kind())),
    }
}

/// Reading a place, in the model. A read of a name searches all scopes,
/// innermost first. A mismatched kind under a field or index is reported as
/// a tuple expectation, as the reading path of the evaluator words it.
pub open spec fn spec_get_target(
    stack: Seq<Map<Seq<char>, Val>>,
    t: IrTarget,
) -> Result<Val, TargetErr>
    decreases t,
{
    match t.kind {
        IrTargetKind::Name(n) => match lookup(stack, n@) {
            Some(v) => Ok(v),
            None => Err(TargetErr::MissingName(n@)),
        },
        IrTargetKind::Field(inner, f) => match spec_get_target(stack, *inner) {
            Ok(Val::Object(es)) => match obj_find(es, f@) {
                Some(v) => Ok(v),
                None => Err(TargetErr::MissingField(f@)),
            },
            Ok(v) => Err(TargetErr::Expected(ValueKind::Tuple, v.kind())),
            Err(e) => Err(e),
        },
        IrTargetKind::Index(inner, i) => match spec_get_target(stack, *inner) {
            Ok(Val::Vector(vs)) => if i < vs.len() {
                Ok(vs[i as int])
            } else {
                Err(TargetErr::MissingIndex(i as int))
            },
            Ok(Val::Tuple(vs)) => if i < vs.len() {
                Ok(vs[i as int])
            } else {
                Err(TargetErr::MissingIndex(i as int))
            },
            Ok(v) => Err(TargetErr::Expected(ValueKind::Tuple, v.kind())),
            Err(e) => Err(e),
        },
    }
}

/// Writing through an inner place, in the model: the named binding is
/// updated where it lives, and must already exist.
pub open spec fn spec_set_inner(
    stack: Seq<Map<Seq<char>, Val>>,
    t: IrTarget,
    v: Val,
) -> Result<Seq<Map<Seq<char>, Val>>, TargetErr>
    decreases t,
{
    match t.kind {
        IrTargetKind::Name(n) => match lookup(stack, n@) {
            Some(_) => Ok(update_binding(stack, n@, v)),
            None => Err(TargetErr::MissingName(n@)),
        },
        IrTargetKind::Field(inner, f) => match spec_get_target(stack, *inner) {
            Ok(Val::Object(es)) => spec_set_inner(stack, *inner, Val::Object(obj_set(es, f@, v))),
            Ok(w) => Err(TargetErr::Expected(ValueKind::Object, w.kind())),
            Err(e) => Err(e),
        },
        IrTargetKind::Index(inner, i) => match spec_get_target(stack, *inner) {
            Ok(Val::Vector(vs)) => if i < vs.len() {
                spec_set_inner(stack, *inner, Val::Vector(vs.update(i as int, v)))
            } else {
                Err(TargetErr::MissingIndex(i as int))
            },
            Ok(Val::Tuple(vs)) => if i < vs.len() {
                spec_set_inner(stack, *inner, Val::Tuple(vs.update(i as int, v)))
            } else {
                Err(TargetErr::MissingIndex(i as int))
            },
            Ok(w) => Err(TargetErr::Expected(ValueKind::Tuple, w.kind())),
            Err(e) => Err(e),
        },
    }
}

/// Writing a place, in the model. A write to a bare name inserts or
/// overwrites in the topmost scope; a write through a field or index
/// updates the binding where it lives.
pub open spec fn spec_set_target(
    stack: Seq<Map<Seq<char>, Val>>,
    t: IrTarget,
    v: Val,
) -> Result<Seq<Map<Seq<char>, Val>>, TargetErr>
{
    match t.kind {
        IrTargetKind::Name(n) => if stack.len() == 0 {
            Err(TargetErr::NoScopes)
        } else {
            Ok(stack.update(stack.len() - 1, stack.last().insert(n@, v)))
        },
        _ => spec_set_inner(stack, t, v),
    }
}

/// Mutating a place, in the model. A bare name is fetched from the topmost
/// scope only; a field or index must already exist. The operation is
/// applied to the fetched value and the result written back where the value
/// was read.
pub open spec fn spec_mut_target(
    stack: Seq<Map<Seq<char>, Val>>,
    t: IrTarget,
    op: IrAssignOp,
    b: Val,
) -> Result<Seq<Map<Seq<char>, Val>>, TargetErr>
{
    match t.kind {
        IrTargetKind::Name(n) => if stack.len() == 0 {
            Err(TargetErr::NoScopes)
        } else if stack.last().contains_key(n@) {
            match apply_assign(op, stack.last()[n@], b) {
                Ok(nv) => Ok(stack.update(stack.len() - 1, stack.last().insert(n@, nv))),
                Err(e) => Err(e),
            }
        } else {
            Err(TargetErr::MissingName(n@))
        },
        IrTargetKind::Field(inner, f) => match spec_get_target(stack, *inner) {
            Ok(Val::Object(es)) => match obj_find(es, f@) {
                Some(cur) => match apply_assign(op, cur, b) {
                    Ok(nv) => spec_set_inner(stack, *inner, Val::Object(obj_set(es, f@, nv))),
                    Err(e) => Err(e),
                },
                None => Err(TargetErr::MissingField(f@)),
            },
            Ok(w) => Err(TargetErr::Expected(ValueKind::Object, w.kind())),
            Err(e) => Err(e),
        },
        IrTargetKind::Index(inner, i) => match spec_get_target(stack, *inner) {
            Ok(Val::Vector(vs)) => if i < vs.len() {
                match apply_assign(op, vs[i as int], b) {
                    Ok(nv) => spec_set_inner(stack, *inner, Val::Vector(vs.update(i as int, nv))),
                    Err(e) => Err(e),
                }
            } else {
                Err(TargetErr::MissingIndex(i as int))
            },
            Ok(Val::Tuple(vs)) => if i < vs.len() {
                match apply_assign(op, vs[i as int], b) {
                    Ok(nv) => spec_set_inner(stack, *inner, Val::Tuple(vs.update(i as int, nv))),
                    Err(e) => Err(e),
                }
            } else {
                Err(TargetErr::MissingIndex(i as int))
            },
            Ok(w) => Err(TargetErr::Expected(ValueKind::Tuple, w.kind())),
            Err(e) => Err(e),
        },
    }
}

/// The scopes used by the constant interpreter.
pub type IrScopes = Scopes;

/// The scope discipline is last-in first-out: after a push returning guard
/// `g`, popping with `g` is allowed, and popping with any other guard is
/// refused until `g` itself has been presented.
pub proof fn lemma_scope_lifo(stack: Seq<Map<Seq<char>, Val>>, g: ScopeGuard, other: ScopeGuard)
    requires
        g.depth == stack.len(),
    ensures
        pop_allowed(stack.push(Map::<Seq<char>, Val>::empty()), g),
        other.depth != g.depth ==> !pop_allowed(
            stack.push(Map::<Seq<char>, Val>::empty()),
            other,
        ),
{
}


/// An object's first entry holding a key, found by scanning the entries.
pub fn obj_first(es: &Vec<(String, IrValue)>, k: &String) -> (r: Option<IrValue>)
    ensures
        match r {
            Some(v) => obj_find(crate::value::ir_entries_of(es@), k@) == Some(v@),
            None => obj_find(crate::value::ir_entries_of(es@), k@) is None,
        },
{
    proof {
        crate::value::lemma_ir_entries_of(es@);
    }
    let ghost m = crate::value::ir_entries_of(es@);
    proof {
        assert(m.skip(0) =~= m);
    }
    let mut i: usize = 0;
    while i < es.len()
        invariant
            i <= es.len(),
            m == crate::value::ir_entries_of(es@),
            m.len() == es@.len(),
            forall|j: int| 0 <= j < es@.len() ==> m[j] == (es@[j].0@, es@[j].1@),
            obj_find(m, k@) == obj_find(m.skip(i as int), k@),
        decreases es.len() - i,
    {
        proof {
            assert(m.skip(i as int)[0] == m[i as int]);
        }
        if es[i].0.eq(k) {
            return Some(es[i].1.duplicate());
        }
        proof {
            assert(m.skip(i as int).skip(1) =~= m.skip(i + 1));
        }
        i = i + 1;
    }
    proof {
        assert(m.skip(es@.len() as int) =~= Seq::<(Seq<char>, Val)>::empty());
    }
    None
}

/// Overwriting the first entry that holds a key updates that position.
proof fn lemma_obj_set_at(m: Seq<(Seq<char>, Val)>, k: Seq<char>, v: Val, i: int)
    requires
        0 <= i < m.len(),
        m[i].0 == k,
        forall|j: int| 0 <= j < i ==> m[j].0 != k,
    ensures
        obj_set(m, k, v) == m.update(i, (k, v)),
    decreases i,
{
    if i == 0 {
    } else {
        lemma_obj_set_at(m.skip(1), k, v, i - 1);
        assert(obj_set(m, k, v) =~= m.update(i, (k, v)));
    }
}

/// Setting a key no entry holds appends the entry.
proof fn lemma_obj_set_missing(m: Seq<(Seq<char>, Val)>, k: Seq<char>, v: Val)
    requires
        forall|j: int| 0 <= j < m.len() ==> m[j].0 != k,
    ensures
        obj_set(m, k, v) == m.push((k, v)),
    decreases m.len(),
{
    if m.len() == 0 {
        assert(obj_set(m, k, v) =~= m.push((k, v)));
    } else {
        lemma_obj_set_missing(m.skip(1), k, v);
        assert(obj_set(m, k, v) =~= m.push((k, v)));
    }
}

/// Insert or overwrite a key of an object held as a vector of entries.
fn obj_put(es: Vec<(String, IrValue)>, k: &String, v: &IrValue) -> (r: Vec<(String, IrValue)>)
    ensures
        crate::value::ir_entries_of(r@) == obj_set(crate::value::ir_entries_of(es@), k@, v@),
{
    proof {
        crate::value::lemma_ir_entries_of(es@);
    }
    let ghost m = crate::value::ir_entries_of(es@);
    let ghost v_model = v@;
    let mut out = es;
    let mut i: usize = 0;
    while i < out.len()
        invariant
            i <= out.len(),
            m == crate::value::ir_entries_of(es@),
            m == crate::value::ir_entries_of(out@),
            m.len() == out@.len(),
            v_model == v@,
            forall|j: int| 0 <= j < out@.len() ==> m[j] == (out@[j].0@, out@[j].1@),
            forall|j: int| 0 <= j < i ==> m[j].0 != k@,
        decreases out.len() - i,
    {
        if out[i].0.eq(k) {
            proof {
                lemma_obj_set_at(m, k@, v_model, i as int);
            }
            let ghost es0 = out@;
            let nk = k.clone();
            proof {
                assert(nk@ == k@);
            }
            let nv = v.duplicate();
            let pair = (nk, nv);
            let ghost pair_snap = pair;
            proof {
                assert(pair_snap.1@ == v_model);
            }
            out.set(i, pair);
            proof {
                crate::value::lemma_ir_entries_of(out@);
                let nm = crate::value::ir_entries_of(out@);
                assert(out@ == es0.update(i as int, pair_snap));
                
                assert(nm.len() == m.len());
                assert forall|j: int| 0 <= j < nm.len() implies nm[j] == m.update(
                    i as int,
                    (k@, v_model),
                )[j] by {
                    assert(nm[j] == (out@[j].0@, out@[j].1@));
                    if j == i {
                        assert(out@[j].0@ == k@);
                        assert(out@[j].1@ == v_model);
                    } else {
                        assert(out@[j] == es0[j]);
                        assert(m[j] == (es0[j].0@, es0[j].1@));
                    }
                }
                assert(nm =~= m.update(i as int, (k@, v_model)));
                assert(crate::value::ir_entries_of(out@) == obj_set(m, k@, v_model));
            }
            return out;
        }
        i = i + 1;
    }
    proof {
        lemma_obj_set_missing(m, k@, v_model);
    }
    out.push((k.clone(), v.duplicate()));
    proof {
        crate::value::lemma_ir_entries_of(out@);
        assert(crate::value::ir_entries_of(out@) =~~= m.push((k@, v_model)));
    }
    out
}

/// Checked integer arithmetic for a compound assignment.
fn arith(op: IrAssignOp, x: i64, y: i64) -> (r: Result<i64, IrErrorKind>)
    ensures
        match spec_arith(op, x, y) {
            Ok(v) => r is Ok && r->Ok_0 == v,
            Err(e) => r is Err && err_matches(r->Err_0, e),
        },
{
    let res = match op {
        IrAssignOp::Add => x.checked_add(y),
        IrAssignOp::Sub => x.checked_sub(y),
        IrAssignOp::Mul => x.checked_mul(y),
        IrAssignOp::Div => {
            if y == 0 {
                return Err(IrErrorKind::DivisionByZero);
            }
            x.checked_div(y)
        },
    };
    match res {
        Some(v) => Ok(v),
        None => Err(IrErrorKind::Overflow),
    }
}

/// A compound assignment applied to a current value and an operand.
fn apply_assign_value(op: IrAssignOp, a: &IrValue, b: &IrValue, span: Span) -> (r: Result<
    IrValue,
    IrError,
>)
    ensures
        match apply_assign(op, a@, b@) {
            Ok(v) => r is Ok && r->Ok_0@ == v,
            Err(e) => r is Err && err_matches(r->Err_0.kind, e),
        },
{
    match a {
        IrValue::Integer(x) => match b {
            IrValue::Integer(y) => match arith(op, *x, *y) {
                Ok(v) => Ok(IrValue::Integer(v)),
                Err(k) => Err(IrError::new(span, k)),
            },
            _ => Err(
                IrError::new(
                    span,
                    IrErrorKind::ExpectedKind {
                        expected: ValueKind::Integer,
                        actual: b.kind(),
                    },
                ),
            ),
        },
        _ => Err(
            IrError::new(
                span,
                IrErrorKind::ExpectedKind { expected: ValueKind::Integer, actual: a.kind() },
            ),
        ),
    }
}

impl Scopes {
    /// Update the nearest scope binding a name, leaving the stack unchanged
    /// when no scope binds it.
    fn assign_existing(&mut self, name: &String, value: IrValue) -> (r: bool)
        requires
            old(self).wf(),
        ensures
            final(self).wf(),
            r == (lookup(old(self)@, name@) is Some),
            r ==> final(self)@ == update_binding(old(self)@, name@, value@),
            !r ==> final(self)@ == old(self)@,
        decreases self@.len(),
    {
        if self.scopes.len() == 0 {
            return false;
        }
        let mut top = self.scopes.pop().unwrap();
        proof {
            assert(old(self).scopes@[old(self).scopes@.len() - 1].wf());
            assert(self@ =~= old(self)@.drop_last());
        }
        if top.get(name).is_some() {
            top.insert(name.clone(), value);
            self.scopes.push(top);
            proof {
                assert(final(self)@ =~= old(self)@.update(
                    old(self)@.len() - 1,
                    old(self)@.last().insert(name@, value@),
                ));
            }
            true
        } else {
            let r = self.assign_existing(name, value);
            let ghost mid = self@;
            self.scopes.push(top);
            proof {
                assert(top@ == old(self)@[old(self)@.len() - 1]);
                assert(final(self)@ =~= mid.push(top@));
                if r {
                    assert(!old(self)@.last().contains_key(name@));
                    assert(update_binding(old(self)@, name@, value@) == update_binding(
                        old(self)@.drop_last(),
                        name@,
                        value@,
                    ).push(old(self)@.last()));
                    assert(final(self)@ == update_binding(old(self)@, name@, value@));
                } else {
                    assert(final(self)@ =~= old(self)@);
                }
            }
            r
        }
    }

    /// Read a place: the semantics of the read column of the place table.
    pub fn get_target(&self, t: &IrTarget) -> (r: Result<IrValue, IrError>)
        requires
            self.wf(),
        ensures
            match spec_get_target(self@, *t) {
                Ok(v) => r is Ok && r->Ok_0@ == v,
                Err(e) => r is Err && err_matches(r->Err_0.kind, e),
            },
        decreases t,
    {
        match &t.kind {
            IrTargetKind::Name(n) => match self.get(n) {
                Some(v) => Ok(v),
                None => Err(
                    IrError::new(t.span, IrErrorKind::MissingLocal { name: n.clone() }),
                ),
            },
            IrTargetKind::Field(inner, f) => {
                let cur = match self.get_target(inner) {
                    Ok(c) => c,
                    Err(e) => {
                        return Err(e);
                    },
                };
                match cur {
                    IrValue::Object(es) => match obj_first(&es, f) {
                        Some(v) => Ok(v),
                        None => Err(
                            IrError::new(
                                t.span,
                                IrErrorKind::MissingField { field: f.clone() },
                            ),
                        ),
                    },
                    actual => Err(
                        IrError::new(
                            t.span,
                            IrErrorKind::ExpectedKind {
                                expected: ValueKind::Tuple,
                                actual: actual.kind(),
                            },
                        ),
                    ),
                }
            },
            IrTargetKind::Index(inner, i) => {
                let cur = match self.get_target(inner) {
                    Ok(c) => c,
                    Err(e) => {
                        return Err(e);
                    },
                };
                match cur {
                    IrValue::Vector(vs) => {
                        proof {
                            crate::value::lemma_ir_models_of(vs@);
                        }
                        if *i < vs.len() {
                            Ok(vs[*i].duplicate())
                        } else {
                            Err(
                                IrError::new(t.span, IrErrorKind::MissingIndex { index: *i }),
                            )
                        }
                    },
                    IrValue::Tuple(vs) => {
                        proof {
                            crate::value::lemma_ir_models_of(vs@);
                        }
                        if *i < vs.len() {
                            Ok(vs[*i].duplicate())
                        } else {
                            Err(
                                IrError::new(t.span, IrErrorKind::MissingIndex { index: *i }),
                            )
                        }
                    },
                    actual => Err(
                        IrError::new(
                            t.span,
                            IrErrorKind::ExpectedKind {
                                expected: ValueKind::Tuple,
                                actual: actual.kind(),
                            },
                        ),
                    ),
                }
            },
        }
    }

    /// Write through an inner place: the binding is updated where it lives.
    fn set_inner(&mut self, t: &IrTarget, value: IrValue) -> (r: Result<(), IrError>)
        requires
            old(self).wf(),
        ensures
            final(self).wf(),
            match spec_set_inner(old(self)@, *t, value@) {
                Ok(ms) => r is Ok && final(self)@ == ms,
                Err(e) => r is Err && err_matches(r->Err_0.kind, e) && final(self)@ == old(self)@,
            },
        decreases t,
    {
        match &t.kind {
            IrTargetKind::Name(n) => {
                if self.assign_existing(n, value) {
                    Ok(())
                } else {
                    Err(IrError::new(t.span, IrErrorKind::MissingLocal { name: n.clone() }))
                }
            },
            IrTargetKind::Field(inner, f) => {
                let cur = match self.get_target(inner) {
                    Ok(c) => c,
                    Err(e) => {
                        return Err(e);
                    },
                };
                match cur {
                    IrValue::Object(es) => {
                        let ne = obj_put(es, f, &value);
                        self.set_inner(inner, IrValue::Object(ne))
                    },
                    actual => Err(
                        IrError::new(
                            t.span,
                            IrErrorKind::ExpectedKind {
                                expected: ValueKind::Object,
                                actual: actual.kind(),
                            },
                        ),
                    ),
                }
            },
            IrTargetKind::Index(inner, i) => {
                let cur = match self.get_target(inner) {
                    Ok(c) => c,
                    Err(e) => {
                        return Err(e);
                    },
                };
                match cur {
                    IrValue::Vector(vs) => {
                        let ghost m = crate::value::ir_models_of(vs@);
                        proof {
                            crate::value::lemma_ir_models_of(vs@);
                        }
                        if *i < vs.len() {
                            let mut vs = vs;
                            let ghost value_model = value@;
                            vs.set(*i, value);
                            proof {
                                crate::value::lemma_ir_models_of(vs@);
                                assert(crate::value::ir_models_of(vs@) =~= m.update(
                                    *i as int,
                                    value_model,
                                ));
                            }
                            self.set_inner(inner, IrValue::Vector(vs))
                        } else {
                            Err(
                                IrError::new(t.span, IrErrorKind::MissingIndex { index: *i }),
                            )
                        }
                    },
                    IrValue::Tuple(vs) => {
                        let ghost m = crate::value::ir_models_of(vs@);
                        proof {
                            crate::value::lemma_ir_models_of(vs@);
                        }
                        if *i < vs.len() {
                            let mut vs = vs;
                            let ghost value_model = value@;
                            vs.set(*i, value);
                            proof {
                                crate::value::lemma_ir_models_of(vs@);
                                assert(crate::value::ir_models_of(vs@) =~= m.update(
                                    *i as int,
                                    value_model,
                                ));
                            }
                            self.set_inner(inner, IrValue::Tuple(vs))
                        } else {
                            Err(
                                IrError::new(t.span, IrErrorKind::MissingIndex { index: *i }),
                            )
                        }
                    },
                    actual => Err(
                        IrError::new(
                            t.span,
                            IrErrorKind::ExpectedKind {
                                expected: ValueKind::Tuple,
                                actual: actual.kind(),
                            },
                        ),
                    ),
                }
            },
        }
    }

    /// Write a place: the semantics of the write column of the place table.
    /// A bare name is inserted or overwritten in the topmost scope.
    pub fn set_target(&mut self, t: &IrTarget, value: IrValue) -> (r: Result<(), IrError>)
        requires
            old(self).wf(),
        ensures
            final(self).wf(),
            match spec_set_target(old(self)@, *t, value@) {
                Ok(ms) => r is Ok && final(self)@ == ms,
                Err(e) => r is Err && err_matches(r->Err_0.kind, e) && final(self)@ == old(self)@,
            },
    {
        match &t.kind {
            IrTargetKind::Name(n) => match self.decl(n.clone(), value) {
                Ok(()) => Ok(()),
                Err(k) => Err(IrError::new(t.span, k)),
            },
            _ => self.set_inner(t, value),
        }
    }

    /// Mutate a place: the semantics of the mutate column of the place
    /// table. A bare name is fetched from the topmost scope only; a field
    /// or index must already exist.
    pub fn mut_target(&mut self, t: &IrTarget, op: IrAssignOp, operand: &IrValue) -> (r: Result<
        (),
        IrError,
    >)
        requires
            old(self).wf(),
        ensures
            final(self).wf(),
            match spec_mut_target(old(self)@, *t, op, operand@) {
                Ok(ms) => r is Ok && final(self)@ == ms,
                Err(e) => r is Err && err_matches(r->Err_0.kind, e) && final(self)@ == old(self)@,
            },
    {
        match &t.kind {
            IrTargetKind::Name(n) => {
                if self.scopes.len() == 0 {
                    return Err(IrError::new(t.span, IrErrorKind::NoScopes));
                }
                let mut top = self.scopes.pop().unwrap();
                proof {
                    assert(old(self).scopes@[old(self).scopes@.len() - 1].wf());
                }
                let cur = match top.get(n) {
                    Some(v) => Some(v.duplicate()),
                    None => None,
                };
                match cur {
                    Some(cur) => match apply_assign_value(op, &cur, operand, t.span) {
                        Ok(nv) => {
                            top.insert(n.clone(), nv);
                            self.scopes.push(top);
                            proof {
                                assert(final(self)@ =~= old(self)@.update(
                                    old(self)@.len() - 1,
                                    old(self)@.last().insert(
                                        n@,
                                        spec_mut_target(
                                            old(self)@,
                                            *t,
                                            op,
                                            operand@,
                                        )->Ok_0.last()[n@],
                                    ),
                                ));
                                assert(final(self)@ =~= spec_mut_target(
                                    old(self)@,
                                    *t,
                                    op,
                                    operand@,
                                )->Ok_0);
                            }
                            Ok(())
                        },
                        Err(e) => {
                            self.scopes.push(top);
                            proof {
                                assert(final(self)@ =~= old(self)@);
                            }
                            Err(e)
                        },
                    },
                    None => {
                        self.scopes.push(top);
                        proof {
                            assert(final(self)@ =~= old(self)@);
                        }
                        Err(
                            IrError::new(t.span, IrErrorKind::MissingLocal { name: n.clone() }),
                        )
                    },
                }
            },
            IrTargetKind::Field(inner, f) => {
                let cur = match self.get_target(inner) {
                    Ok(c) => c,
                    Err(e) => {
                        return Err(e);
                    },
                };
                match cur {
                    IrValue::Object(es) => match obj_first(&es, f) {
                        Some(c) => match apply_assign_value(op, &c, operand, t.span) {
                            Ok(nv) => {
                                let ne = obj_put(es, f, &nv);
                                self.set_inner(inner, IrValue::Object(ne))
                            },
                            Err(e) => Err(e),
                        },
                        None => Err(
                            IrError::new(
                                t.span,
                                IrErrorKind::MissingField { field: f.clone() },
                            ),
                        ),
                    },
                    actual => Err(
                        IrError::new(
                            t.span,
                            IrErrorKind::ExpectedKind {
                                expected: ValueKind::Object,
                                actual: actual.kind(),
                            },
                        ),
                    ),
                }
            },
            IrTargetKind::Index(inner, i) => {
                let cur = match self.get_target(inner) {
                    Ok(c) => c,
                    Err(e) => {
                        return Err(e);
                    },
                };
                match cur {
                    IrValue::Vector(vs) => {
                        proof {
                            crate::value::lemma_ir_models_of(vs@);
                        }
                        if *i < vs.len() {
                            let c = vs[*i].duplicate();
                            match apply_assign_value(op, &c, operand, t.span) {
                                Ok(nv) => {
                                    let ghost m = crate::value::ir_models_of(vs@);
                                    proof {
                                        crate::value::lemma_ir_models_of(vs@);
                                    }
                                    let mut vs = vs;
                                    let ghost nv_model = nv@;
                                    vs.set(*i, nv);
                                    proof {
                                        crate::value::lemma_ir_models_of(vs@);
                                        assert(crate::value::ir_models_of(vs@) =~= m.update(
                                            *i as int,
                                            nv_model,
                                        ));
                                    }
                                    self.set_inner(inner, IrValue::Vector(vs))
                                },
                                Err(e) => Err(e),
                            }
                        } else {
                            Err(
                                IrError::new(t.span, IrErrorKind::MissingIndex { index: *i }),
                            )
                        }
                    },
                    IrValue::Tuple(vs) => {
                        proof {
                            crate::value::lemma_ir_models_of(vs@);
                        }
                        if *i < vs.len() {
                            let c = vs[*i].duplicate();
                            match apply_assign_value(op, &c, operand, t.span) {
                                Ok(nv) => {
                                    let ghost m = crate::value::ir_models_of(vs@);
                                    proof {
                                        crate::value::lemma_ir_models_of(vs@);
                                    }
                                    let mut vs = vs;
                                    let ghost nv_model = nv@;
                                    vs.set(*i, nv);
                                    proof {
                                        crate::value::lemma_ir_models_of(vs@);
                                        assert(crate::value::ir_models_of(vs@) =~= m.update(
                                            *i as int,
                                            nv_model,
                                        ));
                                    }
                                    self.set_inner(inner, IrValue::Tuple(vs))
                                },
                                Err(e) => Err(e),
                            }
                        } else {
                            Err(
                                IrError::new(t.span, IrErrorKind::MissingIndex { index: *i }),
                            )
                        }
                    },
                    actual => Err(
                        IrError::new(
                            t.span,
                            IrErrorKind::ExpectedKind {
                                expected: ValueKind::Tuple,
                                actual: actual.kind(),
                            },
                        ),
                    ),
                }
            },
        }
    }
}

/// After a successful write through an inner place, reading the same place
/// yields the value written.
pub proof fn lemma_set_inner_get(stack: Seq<Map<Seq<char>, Val>>, t: IrTarget, v: Val)
    requires
        spec_set_inner(stack, t, v) is Ok,
    ensures
        spec_get_target(spec_set_inner(stack, t, v)->Ok_0, t) == Ok::<Val, TargetErr>(v),
    decreases t,
{
    match t.kind {
        IrTargetKind::Name(n) => {
            lemma_lookup_update_binding(stack, n@, v);
        },
        IrTargetKind::Field(inner, f) => {
            let ges = spec_get_target(stack, *inner);
            if let Ok(Val::Object(es)) = ges {
                lemma_set_inner_get(stack, *inner, Val::Object(obj_set(es, f@, v)));
                lemma_obj_find_set(es, f@, v);
            }
        },
        IrTargetKind::Index(inner, i) => {
            let ges = spec_get_target(stack, *inner);
            if let Ok(Val::Vector(vs)) = ges {
                lemma_set_inner_get(stack, *inner, Val::Vector(vs.update(i as int, v)));
            } else if let Ok(Val::Tuple(vs)) = ges {
                lemma_set_inner_get(stack, *inner, Val::Tuple(vs.update(i as int, v)));
            }
        },
    }
}

/// The place round trip: whenever a write of `v` through a place succeeds,
/// a read of the same place afterwards yields `v`.
pub proof fn lemma_target_round_trip(stack: Seq<Map<Seq<char>, Val>>, t: IrTarget, v: Val)
    requires
        spec_set_target(stack, t, v) is Ok,
    ensures
        spec_get_target(spec_set_target(stack, t, v)->Ok_0, t) == Ok::<Val, TargetErr>(v),
{
    match t.kind {
        IrTargetKind::Name(n) => {
            let ms = spec_set_target(stack, t, v)->Ok_0;
            assert(ms.last() == stack.last().insert(n@, v));
        },
        IrTargetKind::Field(_, _) => {
            lemma_set_inner_get(stack, t, v);
        },
        IrTargetKind::Index(_, _) => {
            lemma_set_inner_get(stack, t, v);
        },
    }
}

} // verus!
