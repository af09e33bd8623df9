//! Ground values produced by constant evaluation, and the working values of
//! the constant interpreter.
//!
//! `ConstValue` is the artifact embedded into an assembly: it is free of any
//! sharing. `IrValue` is the interpreter's working value; at the end of an
//! evaluation it is converted to a `ConstValue` by a deep snapshot. Both are
//! modelled in specifications by the mathematical value tree [`Val`].

use vstd::prelude::*;

verus! {

/// The mathematical model of a constant value: a finite tree of plain data.
#[verifier::ext_equal]
pub enum Val {
    /// The unit value.
    Unit,
    /// A boolean.
    Bool(bool),
    /// A signed integer.
    Integer(i64),
    /// A character string.
    Str(Seq<char>),
    /// A byte string.
    Bytes(Seq<u8>),
    /// A vector of values.
    Vector(Seq<Val>),
    /// A fixed tuple of values.
    Tuple(Seq<Val>),
    /// An ordered mapping from string keys to values.
    Object(Seq<(Seq<char>, Val)>),
}

/// The kind of a value, used when a mismatch has to be reported.
#[derive(Debug, Clone, Copy, PartialEq, Eq, Structural)]
pub enum ValueKind {
    /// The unit value.
    Unit,
    /// A boolean.
    Bool,
    /// A signed integer.
    Integer,
    /// A character string.
    Str,
    /// A byte string.
    Bytes,
    /// A vector of values.
    Vector,
    /// A fixed tuple of values.
    Tuple,
    /// An ordered mapping from string keys to values.
    Object,
}

impl Val {
    /// The kind of this model value.
    pub open spec fn kind(self) -> ValueKind {
        match self {
            Val::Unit => ValueKind::Unit,
            Val::Bool(_) => ValueKind::Bool,
            Val::Integer(_) => ValueKind::Integer,
            Val::Str(_) => ValueKind::Str,
            Val::Bytes(_) => ValueKind::Bytes,
            Val::Vector(_) => ValueKind::Vector,
            Val::Tuple(_) => ValueKind::Tuple,
            Val::Object(_) => ValueKind::Object,
        }
    }
}

/// A ground value producible by constant evaluation, copyable without sharing.
#[derive(Debug, PartialEq, Eq)]
pub enum ConstValue {
    /// The unit value.
    Unit,
    /// A boolean.
    Bool(bool),
    /// A signed integer.
    Integer(i64),
    /// A character string.
    Str(String),
    /// A byte string.
    Bytes(Vec<u8>),
    /// A vector of constant values.
    Vector(Vec<ConstValue>),
    /// A fixed tuple of constant values.
    Tuple(Vec<ConstValue>),
    /// An ordered mapping from string keys to constant values.
    Object(Vec<(String, ConstValue)>),
}

/// The interpreter's working value.
///
/// Mutation during evaluation is strictly scoped to the operation performing
/// it, so the working value needs no sharing: it is a plain tree, and the
/// closing snapshot to a [`ConstValue`] always succeeds.
#[derive(Debug, PartialEq, Eq)]
pub enum IrValue {
    /// The unit value.
    Unit,
    /// A boolean.
    Bool(bool),
    /// A signed integer.
    Integer(i64),
    /// A character string.
    Str(String),
    /// A byte string.
    Bytes(Vec<u8>),
    /// A vector of values.
    Vector(Vec<IrValue>),
    /// A fixed tuple of values.
    Tuple(Vec<IrValue>),
    /// An ordered mapping from string keys to values.
    Object(Vec<(String, IrValue)>),
}

/// The model of one ground constant value.
pub open spec fn const_model(c: ConstValue) -> Val
    decreases c,
{
    match c {
        ConstValue::Unit => Val::Unit,
        ConstValue::Bool(b) => Val::Bool(b),
        ConstValue::Integer(i) => Val::Integer(i),
        ConstValue::Str(s) => Val::Str(s@),
        ConstValue::Bytes(b) => Val::Bytes(b@),
        ConstValue::Vector(vs) => Val::Vector(const_models_of(vs@)),
        ConstValue::Tuple(vs) => Val::Tuple(const_models_of(vs@)),
        ConstValue::Object(es) => Val::Object(const_entries_of(es@)),
    }
}

/// The models of a sequence of ground constant values, in order.
pub open spec fn const_models_of(s: Seq<ConstValue>) -> Seq<Val>
    decreases s,
{
    if s.len() == 0 {
        Seq::empty()
    } else {
        const_models_of(s.drop_last()).push(const_model(s.last()))
    }
}

/// The models of the entries of an object of ground constant values, in order.
pub open spec fn const_entries_of(s: Seq<(String, ConstValue)>) -> Seq<(Seq<char>, Val)>
    decreases s,
{
    if s.len() == 0 {
        Seq::empty()
    } else {
        const_entries_of(s.drop_last()).push((s.last().0@, const_model(s.last().1)))
    }
}

/// The model of one working value.
pub open spec fn ir_model(v: IrValue) -> Val
    decreases v,
{
    match v {
        IrValue::Unit => Val::Unit,
        IrValue::Bool(b) => Val::Bool(b),
        IrValue::Integer(i) => Val::Integer(i),
        IrValue::Str(s) => Val::Str(s@),
        IrValue::Bytes(b) => Val::Bytes(b@),
        IrValue::Vector(vs) => Val::Vector(ir_models_of(vs@)),
        IrValue::Tuple(vs) => Val::Tuple(ir_models_of(vs@)),
        IrValue::Object(es) => Val::Object(ir_entries_of(es@)),
    }
}

/// The models of a sequence of working values, in order.
pub open spec fn ir_models_of(s: Seq<IrValue>) -> Seq<Val>
    decreases s,
{
    if s.len() == 0 {
        Seq::empty()
    } else {
        ir_models_of(s.drop_last()).push(ir_model(s.last()))
    }
}

/// The models of the entries of an object of working values, in order.
pub open spec fn ir_entries_of(s: Seq<(String, IrValue)>) -> Seq<(Seq<char>, Val)>
    decreases s,
{
    if s.len() == 0 {
        Seq::empty()
    } else {
        ir_entries_of(s.drop_last()).push((s.last().0@, ir_model(s.last().1)))
    }
}

impl View for ConstValue {
    type V = Val;

    open spec fn view(&self) -> Val {
        const_model(*self)
    }
}

impl View for IrValue {
    type V = Val;

    open spec fn view(&self) -> Val {
        ir_model(*self)
    }
}

/// The model of a sequence of constant values is its pointwise model.
pub broadcast proof fn lemma_const_models_of(s: Seq<ConstValue>)
    ensures
        (#[trigger] const_models_of(s)).len() == s.len(),
        forall|i: int| 0 <= i < s.len() ==> const_models_of(s)[i] == s[i]@,
    decreases s,
{
    if s.len() > 0 {
        lemma_const_models_of(s.drop_last());
    }
}

/// The model of the entries of an object of constant values is pointwise.
pub broadcast proof fn lemma_const_entries_of(s: Seq<(String, ConstValue)>)
    ensures
        (#[trigger] const_entries_of(s)).len() == s.len(),
        forall|i: int| 0 <= i < s.len() ==> const_entries_of(s)[i] == (s[i].0@, s[i].1@),
    decreases s,
{
    if s.len() > 0 {
        lemma_const_entries_of(s.drop_last());
    }
}

/// The model of a sequence of working values is its pointwise model.
pub broadcast proof fn lemma_ir_models_of(s: Seq<IrValue>)
    ensures
        (#[trigger] ir_models_of(s)).len() == s.len(),
        forall|i: int| 0 <= i < s.len() ==> ir_models_of(s)[i] == s[i]@,
    decreases s,
{
    if s.len() > 0 {
        lemma_ir_models_of(s.drop_last());
    }
}

/// The model of the entries of an object of working values is pointwise.
pub broadcast proof fn lemma_ir_entries_of(s: Seq<(String, IrValue)>)
    ensures
        (#[trigger] ir_entries_of(s)).len() == s.len(),
        forall|i: int| 0 <= i < s.len() ==> ir_entries_of(s)[i] == (s[i].0@, s[i].1@),
    decreases s,
{
    if s.len() > 0 {
        lemma_ir_entries_of(s.drop_last());
    }
}

/// Copy a byte string.
pub fn copy_bytes(b: &Vec<u8>) -> (r: Vec<u8>)
    ensures
        r@ == b@,
{
    let mut out: Vec<u8> = Vec::new();
    let mut i: usize = 0;
    while i < b.len()
        invariant
            i <= b.len(),
            out.len() == i,
            forall|j: int| 0 <= j < i ==> out[j] == b[j],
        decreases b.len() - i,
    {
        out.push(b[i]);
        i = i + 1;
    }
    proof {
        assert(out@ =~= b@);
    }
    out
}

/// Deep copy of a vector of working values.
fn dup_values(vs: &Vec<IrValue>) -> (r: Vec<IrValue>)
    ensures
        ir_models_of(r@) == ir_models_of(vs@),
    decreases vs,
{
    let mut out: Vec<IrValue> = Vec::new();
    let mut i: usize = 0;
    while i < vs.len()
        invariant
            i <= vs.len(),
            out.len() == i,
            forall|j: int| 0 <= j < i ==> out[j]@ == vs[j]@,
        decreases vs.len() - i,
    {
        out.push(vs[i].duplicate());
        i = i + 1;
    }
    proof {
        lemma_ir_models_of(out@);
        lemma_ir_models_of(vs@);
        assert(ir_models_of(out@) =~= ir_models_of(vs@));
    }
    out
}

/// Deep copy of the entries of an object of working values.
fn dup_entries(es: &Vec<(String, IrValue)>) -> (r: Vec<(String, IrValue)>)
    ensures
        ir_entries_of(r@) == ir_entries_of(es@),
    decreases es,
{
    let mut out: Vec<(String, IrValue)> = Vec::new();
    let mut i: usize = 0;
    while i < es.len()
        invariant
            i <= es.len(),
            out.len() == i,
            forall|j: int| 0 <= j < i ==> out[j].0@ == es[j].0@ && out[j].1@ == es[j].1@,
        decreases es.len() - i,
    {
        let key = es[i].0.clone();
        let val = es[i].1.duplicate();
        out.push((key, val));
        i = i + 1;
    }
    proof {
        lemma_ir_entries_of(out@);
        lemma_ir_entries_of(es@);
        assert(ir_entries_of(out@) =~= ir_entries_of(es@));
    }
    out
}

/// Snapshot of a vector of working values into ground values.
fn snap_values(vs: &Vec<IrValue>) -> (r: Vec<ConstValue>)
    ensures
        const_models_of(r@) == ir_models_of(vs@),
    decreases vs,
{
    let mut out: Vec<ConstValue> = Vec::new();
    let mut i: usize = 0;
    while i < vs.len()
        invariant
            i <= vs.len(),
            out.len() == i,
            forall|j: int| 0 <= j < i ==> out[j]@ == vs[j]@,
        decreases vs.len() - i,
    {
        out.push(vs[i].into_const());
        i = i + 1;
    }
    proof {
        lemma_const_models_of(out@);
        lemma_ir_models_of(vs@);
        assert(const_models_of(out@) =~= ir_models_of(vs@));
    }
    out
}

/// Snapshot of the entries of an object of working values.
fn snap_entries(es: &Vec<(String, IrValue)>) -> (r: Vec<(String, ConstValue)>)
    ensures
        const_entries_of(r@) == ir_entries_of(es@),
    decreases es,
{
    let mut out: Vec<(String, ConstValue)> = Vec::new();
    let mut i: usize = 0;
    while i < es.len()
        invariant
            i <= es.len(),
            out.len() == i,
            forall|j: int| 0 <= j < i ==> out[j].0@ == es[j].0@ && out[j].1@ == es[j].1@,
        decreases es.len() - i,
    {
        let key = es[i].0.clone();
        let val = es[i].1.into_const();
        out.push((key, val));
        i = i + 1;
    }
    proof {
        lemma_const_entries_of(out@);
        lemma_ir_entries_of(es@);
        assert(const_entries_of(out@) =~= ir_entries_of(es@));
    }
    out
}

/// Lift a vector of ground values into working values.
fn lift_values(vs: &Vec<ConstValue>) -> (r: Vec<IrValue>)
    ensures
        ir_models_of(r@) == const_models_of(vs@),
    decreases vs,
{
    let mut out: Vec<IrValue> = Vec::new();
    let mut i: usize = 0;
    while i < vs.len()
        invariant
            i <= vs.len(),
            out.len() == i,
            forall|j: int| 0 <= j < i ==> out[j]@ == vs[j]@,
        decreases vs.len() - i,
    {
        out.push(IrValue::from_const(&vs[i]));
        i = i + 1;
    }
    proof {
        lemma_ir_models_of(out@);
        lemma_const_models_of(vs@);
        assert(ir_models_of(out@) =~= const_models_of(vs@));
    }
    out
}

/// Lift the entries of an object of ground values into working values.
fn lift_entries(es: &Vec<(String, ConstValue)>) -> (r: Vec<(String, IrValue)>)
    ensures
        ir_entries_of(r@) == const_entries_of(es@),
    decreases es,
{
    let mut out: Vec<(String, IrValue)> = Vec::new();
    let mut i: usize = 0;
    while i < es.len()
        invariant
            i <= es.len(),
            out.len() == i,
            forall|j: int| 0 <= j < i ==> out[j].0@ == es[j].0@ && out[j].1@ == es[j].1@,
        decreases es.len() - i,
    {
        let key = es[i].0.clone();
        out.push((key, IrValue::from_const(&es[i].1)));
        i = i + 1;
    }
    proof {
        lemma_ir_entries_of(out@);
        lemma_const_entries_of(es@);
        assert(ir_entries_of(out@) =~= const_entries_of(es@));
    }
    out
}

impl IrValue {
    /// The kind of this value, for diagnostics.
    pub fn kind(&self) -> (r: ValueKind)
        ensures
            r == self@.kind(),
    {
        match self {
            IrValue::Unit => ValueKind::Unit,
            IrValue::Bool(_) => ValueKind::Bool,
            IrValue::Integer(_) => ValueKind::Integer,
            IrValue::Str(_) => ValueKind::Str,
            IrValue::Bytes(_) => ValueKind::Bytes,
            IrValue::Vector(_) => ValueKind::Vector,
            IrValue::Tuple(_) => ValueKind::Tuple,
            IrValue::Object(_) => ValueKind::Object,
        }
    }

    /// Deep copy preserving the modelled value.
    pub fn duplicate(&self) -> (r: IrValue)
        ensures
            r@ == self@,
        decreases self,
    {
        match self {
            IrValue::Unit => IrValue::Unit,
            IrValue::Bool(b) => IrValue::Bool(*b),
            IrValue::Integer(i) => IrValue::Integer(*i),
            IrValue::Str(s) => IrValue::Str(s.clone()),
            IrValue::Bytes(b) => IrValue::Bytes(copy_bytes(b)),
            IrValue::Vector(vs) => IrValue::Vector(dup_values(vs)),
            IrValue::Tuple(vs) => IrValue::Tuple(dup_values(vs)),
            IrValue::Object(es) => IrValue::Object(dup_entries(es)),
        }
    }

    /// Deep snapshot of a working value into a ground constant value.
    ///
    /// Working values hold no sharing, so the snapshot always succeeds.
    pub fn into_const(&self) -> (r: ConstValue)
        ensures
            r@ == self@,
        decreases self,
    {
        match self {
            IrValue::Unit => ConstValue::Unit,
            IrValue::Bool(b) => ConstValue::Bool(*b),
            IrValue::Integer(i) => ConstValue::Integer(*i),
            IrValue::Str(s) => ConstValue::Str(s.clone()),
            IrValue::Bytes(b) => ConstValue::Bytes(copy_bytes(b)),
            IrValue::Vector(vs) => ConstValue::Vector(snap_values(vs)),
            IrValue::Tuple(vs) => ConstValue::Tuple(snap_values(vs)),
            IrValue::Object(es) => ConstValue::Object(snap_entries(es)),
        }
    }

    /// Lift a cached constant value into a working value.
    pub fn from_const(c: &ConstValue) -> (r: IrValue)
        ensures
            r@ == c@,
        decreases c,
    {
        match c {
            ConstValue::Unit => IrValue::Unit,
            ConstValue::Bool(b) => IrValue::Bool(*b),
            ConstValue::Integer(i) => IrValue::Integer(*i),
            ConstValue::Str(s) => IrValue::Str(s.clone()),
            ConstValue::Bytes(b) => IrValue::Bytes(copy_bytes(b)),
            ConstValue::Vector(vs) => IrValue::Vector(lift_values(vs)),
            ConstValue::Tuple(vs) => IrValue::Tuple(lift_values(vs)),
            ConstValue::Object(es) => IrValue::Object(lift_entries(es)),
        }
    }
}

impl ConstValue {
    /// Deep copy preserving the modelled value.
    pub fn duplicate(&self) -> (r: ConstValue)
        ensures
            r@ == self@,
    {
        IrValue::from_const(self).into_const()
    }
}

} // verus!
