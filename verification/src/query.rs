//! The query side of compilation: the constant cache with its in-progress
//! marks, the meta store keyed by item and parameters hash, and the
//! declarations elaborated from user source.
//!
//! The cache obeys: an item with a cached value is fully evaluated; an item
//! marked but without a value is being evaluated right now, and meeting it
//! again is a constant cycle.

use vstd::prelude::*;

use crate::ir::Ir;
use crate::ir::IrFn;
use crate::meta::ContextMeta;
use crate::meta::ContextMetaKind;
use crate::meta::ItemMeta;
use crate::meta::Meta;
use crate::meta::MetaKind;
use crate::meta::MetaVisibility;
use crate::meta::EMPTY_HASH;
use crate::pool::ItemId;
use crate::pool::Pool;
use crate::span::Span;
use crate::value::ConstValue;
use crate::value::Val;

verus! {

/// Whether a queried meta is reached from live code; affects dead-code
/// warnings and nothing in resolution itself.
#[derive(Debug, Clone, Copy, PartialEq, Eq, Structural)]
pub enum Used {
    /// The meta is reached from live code.
    Used,
    /// The meta is reached only from dead code.
    Unused,
}

/// The mapping described by an id-keyed entry list; a later entry
/// overrides an earlier one of the same id.
pub open spec fn id_map<V>(s: Seq<(ItemId, V)>) -> Map<int, V>
    decreases s,
{
    if s.len() == 0 {
        Map::empty()
    } else {
        id_map(s.drop_last()).insert(s.last().0 as int, s.last().1)
    }
}

/// An id no entry holds is not in the mapping.
pub proof fn lemma_id_map_absent<V>(s: Seq<(ItemId, V)>, id: ItemId)
    requires
        forall|j: int| 0 <= j < s.len() ==> s[j].0 != id,
    ensures
        !id_map(s).contains_key(id as int),
    decreases s,
{
    if s.len() > 0 {
        assert(s[s.len() - 1].0 != id);
        assert forall|j: int| 0 <= j < s.drop_last().len() implies s.drop_last()[j].0 != id by {
            assert(s.drop_last()[j] == s[j]);
        }
        lemma_id_map_absent(s.drop_last(), id);
    }
}

/// The mapping holds, at an id, the value of the last entry with that id.
pub proof fn lemma_id_map_at<V>(s: Seq<(ItemId, V)>, id: ItemId, i: int)
    requires
        0 <= i < s.len(),
        s[i].0 == id,
        forall|j: int| i < j < s.len() ==> s[j].0 != id,
    ensures
        id_map(s).contains_key(id as int),
        id_map(s)[id as int] == s[i].1,
    decreases s,
{
    if i == s.len() - 1 {
    } else {
        assert(s[s.len() - 1].0 != id);
        assert(s.drop_last()[i] == s[i]);
        assert forall|j: int| i < j < s.drop_last().len() implies s.drop_last()[j].0 != id by {
            assert(s.drop_last()[j] == s[j]);
        }
        lemma_id_map_at(s.drop_last(), id, i);
    }
}

/// Find the position of the last entry with an id.
fn id_rfind<V>(s: &Vec<(ItemId, V)>, id: ItemId) -> (r: Option<usize>)
    ensures
        match r {
            Some(i) => i < s@.len() && s@[i as int].0 == id && forall|j: int|
                i < j < s@.len() ==> s@[j].0 != id,
            None => forall|j: int| 0 <= j < s@.len() ==> s@[j].0 != id,
        },
{
    let mut i: usize = s.len();
    while i > 0
        invariant
            i <= s@.len(),
            forall|j: int| i <= j < s@.len() ==> s@[j].0 != id,
        decreases i,
    {
        i = i - 1;
        if s[i].0 == id {
            return Some(i);
        }
    }
    None
}

/// The set described by a list of ids.
pub open spec fn ids_set(s: Seq<ItemId>) -> Set<int>
    decreases s,
{
    if s.len() == 0 {
        Set::empty()
    } else {
        ids_set(s.drop_last()).insert(s.last() as int)
    }
}

/// The set of a list of ids is pointwise, and finite.
pub proof fn lemma_ids_set(s: Seq<ItemId>)
    ensures
        ids_set(s).finite(),
        forall|i: int| 0 <= i < s.len() ==> #[trigger] ids_set(s).contains(s[i] as int),
        forall|k: int|
            #[trigger] ids_set(s).contains(k) ==> exists|i: int| 0 <= i < s.len() && s[i] == k,
    decreases s,
{
    if s.len() > 0 {
        lemma_ids_set(s.drop_last());
        assert forall|i: int|
            0 <= i < s.len() implies #[trigger] ids_set(s).contains(s[i] as int) by {
            if i < s.len() - 1 {
                assert(s.drop_last()[i] == s[i]);
                assert(ids_set(s.drop_last()).contains(s.drop_last()[i] as int));
            }
        }
        assert forall|k: int|
            #[trigger] ids_set(s).contains(k) implies exists|i: int|
            0 <= i < s.len() && s[i] == k by {
            if k != s.last() as int {
                assert(ids_set(s.drop_last()).contains(k));
                let i = choose|i: int| 0 <= i < s.drop_last().len() && s.drop_last()[i] == k;
                assert(s[i] == k);
            } else {
                assert(s[s.len() - 1] == k);
            }
        }
    }
}

/// The constant cache: write-once values, and the marks of evaluations in
/// progress.
pub struct Consts {
    values: Vec<(ItemId, ConstValue)>,
    marked: Vec<ItemId>,
}

impl Consts {
    /// The modelled values of the fully evaluated constants.
    pub closed spec fn values(&self) -> Map<int, Val> {
        id_map(self.values@).map_values(|c: ConstValue| c@)
    }

    /// The items whose evaluation has begun.
    pub closed spec fn marked(&self) -> Set<int> {
        ids_set(self.marked@)
    }

    /// An empty cache.
    pub fn new() -> (r: Consts)
        ensures
            r.values() == Map::<int, Val>::empty(),
            r.marked() == Set::<int>::empty(),
    {
        let r = Consts { values: Vec::new(), marked: Vec::new() };
        proof {
            assert(r.values() =~= Map::<int, Val>::empty());
        }
        r
    }

    /// The cached value of an item, if it is fully evaluated.
    pub fn get(&self, item: ItemId) -> (r: Option<ConstValue>)
        ensures
            match r {
                Some(v) => self.values().contains_key(item as int) && v@ == self.values()[
                    item as int
                ],
                None => !self.values().contains_key(item as int),
            },
    {
        match id_rfind(&self.values, item) {
            Some(i) => {
                proof {
                    lemma_id_map_at(self.values@, item, i as int);
                }
                Some(self.values[i].1.duplicate())
            },
            None => {
                proof {
                    lemma_id_map_absent(self.values@, item);
                }
                None
            },
        }
    }

    /// Whether an item is marked as being evaluated.
    pub fn is_marked(&self, item: ItemId) -> (r: bool)
        ensures
            r == self.marked().contains(item as int),
    {
        let mut i: usize = 0;
        while i < self.marked.len()
            invariant
                i <= self.marked.len(),
                forall|j: int| 0 <= j < i ==> self.marked@[j] != item,
            decreases self.marked.len() - i,
        {
            if self.marked[i] == item {
                proof {
                    lemma_ids_set(self.marked@);
                }
                return true;
            }
            i = i + 1;
        }
        proof {
            lemma_ids_set(self.marked@);
            if self.marked().contains(item as int) {
                let i = choose|i: int| 0 <= i < self.marked@.len() && self.marked@[i] == item;
                assert(self.marked@[i] == item);
            }
        }
        false
    }

    /// Mark an item as being evaluated. Answers whether the mark is new;
    /// meeting an already-marked item is a constant cycle.
    pub fn mark(&mut self, item: ItemId) -> (r: bool)
        ensures
            r == !old(self).marked().contains(item as int),
            final(self).marked() == old(self).marked().insert(item as int),
            final(self).values() == old(self).values(),
            old(self).marked().contains(item as int) ==> *final(self) == *old(self),
    {
        let already = self.is_marked(item);
        if already {
            proof {
                assert(final(self).marked() =~= old(self).marked().insert(item as int));
            }
            return false;
        }
        self.marked.push(item);
        proof {
            assert(self.marked@.drop_last() =~= old(self).marked@);
        }
        true
    }

    /// Cache the value of a fully evaluated item, returning the previously
    /// cached value if there was one.
    pub fn insert(&mut self, item: ItemId, value: ConstValue) -> (r: Option<ConstValue>)
        ensures
            final(self).values() == old(self).values().insert(item as int, value@),
            final(self).marked() == old(self).marked(),
            r is Some <==> old(self).values().contains_key(item as int),
            r matches Some(p) ==> p@ == old(self).values()[item as int],
    {
        let prev = self.get(item);
        let ghost value_model = value@;
        self.values.push((item, value));
        proof {
            assert(self.values@.drop_last() =~= old(self).values@);
            assert(final(self).values() =~= old(self).values().insert(item as int, value_model));
        }
        prev
    }
}

/// The mapping described by a pair-keyed entry list; a later entry
/// overrides an earlier one of the same key.
pub open spec fn pair_map<V>(s: Seq<((ItemId, u64), V)>) -> Map<(int, int), V>
    decreases s,
{
    if s.len() == 0 {
        Map::empty()
    } else {
        pair_map(s.drop_last()).insert((s.last().0.0 as int, s.last().0.1 as int), s.last().1)
    }
}

/// A key no entry holds is not in the mapping.
pub proof fn lemma_pair_map_absent<V>(s: Seq<((ItemId, u64), V)>, item: ItemId, params: u64)
    requires
        forall|j: int| 0 <= j < s.len() ==> !(s[j].0.0 == item && s[j].0.1 == params),
    ensures
        !pair_map(s).contains_key((item as int, params as int)),
    decreases s,
{
    if s.len() > 0 {
        assert(!(s[s.len() - 1].0.0 == item && s[s.len() - 1].0.1 == params));
        assert forall|j: int|
            0 <= j < s.drop_last().len() implies !(s.drop_last()[j].0.0 == item
            && s.drop_last()[j].0.1 == params) by {
            assert(s.drop_last()[j] == s[j]);
        }
        lemma_pair_map_absent(s.drop_last(), item, params);
    }
}

/// The mapping holds, at a key, the value of the last entry with that key.
pub proof fn lemma_pair_map_at<V>(s: Seq<((ItemId, u64), V)>, item: ItemId, params: u64, i: int)
    requires
        0 <= i < s.len(),
        s[i].0.0 == item,
        s[i].0.1 == params,
        forall|j: int| i < j < s.len() ==> !(s[j].0.0 == item && s[j].0.1 == params),
    ensures
        pair_map(s).contains_key((item as int, params as int)),
        pair_map(s)[(item as int, params as int)] == s[i].1,
    decreases s,
{
    if i == s.len() - 1 {
    } else {
        assert(!(s[s.len() - 1].0.0 == item && s[s.len() - 1].0.1 == params));
        assert(s.drop_last()[i] == s[i]);
        assert forall|j: int|
            i < j < s.drop_last().len() implies !(s.drop_last()[j].0.0 == item
            && s.drop_last()[j].0.1 == params) by {
            assert(s.drop_last()[j] == s[j]);
        }
        lemma_pair_map_at(s.drop_last(), item, params, i);
    }
}

/// The meta store and the declarations elaborated from user source,
/// together with the pool. This side of the query system is read-only
/// while constants evaluate; only the constant cache changes then.
pub struct Query {
    pool: Pool,
    metas: Vec<((ItemId, u64), Meta)>,
    decl_consts: Vec<(ItemId, Ir)>,
    decl_fns: Vec<(ItemId, IrFn)>,
}

/// In a well-formed query system, equal paths stand at equal pool
/// positions.
pub proof fn lemma_query_pool_distinct(q: Query, i: int, j: int)
    requires
        q.wf(),
        0 <= i < q.spec_pool()@.len(),
        0 <= j < q.spec_pool()@.len(),
        q.spec_pool()@[i] == q.spec_pool()@[j],
    ensures
        i == j,
{
    crate::pool::lemma_pool_distinct(q.spec_pool(), i, j);
}

impl Query {
    /// The interner for item paths.
    pub closed spec fn spec_pool(&self) -> Pool {
        self.pool
    }

    /// The metas stored so far, keyed by item and parameters hash.
    pub closed spec fn metas(&self) -> Map<(int, int), Meta> {
        pair_map(self.metas@)
    }

    /// The reduced bodies of the constants declared in user source.
    pub closed spec fn decl_consts(&self) -> Map<int, Ir> {
        id_map(self.decl_consts@)
    }

    /// The reduced forms of the constant functions declared in user source.
    pub closed spec fn decl_fns(&self) -> Map<int, IrFn> {
        id_map(self.decl_fns@)
    }

    /// The pool never reassigns, and its paths stay distinct.
    pub closed spec fn wf(&self) -> bool {
        self.pool.wf()
    }

    /// An empty query system over a pool.
    pub fn new(pool: Pool) -> (r: Query)
        requires
            pool.wf(),
        ensures
            r.wf(),
            r.spec_pool() == pool,
            r.metas() == Map::<(int, int), Meta>::empty(),
            r.decl_consts() == Map::<int, Ir>::empty(),
            r.decl_fns() == Map::<int, IrFn>::empty(),
    {
        let r = Query { pool, metas: Vec::new(), decl_consts: Vec::new(), decl_fns: Vec::new() };
        proof {
            assert(r.metas() =~= Map::<(int, int), Meta>::empty());
            assert(r.decl_consts() =~= Map::<int, Ir>::empty());
            assert(r.decl_fns() =~= Map::<int, IrFn>::empty());
        }
        r
    }

    /// Intern a path in the pool, handing back its stable identifier.
    pub fn intern(&mut self, path: Vec<String>) -> (id: ItemId)
        requires
            old(self).wf(),
        ensures
            final(self).wf(),
            final(self).metas() == old(self).metas(),
            final(self).decl_consts() == old(self).decl_consts(),
            final(self).decl_fns() == old(self).decl_fns(),
            id < final(self).spec_pool()@.len(),
            final(self).spec_pool()@.len() >= old(self).spec_pool()@.len(),
            final(self).spec_pool()@[id as int] == crate::pool::path_model(path@),
            forall|j: int|
                0 <= j < old(self).spec_pool()@.len() ==> final(self).spec_pool()@[j] == old(
                    self,
                ).spec_pool()@[j],
    {
        self.pool.intern(path)
    }

    /// Look up the identifier of a path without interning it.
    pub fn get_id(&self, path: &Vec<String>) -> (r: Option<ItemId>)
        requires
            self.wf(),
        ensures
            match r {
                Some(id) => id < self.spec_pool()@.len() && self.spec_pool()@[id as int]
                    == crate::pool::path_model(path@),
                None => forall|j: int|
                    0 <= j < self.spec_pool()@.len() ==> self.spec_pool()@[j]
                        != crate::pool::path_model(path@),
            },
    {
        self.pool.get_id(path)
    }

    /// The path interned under an identifier.
    pub fn item(&self, id: ItemId) -> (r: &Vec<String>)
        requires
            self.wf(),
            id < self.spec_pool()@.len(),
        ensures
            crate::pool::path_model(r@) == self.spec_pool()@[id as int],
    {
        self.pool.item(id)
    }

    /// The stored meta of an item under a parameters hash, if any.
    pub fn get_meta(&self, item: ItemId, parameters: u64) -> (r: Option<&Meta>)
        ensures
            match r {
                Some(m) => self.metas().contains_key((item as int, parameters as int)) && *m
                    == self.metas()[(item as int, parameters as int)],
                None => !self.metas().contains_key((item as int, parameters as int)),
            },
    {
        let mut i: usize = self.metas.len();
        while i > 0
            invariant
                i <= self.metas@.len(),
                forall|j: int|
                    i <= j < self.metas@.len() ==> !(self.metas@[j].0.0 == item
                        && self.metas@[j].0.1 == parameters),
            decreases i,
        {
            i = i - 1;
            if self.metas[i].0.0 == item && self.metas[i].0.1 == parameters {
                proof {
                    lemma_pair_map_at(self.metas@, item, parameters, i as int);
                }
                return Some(&self.metas[i].1);
            }
        }
        proof {
            lemma_pair_map_absent(self.metas@, item, parameters);
        }
        None
    }

    /// Return the cached meta of an item without parameters, as resolution
    /// consults it first. The `used` flag feeds dead-code warnings and does
    /// not change the result.
    pub fn query_meta(&self, _span: Span, item: ItemId, _used: Used) -> (r: Option<&Meta>)
        ensures
            match r {
                Some(m) => self.metas().contains_key((item as int, EMPTY_HASH as int)) && *m
                    == self.metas()[(item as int, EMPTY_HASH as int)],
                None => !self.metas().contains_key((item as int, EMPTY_HASH as int)),
            },
    {
        self.get_meta(item, EMPTY_HASH)
    }

    /// Store a meta under its item and parameters hash, overriding an
    /// earlier record of the same key.
    pub fn insert_meta(&mut self, meta: Meta)
        ensures
            old(self).wf() ==> final(self).wf(),
            final(self).metas() == old(self).metas().insert(
                (meta.item_meta.item as int, meta.parameters as int),
                meta,
            ),
            final(self).spec_pool() == old(self).spec_pool(),
            final(self).decl_consts() == old(self).decl_consts(),
            final(self).decl_fns() == old(self).decl_fns(),
    {
        let item = meta.item_meta.item;
        let parameters = meta.parameters;
        let ghost meta_snap = meta;
        self.metas.push(((item, parameters), meta));
        proof {
            assert(self.metas@.drop_last() =~= old(self).metas@);
            assert(final(self).metas() =~= old(self).metas().insert(
                (item as int, parameters as int),
                meta_snap,
            ));
        }
    }

    /// Copy a host-registered meta into the store and answer with the
    /// stored record.
    pub fn insert_context_meta(&mut self, _span: Span, cm: &ContextMeta) -> (r: &Meta)
        ensures
            old(self).wf() ==> final(self).wf(),
            final(self).spec_pool() == old(self).spec_pool(),
            final(self).decl_consts() == old(self).decl_consts(),
            final(self).decl_fns() == old(self).decl_fns(),
            final(self).metas().contains_key((cm.item as int, cm.parameters as int)),
            *r == final(self).metas()[(cm.item as int, cm.parameters as int)],
            r.item_meta.item == cm.item,
            r.item_meta.module == cm.module,
            r.parameters == cm.parameters,
            r.kind.spec_tag() == cm.kind.spec_tag(),
            cm.kind matches ContextMetaKind::Const { value } ==> (r.kind matches
                MetaKind::Const { value: v } && v@ == value@),
            final(self).metas() == old(self).metas().insert(
                (cm.item as int, cm.parameters as int),
                final(self).metas()[(cm.item as int, cm.parameters as int)],
            ),
    {
        let kind = match &cm.kind {
            ContextMetaKind::Fn => MetaKind::Fn,
            ContextMetaKind::Struct => MetaKind::Struct,
            ContextMetaKind::Enum => MetaKind::Enum,
            ContextMetaKind::Variant => MetaKind::Variant,
            ContextMetaKind::Module => MetaKind::Module,
            ContextMetaKind::Macro => MetaKind::Macro,
            ContextMetaKind::Impl => MetaKind::Impl,
            ContextMetaKind::Const { value } => MetaKind::Const { value: value.duplicate() },
        };
        let meta = Meta {
            item_meta: ItemMeta {
                item: cm.item,
                module: cm.module,
                visibility: MetaVisibility::Public,
                source_id: 0,
            },
            parameters: cm.parameters,
            kind,
        };
        self.insert_meta(meta);
        let r = self.get_meta(cm.item, cm.parameters);
        match r {
            Some(m) => m,
            None => {
                proof {
                    assert(false);
                }
                unreached()
            },
        }
    }

    /// Record the reduced body of a constant declared in user source,
    /// overriding an earlier record of the same item.
    pub fn declare_const(&mut self, item: ItemId, ir: Ir)
        ensures
            final(self).spec_pool() == old(self).spec_pool(),
            final(self).metas() == old(self).metas(),
            final(self).decl_fns() == old(self).decl_fns(),
            final(self).decl_consts() == old(self).decl_consts().insert(item as int, ir),
    {
        let ghost ir_snap = ir;
        self.decl_consts.push((item, ir));
        proof {
            assert(self.decl_consts@.drop_last() =~= old(self).decl_consts@);
            assert(final(self).decl_consts() =~= old(self).decl_consts().insert(
                item as int,
                ir_snap,
            ));
        }
    }

    /// The reduced body of a declared constant, if the item declares one.
    pub fn get_decl_const(&self, item: ItemId) -> (r: Option<&Ir>)
        ensures
            match r {
                Some(ir) => self.decl_consts().contains_key(item as int) && *ir
                    == self.decl_consts()[item as int],
                None => !self.decl_consts().contains_key(item as int),
            },
    {
        match id_rfind(&self.decl_consts, item) {
            Some(i) => {
                proof {
                    lemma_id_map_at(self.decl_consts@, item, i as int);
                }
                Some(&self.decl_consts[i].1)
            },
            None => {
                proof {
                    lemma_id_map_absent(self.decl_consts@, item);
                }
                None
            },
        }
    }

    /// Record the reduced form of a constant function declared in user
    /// source, overriding an earlier record of the same item.
    pub fn declare_const_fn(&mut self, item: ItemId, ir_fn: IrFn)
        ensures
            final(self).spec_pool() == old(self).spec_pool(),
            final(self).metas() == old(self).metas(),
            final(self).decl_consts() == old(self).decl_consts(),
            final(self).decl_fns() == old(self).decl_fns().insert(item as int, ir_fn),
    {
        let ghost fn_snap = ir_fn;
        self.decl_fns.push((item, ir_fn));
        proof {
            assert(self.decl_fns@.drop_last() =~= old(self).decl_fns@);
            assert(final(self).decl_fns() =~= old(self).decl_fns().insert(item as int, fn_snap));
        }
    }

    /// The reduced form of a declared constant function, if the item
    /// declares one.
    pub fn get_decl_fn(&self, item: ItemId) -> (r: Option<&IrFn>)
        ensures
            match r {
                Some(f) => self.decl_fns().contains_key(item as int) && *f == self.decl_fns()[
                    item as int
                ],
                None => !self.decl_fns().contains_key(item as int),
            },
    {
        match id_rfind(&self.decl_fns, item) {
            Some(i) => {
                proof {
                    lemma_id_map_at(self.decl_fns@, item, i as int);
                }
                Some(&self.decl_fns[i].1)
            },
            None => {
                proof {
                    lemma_id_map_absent(self.decl_fns@, item);
                }
                None
            },
        }
    }
}

} // verus!
