//! The pool assigns stable integer identifiers to fully-qualified item paths
//! and provides bidirectional lookup.
//!
//! Interning is idempotent and injective: two paths receive the same
//! identifier exactly when they are equal as component sequences. Identifiers
//! are stable for the life of one compile unit; the pool never reassigns.

use vstd::prelude::*;

verus! {

/// A stable identifier for an interned item path.
pub type ItemId = usize;

/// The model of one path: its components as character sequences.
pub open spec fn path_model(p: Seq<String>) -> Seq<Seq<char>> {
    p.map_values(|s: String| s@)
}

/// Equality of two paths as component sequences, decided in executable code.
pub fn path_eq(a: &Vec<String>, b: &Vec<String>) -> (r: bool)
    ensures
        r == (path_model(a@) == path_model(b@)),
{
    if a.len() != b.len() {
        proof {
            assert(path_model(a@).len() == a@.len());
            assert(path_model(b@).len() == b@.len());
        }
        return false;
    }
    let mut i: usize = 0;
    while i < a.len()
        invariant
            a.len() == b.len(),
            i <= a.len(),
            forall|j: int| 0 <= j < i ==> a[j]@ == b[j]@,
        decreases a.len() - i,
    {
        if !a[i].eq(&b[i]) {
            proof {
                assert(path_model(a@)[i as int] == a[i as int]@);
                assert(path_model(b@)[i as int] == b[i as int]@);
            }
            return false;
        }
        i = i + 1;
    }
    proof {
        assert(path_model(a@) =~= path_model(b@));
    }
    true
}

/// The interner: an append-only arena of distinct item paths.
pub struct Pool {
    /// The interned paths; the identifier of a path is its position.
    paths: Vec<Vec<String>>,
}

impl Pool {
    /// The abstract state: the models of the interned paths, in order.
    pub closed spec fn view(&self) -> Seq<Seq<Seq<char>>> {
        self.paths@.map_values(|p: Vec<String>| path_model(p@))
    }

    /// All interned paths are pairwise distinct.
    pub closed spec fn wf(&self) -> bool {
        forall|i: int, j: int|
            0 <= i < j < self@.len() ==> self@[i] != self@[j]
    }

    /// An empty pool.
    pub fn new() -> (r: Pool)
        ensures
            r@.len() == 0,
            r.wf(),
    {
        Pool { paths: Vec::new() }
    }

    /// Number of interned paths.
    pub fn len(&self) -> (r: usize)
        ensures
            r == self@.len(),
    {
        self.paths.len()
    }

    /// Look up the identifier of a path without interning it.
    pub fn get_id(&self, path: &Vec<String>) -> (r: Option<ItemId>)
        ensures
            match r {
                Some(id) => id < self@.len() && self@[id as int] == path_model(path@),
                None => forall|j: int| 0 <= j < self@.len() ==> self@[j] != path_model(path@),
            },
    {
        let mut i: usize = 0;
        while i < self.paths.len()
            invariant
                i <= self.paths.len(),
                forall|j: int| 0 <= j < i ==> self@[j] != path_model(path@),
            decreases self.paths.len() - i,
        {
            if path_eq(&self.paths[i], path) {
                proof {
                    assert(self@[i as int] == path_model(self.paths[i as int]@));
                }
                return Some(i);
            }
            proof {
                assert(self@[i as int] == path_model(self.paths[i as int]@));
            }
            i = i + 1;
        }
        None
    }

    /// Intern a path: return its stable identifier, assigning a fresh one to
    /// a path never seen before. Identifiers already given out are unchanged.
    pub fn intern(&mut self, path: Vec<String>) -> (id: ItemId)
        requires
            old(self).wf(),
        ensures
            final(self).wf(),
            id < final(self)@.len(),
            final(self)@[id as int] == path_model(path@),
            forall|j: int|
                0 <= j < old(self)@.len() ==> final(self)@[j] == old(self)@[j],
            (exists|j: int| 0 <= j < old(self)@.len() && old(self)@[j] == path_model(path@))
                ==> final(self)@ == old(self)@,
            !(exists|j: int| 0 <= j < old(self)@.len() && old(self)@[j] == path_model(path@))
                ==> final(self)@ == old(self)@.push(path_model(path@)) && id == old(self)@.len(),
    {
        match self.get_id(&path) {
            Some(id) => {
                proof {
                    assert(final(self)@ =~= old(self)@);
                }
                id
            },
            None => {
                let id = self.paths.len();
                self.paths.push(path);
                proof {
                    assert(final(self)@ =~= old(self)@.push(path_model(final(self).paths@.last()@)));
                }
                id
            },
        }
    }

    /// The path interned under an identifier.
    pub fn item(&self, id: ItemId) -> (r: &Vec<String>)
        requires
            id < self@.len(),
        ensures
            path_model(r@) == self@[id as int],
    {
        proof {
            assert(self@[id as int] == path_model(self.paths[id as int]@));
        }
        &self.paths[id]
    }
}

/// In a well-formed pool, equal paths stand at equal positions.
pub proof fn lemma_pool_distinct(pool: Pool, i: int, j: int)
    requires
        pool.wf(),
        0 <= i < pool@.len(),
        0 <= j < pool@.len(),
        pool@[i] == pool@[j],
    ensures
        i == j,
{
}

/// Interning is injective: in a well-formed pool, two identifiers are equal
/// exactly when the paths interned under them are equal. Together with the
/// contract of [`Pool::intern`], which gives every path the identifier of the
/// interned path it equals, this says that `intern(p)` and `intern(q)` agree
/// exactly when `p` and `q` are the same component sequence.
pub proof fn lemma_interning_injective(pool: Pool, id1: int, id2: int)
    requires
        pool.wf(),
        0 <= id1 < pool@.len(),
        0 <= id2 < pool@.len(),
    ensures
        id1 == id2 <==> pool@[id1] == pool@[id2],
{
}

} // verus!
