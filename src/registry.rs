//! The connection-pool registry: which tenant is linked to which pool.
//! Linking a tenant that is already linked hands back the superseded pool
//! so that the caller closes it; unlinking and draining hand back the pools
//! they remove.

use vstd::prelude::*;

use crate::columns::same;
use crate::error::Error;

verus! {

/// Whether `v` is the value of some key of `m`.
pub open spec fn is_value_of<K, V>(m: Map<K, V>, v: V) -> bool {
    exists|k: K| m.contains_key(k) && m[k] == v
}

/// Pools by tenant, at most one per tenant.
pub struct Registry<P> {
    entries: Vec<(String, P)>,
    pools: Ghost<Map<Seq<char>, P>>,
}

impl<P> View for Registry<P> {
    type V = Map<Seq<char>, P>;

    closed spec fn view(&self) -> Map<Seq<char>, P> {
        self.pools@
    }
}

impl<P> Registry<P> {
    spec fn key(&self, i: int) -> Seq<char> {
        self.entries@[i].0@
    }

    /// The entries hold each tenant once, and exactly the pools of the view.
    pub closed spec fn wf(&self) -> bool {
        &&& forall|i: int, j: int|
            0 <= i < j < self.entries@.len() ==> #[trigger] self.key(i) != #[trigger] self.key(j)
        &&& forall|i: int|
            0 <= i < self.entries@.len() ==> self.pools@.contains_key(#[trigger] self.key(i))
                && self.pools@[self.key(i)] == self.entries@[i].1
        &&& forall|k: Seq<char>|
            #[trigger] self.pools@.contains_key(k) ==> exists|i: int|
                0 <= i < self.entries@.len() && #[trigger] self.key(i) == k
    }

    /// A registry with no tenant linked.
    pub fn new() -> (r: Registry<P>)
        ensures
            r.wf(),
            r@ == Map::<Seq<char>, P>::empty(),
    {
        Registry { entries: Vec::new(), pools: Ghost(Map::empty()) }
    }

    fn find(&self, tenant: &str) -> (r: Option<usize>)
        requires
            self.wf(),
        ensures
            match r {
                Some(i) => i < self.entries@.len() && self.key(i as int) == tenant@,
                None => !self@.contains_key(tenant@),
            },
    {
        let mut i: usize = 0;
        while i < self.entries.len()
            invariant
                0 <= i <= self.entries@.len(),
                forall|j: int| 0 <= j < i ==> #[trigger] self.key(j) != tenant@,
            decreases self.entries@.len() - i,
        {
            if same(self.entries[i].0.as_str(), tenant) {
                return Some(i);
            }
            i = i + 1;
        }
        None
    }

    /// Whether a pool is linked for the tenant.
    pub fn is_linked(&self, tenant: &str) -> (r: bool)
        requires
            self.wf(),
        ensures
            r == self@.contains_key(tenant@),
    {
        self.find(tenant).is_some()
    }

    /// Links a pool for the tenant, replacing any pool linked before; that
    /// pool is handed back for the caller to close.
    pub fn link(&mut self, tenant: String, pool: P) -> (r: Option<P>)
        requires
            old(self).wf(),
        ensures
            final(self).wf(),
            final(self)@ == old(self)@.insert(tenant@, pool),
            old(self)@.contains_key(tenant@) ==> r == Some(old(self)@[tenant@]),
            !old(self)@.contains_key(tenant@) ==> r is None,
    {
        let ghost t = tenant@;
        let ghost g = pool;
        let ghost s0 = *self;
        match self.find(tenant.as_str()) {
            Some(i) => {
                self.entries.push((tenant, pool));
                let (_, superseded) = self.entries.swap_remove(i);
                self.pools = Ghost(self.pools@.insert(t, g));
                assert(self.entries@.len() == s0.entries@.len());
                assert forall|j: int| 0 <= j < self.entries@.len() implies #[trigger] self.key(j) == s0.key(j)
                    && (j != i ==> self.entries@[j] == s0.entries@[j]) by {}
                assert(self.entries@[i as int].1 == g);
                assert forall|j: int| 0 <= j < self.entries@.len() implies self.pools@.contains_key(
                    #[trigger] self.key(j),
                ) && self.pools@[self.key(j)] == self.entries@[j].1 by {
                    if j != i {
                        assert(s0.key(j) != s0.key(i as int));
                    }
                }
                assert forall|k: Seq<char>| #[trigger] self.pools@.contains_key(k) implies exists|j: int|
                    0 <= j < self.entries@.len() && #[trigger] self.key(j) == k by {
                    if k != t {
                        let j = choose|j: int| 0 <= j < s0.entries@.len() && #[trigger] s0.key(j) == k;
                        assert(self.key(j) == k);
                    } else {
                        assert(self.key(i as int) == k);
                    }
                }
                Some(superseded)
            },
            None => {
                self.entries.push((tenant, pool));
                self.pools = Ghost(self.pools@.insert(t, g));
                let ghost n: int = self.entries@.len() - 1;
                assert forall|j: int| 0 <= j < n implies #[trigger] self.key(j) == s0.key(j) && self.entries@[j]
                    == s0.entries@[j] by {}
                assert(self.key(n) == t);
                assert forall|j: int| 0 <= j < n implies #[trigger] self.key(j) != t by {
                    assert(s0.pools@.contains_key(s0.key(j)));
                }
                assert forall|k: Seq<char>| #[trigger] self.pools@.contains_key(k) implies exists|j: int|
                    0 <= j < self.entries@.len() && #[trigger] self.key(j) == k by {
                    if k != t {
                        let j = choose|j: int| 0 <= j < s0.entries@.len() && #[trigger] s0.key(j) == k;
                        assert(self.key(j) == k);
                    } else {
                        assert(self.key(n) == k);
                    }
                }
                None
            },
        }
    }

    /// Unlinks the tenant, handing back its pool for the caller to close.
    pub fn unlink(&mut self, tenant: &str) -> (r: Option<P>)
        requires
            old(self).wf(),
        ensures
            final(self).wf(),
            final(self)@ == old(self)@.remove(tenant@),
            old(self)@.contains_key(tenant@) ==> r == Some(old(self)@[tenant@]),
            !old(self)@.contains_key(tenant@) ==> r is None,
    {
        let ghost s0 = *self;
        match self.find(tenant) {
            Some(i) => {
                let (_, pool) = self.entries.swap_remove(i);
                self.pools = Ghost(self.pools@.remove(tenant@));
                let ghost last: int = s0.entries@.len() - 1;
                assert forall|j: int| 0 <= j < self.entries@.len() implies #[trigger] self.entries@[j] == (
                if j == i {
                    s0.entries@[last]
                } else {
                    s0.entries@[j]
                }) by {}
                assert forall|j: int| 0 <= j < self.entries@.len() implies #[trigger] self.key(j) == (if j == i {
                    s0.key(last)
                } else {
                    s0.key(j)
                }) by {}
                assert forall|j: int| 0 <= j < self.entries@.len() implies #[trigger] self.key(j) != tenant@ by {
                    if j == i {
                        assert(s0.key(last) != s0.key(i as int));
                    } else {
                        assert(s0.key(j) != s0.key(i as int));
                    }
                }
                assert forall|j: int| 0 <= j < self.entries@.len() implies self.pools@.contains_key(
                    #[trigger] self.key(j),
                ) && self.pools@[self.key(j)] == self.entries@[j].1 by {
                    if j == i {
                        assert(s0.pools@.contains_key(s0.key(last)));
                    } else {
                        assert(s0.pools@.contains_key(s0.key(j)));
                    }
                }
                assert forall|a: int, b: int| 0 <= a < b < self.entries@.len() implies #[trigger] self.key(a)
                    != #[trigger] self.key(b) by {
                    if a == i {
                        assert(s0.key(last) != s0.key(b));
                    } else if b == i {
                        assert(s0.key(a) != s0.key(last));
                    } else {
                        assert(s0.key(a) != s0.key(b));
                    }
                }
                assert forall|k: Seq<char>| #[trigger] self.pools@.contains_key(k) implies exists|j: int|
                    0 <= j < self.entries@.len() && #[trigger] self.key(j) == k by {
                    let j = choose|j: int| 0 <= j < s0.entries@.len() && #[trigger] s0.key(j) == k;
                    if j == last {
                        assert(self.key(i as int) == k);
                    } else {
                        assert(self.key(j) == k);
                    }
                }
                Some(pool)
            },
            None => {
                assert(self.pools@.remove(tenant@) =~= self.pools@);
                None
            },
        }
    }

    /// The pool linked for the tenant, or the error that it is not linked.
    pub fn get(&self, tenant: &str) -> (r: Result<&P, Error>)
        requires
            self.wf(),
        ensures
            self@.contains_key(tenant@) ==> r is Ok && *r->Ok_0 == self@[tenant@],
            !self@.contains_key(tenant@) ==> r is Err && r->Err_0 is NotLinked
                && r->Err_0->NotLinked_0@ == tenant@,
    {
        match self.find(tenant) {
            Some(i) => Ok(&self.entries[i].1),
            None => Err(Error::NotLinked(tenant.to_owned())),
        }
    }

    /// Unlinks every tenant, handing back all pools for the caller to close.
    pub fn drain(&mut self) -> (r: Vec<P>)
        requires
            old(self).wf(),
        ensures
            final(self).wf(),
            final(self)@ == Map::<Seq<char>, P>::empty(),
            forall|k: Seq<char>| old(self)@.contains_key(k) ==> r@.contains(#[trigger] old(self)@[k]),
            forall|i: int| 0 <= i < r@.len() ==> is_value_of(old(self)@, #[trigger] r@[i]),
    {
        let ghost s0 = *self;
        let ghost es0 = self.entries@;
        let mut es: Vec<(String, P)> = Vec::new();
        core::mem::swap(&mut es, &mut self.entries);
        self.pools = Ghost(Map::empty());
        let mut out: Vec<P> = Vec::new();
        while es.len() > 0
            invariant
                es@ == es0.subrange(0, es@.len() as int),
                es@.len() <= es0.len(),
                out@.len() == es0.len() - es@.len(),
                forall|j: int| 0 <= j < out@.len() ==> #[trigger] out@[j] == es0[es0.len() - 1 - j].1,
            decreases es@.len(),
        {
            match es.pop() {
                Some((_, p)) => out.push(p),
                None => {},
            }
        }
        assert forall|k: Seq<char>| old(self)@.contains_key(k) implies out@.contains(#[trigger] old(self)@[k]) by {
            let j = choose|j: int| 0 <= j < es0.len() && #[trigger] s0.key(j) == k;
            assert(out@[es0.len() - 1 - j] == es0[j].1);
        }
        assert forall|i: int| 0 <= i < out@.len() implies is_value_of(old(self)@, #[trigger] out@[i]) by {
            let j = es0.len() - 1 - i;
            assert(out@[i] == es0[j].1);
            assert(s0.pools@.contains_key(s0.key(j)) && s0.pools@[s0.key(j)] == out@[i]);
            assert(old(self)@ == s0.pools@);
            assert(old(self)@.contains_key(s0.key(j)) && old(self)@[s0.key(j)] == out@[i]);
        }
        out
    }
}

} // verus!
