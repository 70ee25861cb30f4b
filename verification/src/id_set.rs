//! A set of numeric identities, held in a `BTreeSet` and listed in ascending order, so that it
//! is listed the same way every time.
use vstd::prelude::*;
use vstd::std_specs::btree::axiom_spec_btree_keys_iter;
use vstd::std_specs::iter::IteratorSpec;

verus! {

/// Every element is smaller than the next: ascending, without repeats.
pub open spec fn strictly_ascending(s: Seq<u64>) -> bool {
    forall|i: int, j: int| 0 <= i < j < s.len() ==> s[i] < s[j]
}

/// An ascending sequence without repeats lists each element of its set once.
proof fn lemma_ascending_listing_len(s: Seq<u64>)
    requires
        strictly_ascending(s),
    ensures
        s.to_set().len() == s.len(),
{
    assert(s.no_duplicates()) by {
        assert forall|i: int, j: int| 0 <= i < s.len() && 0 <= j < s.len() && i != j implies s[i] != s[j] by {
            if i < j {
                assert(s[i] < s[j]);
            } else {
                assert(s[j] < s[i]);
            }
        }
    }
    s.unique_seq_to_set();
}

/// Two ascending sequences of one set are the same sequence.
proof fn lemma_ascending_listing_unique(a: Seq<u64>, b: Seq<u64>)
    requires
        strictly_ascending(a),
        strictly_ascending(b),
        a.to_set() == b.to_set(),
    ensures
        a == b,
    decreases a.len(),
{
    lemma_ascending_listing_len(a);
    lemma_ascending_listing_len(b);
    if a.len() > 0 {
        let x = a.last();
        let y = b.last();
        assert(a.to_set().contains(x));
        assert(b.to_set().contains(y));
        assert(b.contains(x));
        assert(a.contains(y));
        let i = choose|i: int| 0 <= i < b.len() && b[i] == x;
        let j = choose|j: int| 0 <= j < a.len() && a[j] == y;
        if x < y {
            assert(a[j] <= a[a.len() - 1]);
        }
        if y < x {
            assert(b[i] <= b[b.len() - 1]);
        }
        assert(x == y);
        let a2 = a.drop_last();
        let b2 = b.drop_last();
        assert forall|z: u64| a2.to_set().contains(z) <==> b2.to_set().contains(z) by {
            if a2.to_set().contains(z) {
                let k = choose|k: int| 0 <= k < a2.len() && a2[k] == z;
                assert(a[k] < a[a.len() - 1]);
                assert(b.to_set().contains(z));
                let m = choose|m: int| 0 <= m < b.len() && b[m] == z;
                assert(m != b.len() - 1);
                assert(b2[m] == z);
            }
            if b2.to_set().contains(z) {
                let k = choose|k: int| 0 <= k < b2.len() && b2[k] == z;
                assert(b[k] < b[b.len() - 1]);
                assert(a.to_set().contains(z));
                let m = choose|m: int| 0 <= m < a.len() && a[m] == z;
                assert(m != a.len() - 1);
                assert(a2[m] == z);
            }
        }
        assert(a2.to_set() =~= b2.to_set());
        lemma_ascending_listing_unique(a2, b2);
        assert(a =~= a2.push(x));
        assert(b =~= b2.push(y));
    } else {
        assert(b.len() == 0);
        assert(a =~= b);
    }
}

/// The set walks its identities in ascending order.
proof fn lemma_walk_ascending(m: &std::collections::BTreeSet<u64>)
    ensures
        strictly_ascending(vstd::std_specs::btree::spec_btree_keys_iter(m).remaining().unref()),
        vstd::std_specs::btree::spec_btree_keys_iter(m).remaining().unref().to_set() == m@,
{
    broadcast use vstd::laws_cmp::group_laws_cmp;
    broadcast use vstd::laws_cmp::lemma_ref_obeys_cmp_spec;
    axiom_spec_btree_keys_iter(m);
    let walk = vstd::std_specs::btree::spec_btree_keys_iter(m).remaining();
    assert forall|i: int, j: int| 0 <= i < j < walk.unref().len() implies walk.unref()[i] < walk.unref()[j] by {
        assert(vstd::std_specs::cmp::OrdSpec::cmp_spec(&walk[i], &walk[j]) is Less);
    }
}

/// A set of identities.
#[derive(Debug)]
pub struct IdSet {
    ids: std::collections::BTreeSet<u64>,
}

impl View for IdSet {
    type V = Set<u64>;

    closed spec fn view(&self) -> Set<u64> {
        self.ids@
    }
}

impl IdSet {
    /// The identities in ascending order.
    pub closed spec fn listing(self) -> Seq<u64> {
        choose|s: Seq<u64>| strictly_ascending(s) && s.to_set() == self.ids@
    }

    /// The empty set.
    pub fn new() -> (r: Self)
        ensures
            r@ == Set::<u64>::empty(),
    {
        IdSet { ids: std::collections::BTreeSet::new() }
    }

    /// Whether `id` is in the set.
    pub fn contains(&self, id: u64) -> (r: bool)
        ensures
            r == self@.contains(id),
    {
        self.ids.contains(&id)
    }

    /// Adds `id`; returns whether it was new.
    pub fn insert(&mut self, id: u64) -> (r: bool)
        ensures
            final(self)@ == old(self)@.insert(id),
            r == !old(self)@.contains(id),
    {
        self.ids.insert(id)
    }

    /// Takes `id` out; returns whether it was there.
    pub fn remove(&mut self, id: u64) -> (r: bool)
        ensures
            final(self)@ == old(self)@.remove(id),
            r == old(self)@.contains(id),
    {
        self.ids.remove(&id)
    }

    /// Empties the set.
    pub fn clear(&mut self)
        ensures
            final(self)@ == Set::<u64>::empty(),
    {
        self.ids.clear();
    }

    /// Whether the set is empty.
    pub fn is_empty(&self) -> (r: bool)
        ensures
            r == (self@ == Set::<u64>::empty()),
    {
        let r = self.ids.is_empty();
        proof {
            if !r {
                let x = self@.choose();
                assert(self@.contains(x));
            } else {
                assert(self@ =~= Set::<u64>::empty());
            }
        }
        r
    }

    /// The identities in ascending order: the one ascending enumeration of the set.
    pub fn to_vec(&self) -> (r: Vec<u64>)
        ensures
            r@ == self.listing(),
            strictly_ascending(r@),
            r@.to_set() == self@,
    {
        let mut out: Vec<u64> = Vec::new();
        let iter = self.ids.iter();
        proof {
            lemma_walk_ascending(&self.ids);
        }
        let ghost keys = iter.remaining().unref();
        for id in it: iter
            invariant
                keys == it.seq().unref(),
                keys.to_set() == self.ids@,
                forall|i: int, j: int| 0 <= i < j < keys.len() ==> keys[i] < keys[j],
                out@ == keys.take(it.index() as int),
        {
            out.push(*id);
            proof {
                assert(out@ =~= keys.take(it.index() + 1));
            }
        }
        proof {
            assert(keys.take(keys.len() as int) =~= keys);
            assert(out@ =~= keys);
            assert(strictly_ascending(keys));
            lemma_ascending_listing_unique(keys, self.listing());
        }
        out
    }

    /// The number of identities.
    pub fn len(&self) -> (r: usize)
        ensures
            r == self.listing().len(),
    {
        proof {
            lemma_walk_ascending(&self.ids);
            let walk = vstd::std_specs::btree::spec_btree_keys_iter(&self.ids).remaining().unref();
            assert(strictly_ascending(walk) && walk.to_set() == self.ids@);
            lemma_ascending_listing_len(self.listing());
        }
        self.ids.len()
    }

    /// Adds every identity of `ids`.
    pub fn insert_all(&mut self, ids: &Vec<u64>)
        ensures
            final(self)@ == old(self)@.union(ids@.to_set()),
    {
        let mut i: usize = 0;
        while i < ids.len()
            invariant
                i <= ids@.len(),
                self@ == old(self)@.union(ids@.take(i as int).to_set()),
            decreases ids@.len() - i,
        {
            self.insert(ids[i]);
            proof {
                assert(ids@.take(i as int + 1) =~= ids@.take(i as int).push(ids@[i as int]));
                ids@.take(i as int).lemma_push_to_set_commute(ids@[i as int]);
            }
            i = i + 1;
            assert(self@ =~= old(self)@.union(ids@.take(i as int).to_set()));
        }
        assert(ids@.take(i as int) =~= ids@);
    }

    /// Takes out every identity of `ids`.
    pub fn remove_all(&mut self, ids: &Vec<u64>)
        ensures
            final(self)@ == old(self)@.difference(ids@.to_set()),
    {
        let mut i: usize = 0;
        while i < ids.len()
            invariant
                i <= ids@.len(),
                self@ == old(self)@.difference(ids@.take(i as int).to_set()),
            decreases ids@.len() - i,
        {
            self.remove(ids[i]);
            proof {
                assert(ids@.take(i as int + 1) =~= ids@.take(i as int).push(ids@[i as int]));
                ids@.take(i as int).lemma_push_to_set_commute(ids@[i as int]);
            }
            i = i + 1;
            assert(self@ =~= old(self)@.difference(ids@.take(i as int).to_set()));
        }
        assert(ids@.take(i as int) =~= ids@);
    }

    /// The set of the identities of `ids`.
    pub fn from_ids(ids: &Vec<u64>) -> (r: Self)
        ensures
            r@ == ids@.to_set(),
    {
        let mut r = IdSet::new();
        r.insert_all(ids);
        assert(r@ =~= ids@.to_set());
        r
    }

    /// Keeps only the identities that `keep` lists.
    pub fn retain_listed(&mut self, keep: &Vec<u64>)
        ensures
            final(self)@ == old(self)@.intersect(keep@.to_set()),
    {
        let listed = IdSet::from_ids(keep);
        let current = self.to_vec();
        let mut i: usize = 0;
        while i < current.len()
            invariant
                i <= current@.len(),
                listed@ == keep@.to_set(),
                current@.to_set() == old(self)@,
                forall|x: u64| #[trigger] self@.contains(x) <==> (old(self)@.contains(x) && (
                    current@.take(i as int).to_set().contains(x) ==> listed@.contains(x))),
            decreases current@.len() - i,
        {
            let id = current[i];
            if !listed.contains(id) {
                self.remove(id);
            }
            proof {
                assert(current@.take(i as int + 1) =~= current@.take(i as int).push(id));
                current@.take(i as int).lemma_push_to_set_commute(id);
            }
            i = i + 1;
        }
        proof {
            assert(current@.take(i as int) =~= current@);
            assert(self@ =~= old(self)@.intersect(keep@.to_set()));
        }
    }
}

} // verus!
