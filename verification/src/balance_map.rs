use vstd::prelude::*;
use crate::address::Address;
use crate::balance::Balance;

verus! {

/// No address stands at two places of the list.
pub open spec fn distinct_keys(pairs: Seq<(Address, Balance)>) -> bool {
    forall|i: int, j: int| 0 <= i < j < pairs.len() ==> pairs[i].0 != pairs[j].0
}

/// Whether some pair of the list has the address `a`.
pub open spec fn has_key(pairs: Seq<(Address, Balance)>, a: Address) -> bool {
    exists|i: int| 0 <= i < pairs.len() && (#[trigger] pairs[i]).0 == a
}

/// A place at which the list holds the address `a`.
pub open spec fn key_index(pairs: Seq<(Address, Balance)>, a: Address) -> int {
    choose|i: int| 0 <= i < pairs.len() && (#[trigger] pairs[i]).0 == a
}

/// The mapping that a list of pairs denotes.
pub open spec fn pairs_map(pairs: Seq<(Address, Balance)>) -> Map<Address, nat> {
    Map::new(|a: Address| has_key(pairs, a), |a: Address| pairs[key_index(pairs, a)].1@)
}

/// With distinct keys, each pair of the list is an entry of its mapping.
pub proof fn lemma_pairs_map_entry(pairs: Seq<(Address, Balance)>, i: int)
    requires
        distinct_keys(pairs),
        0 <= i < pairs.len(),
    ensures
        pairs_map(pairs).contains_key(pairs[i].0),
        pairs_map(pairs)[pairs[i].0] == pairs[i].1@,
{
    let a = pairs[i].0;
    assert(has_key(pairs, a));
    let k = key_index(pairs, a);
    assert(k == i) by {
        if k < i {
            assert(pairs[k].0 != pairs[i].0);
        }
        if i < k {
            assert(pairs[i].0 != pairs[k].0);
        }
    }
}

/// A mapping from addresses to balances.
#[derive(Debug)]
pub struct BalanceMap {
    entries: Vec<(Address, Balance)>,
}

impl View for BalanceMap {
    type V = Map<Address, nat>;

    closed spec fn view(&self) -> Map<Address, nat> {
        pairs_map(self.entries@)
    }
}

impl Clone for BalanceMap {
    fn clone(&self) -> (r: BalanceMap)
        ensures
            r@ == self@,
            r.entries() == self.entries(),
    {
        proof {
            use_type_invariant(self);
        }
        BalanceMap { entries: self.pairs() }
    }
}

impl BalanceMap {
    #[verifier::type_invariant]
    spec fn keys_distinct(self) -> bool {
        distinct_keys(self.entries@)
    }

    /// The entries in the order in which they are held. The order carries no
    /// meaning; it is what `pairs` hands out.
    pub closed spec fn entries(&self) -> Seq<(Address, Balance)> {
        self.entries@
    }

    /// The entries have distinct addresses and make up the mapping.
    pub proof fn lemma_entries(&self)
        ensures
            pairs_map(self.entries()) == self@,
    {
    }

    /// The empty mapping.
    pub fn new() -> (m: BalanceMap)
        ensures
            m@ == Map::<Address, nat>::empty(),
    {
        let m = BalanceMap { entries: Vec::new() };
        assert(m@ =~= Map::<Address, nat>::empty());
        m
    }

    /// Whether the mapping has no entry.
    pub fn is_empty(&self) -> (r: bool)
        ensures
            r == (self@ == Map::<Address, nat>::empty()),
    {
        proof {
            if self.entries@.len() == 0 {
                assert(self@ =~= Map::<Address, nat>::empty());
            } else {
                assert(has_key(self.entries@, self.entries@[0].0));
                assert(self@.contains_key(self.entries@[0].0));
            }
        }
        self.entries.len() == 0
    }

    /// The place of `a` among the entries, if it has one.
    fn position(&self, a: &Address) -> (r: Option<usize>)
        ensures
            match r {
                Some(i) => i < self.entries@.len() && self.entries@[i as int].0 == *a,
                None => !has_key(self.entries@, *a),
            },
    {
        let mut i: usize = 0;
        while i < self.entries.len()
            invariant
                i <= self.entries.len(),
                forall|k: int| 0 <= k < i ==> self.entries@[k].0 != *a,
            decreases self.entries.len() - i,
        {
            if self.entries[i].0 == *a {
                return Some(i);
            }
            i += 1;
        }
        None
    }

    /// The balance recorded for `a`, if there is one.
    pub fn get(&self, a: &Address) -> (r: Option<Balance>)
        ensures
            match r {
                Some(b) => self@.contains_key(*a) && self@[*a] == b@,
                None => !self@.contains_key(*a),
            },
    {
        proof {
            use_type_invariant(self);
        }
        match self.position(a) {
            Some(i) => {
                proof {
                    lemma_pairs_map_entry(self.entries@, i as int);
                }
                Some(self.entries[i].1)
            },
            None => None,
        }
    }

    /// Whether `a` has an entry.
    pub fn contains_key(&self, a: &Address) -> (r: bool)
        ensures
            r == self@.contains_key(*a),
    {
        self.position(a).is_some()
    }

    /// Records `b` for `a`, in place of what was recorded before.
    pub fn insert(&mut self, a: Address, b: Balance)
        ensures
            final(self)@ == old(self)@.insert(a, b@),
    {
        proof {
            use_type_invariant(&*self);
        }
        let found = self.position(&a);
        let mut entries: Vec<(Address, Balance)> = Vec::new();
        core::mem::swap(&mut entries, &mut self.entries);
        let ghost before = entries@;
        match found {
            Some(i) => {
                entries.set(i, (a, b));
            },
            None => {
                entries.push((a, b));
            },
        }
        let ghost after = entries@;
        proof {
            let at = match found {
                Some(i) => i as int,
                None => before.len() as int,
            };
            assert(after[at] == (a, b));
            assert(forall|k: int| 0 <= k < after.len() && k != at ==> after[k] == before[k]);
            assert(forall|k: int| 0 <= k < before.len() && k != at ==> before[k].0 != a);
            assert(distinct_keys(after));
            assert(pairs_map(after) =~= pairs_map(before).insert(a, b@)) by {
                assert forall|x: Address| #[trigger]
                    pairs_map(after).contains_key(x) <==> pairs_map(before).insert(
                        a,
                        b@,
                    ).contains_key(x) by {
                    if has_key(after, x) {
                        let k = key_index(after, x);
                        if k != at {
                            assert(before[k].0 == x);
                        }
                    }
                    if has_key(before, x) {
                        let k = key_index(before, x);
                        if k != at {
                            assert(after[k].0 == x);
                        }
                    }
                    if x == a {
                        assert(after[at].0 == x);
                    }
                }
                assert forall|x: Address| #[trigger]
                    pairs_map(after).contains_key(x) implies pairs_map(after)[x]
                    == pairs_map(before).insert(a, b@)[x] by {
                    let k = key_index(after, x);
                    lemma_pairs_map_entry(after, k);
                    if k != at {
                        assert(before[k].0 == x);
                        lemma_pairs_map_entry(before, k);
                    }
                }
            }
        }
        core::mem::swap(&mut entries, &mut self.entries);
    }

    /// The entries as a list, each address once, in no particular order.
    pub fn pairs(&self) -> (r: Vec<(Address, Balance)>)
        ensures
            r@ == self.entries(),
            distinct_keys(r@),
            pairs_map(r@) == self@,
    {
        proof {
            use_type_invariant(self);
        }
        let mut r: Vec<(Address, Balance)> = Vec::new();
        let mut i: usize = 0;
        while i < self.entries.len()
            invariant
                i <= self.entries.len(),
                r@ == self.entries@.subrange(0, i as int),
            decreases self.entries.len() - i,
        {
            r.push(self.entries[i]);
            assert(r@ == self.entries@.subrange(0, i + 1));
            i += 1;
        }
        assert(r@ == self.entries@);
        r
    }
}

} // verus!
