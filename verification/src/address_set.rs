use vstd::prelude::*;
use crate::address::Address;

verus! {

/// The addresses of a list with one more item are those of the list and the
/// item.
pub proof fn lemma_push_to_set(list: Seq<Address>, a: Address)
    ensures
        list.push(a).to_set() == list.to_set().insert(a),
{
    let more = list.push(a);
    assert forall|x: Address| more.to_set().contains(x) <==> list.to_set().insert(a).contains(
        x,
    ) by {
        if more.contains(x) {
            let k = choose|k: int| 0 <= k < more.len() && more[k] == x;
            if k < list.len() {
                assert(list[k] == x);
            }
        }
        if list.contains(x) {
            let k = choose|k: int| 0 <= k < list.len() && list[k] == x;
            assert(more[k] == x);
        }
        if x == a {
            assert(more[list.len() as int] == a);
        }
    }
    assert(more.to_set() =~= list.to_set().insert(a));
}

/// A set of addresses. The order in which they were added is not observable.
#[derive(Debug)]
pub struct AddressSet {
    items: Vec<Address>,
}

impl View for AddressSet {
    type V = Set<Address>;

    closed spec fn view(&self) -> Set<Address> {
        self.items@.to_set()
    }
}

impl Clone for AddressSet {
    fn clone(&self) -> (r: AddressSet)
        ensures
            r@ == self@,
    {
        proof {
            use_type_invariant(self);
        }
        AddressSet { items: self.to_vec() }
    }
}

impl AddressSet {
    #[verifier::type_invariant]
    spec fn no_repeats(self) -> bool {
        self.items@.no_duplicates()
    }

    /// The empty set.
    pub fn new() -> (s: AddressSet)
        ensures
            s@ == Set::<Address>::empty(),
    {
        let s = AddressSet { items: Vec::new() };
        assert(s.items@.to_set() =~= Set::<Address>::empty());
        s
    }

    /// The number of addresses in the set.
    pub fn len(&self) -> (n: usize)
        ensures
            self@.finite(),
            n == self@.len(),
    {
        proof {
            use_type_invariant(self);
            self.items@.unique_seq_to_set();
        }
        self.items.len()
    }

    /// Whether the set is empty.
    pub fn is_empty(&self) -> (r: bool)
        ensures
            r == (self@ == Set::<Address>::empty()),
    {
        proof {
            if self.items@.len() == 0 {
                assert(self.items@.to_set() =~= Set::<Address>::empty());
            } else {
                assert(self.items@.to_set().contains(self.items@[0]));
            }
        }
        self.items.len() == 0
    }

    /// Whether `a` is in the set.
    pub fn contains(&self, a: &Address) -> (r: bool)
        ensures
            r == self@.contains(*a),
    {
        let mut i: usize = 0;
        while i < self.items.len()
            invariant
                i <= self.items.len(),
                forall|k: int| 0 <= k < i ==> self.items@[k] != *a,
            decreases self.items.len() - i,
        {
            if self.items[i] == *a {
                return true;
            }
            i += 1;
        }
        false
    }

    /// Adds `a`; says whether it was new.
    pub fn insert(&mut self, a: Address) -> (fresh: bool)
        ensures
            final(self)@ == old(self)@.insert(a),
            fresh == !old(self)@.contains(a),
    {
        proof {
            use_type_invariant(&*self);
        }
        if self.contains(&a) {
            assert(self@.insert(a) =~= self@);
            false
        } else {
            let mut items: Vec<Address> = Vec::new();
            core::mem::swap(&mut items, &mut self.items);
            items.push(a);
            core::mem::swap(&mut items, &mut self.items);
            proof {
                lemma_push_to_set(old(self).items@, a);
            }
            true
        }
    }

    /// Adds every address of `other`: afterwards the set is the union.
    pub fn extend(&mut self, other: &AddressSet)
        ensures
            final(self)@ == old(self)@.union(other@),
    {
        let mut i: usize = 0;
        while i < other.items.len()
            invariant
                i <= other.items.len(),
                self@ == old(self)@.union(other.items@.subrange(0, i as int).to_set()),
            decreases other.items.len() - i,
        {
            let a = other.items[i];
            self.insert(a);
            proof {
                let before = other.items@.subrange(0, i as int);
                assert(other.items@.subrange(0, i + 1) == before.push(a));
                lemma_push_to_set(before, a);
            }
            i += 1;
        }
        assert(other.items@.subrange(0, i as int) == other.items@);
    }

    /// The addresses as a list, each once, in no particular order.
    pub fn to_vec(&self) -> (r: Vec<Address>)
        ensures
            r@.no_duplicates(),
            r@.to_set() == self@,
    {
        proof {
            use_type_invariant(self);
        }
        let mut r: Vec<Address> = Vec::new();
        let mut i: usize = 0;
        while i < self.items.len()
            invariant
                i <= self.items@.len(),
                r@ == self.items@.subrange(0, i as int),
            decreases self.items@.len() - i,
        {
            r.push(self.items[i]);
            assert(r@ == self.items@.subrange(0, i + 1));
            i += 1;
        }
        assert(r@ == self.items@);
        r
    }

    /// The set of the addresses of a list.
    pub fn from_vec(addresses: &Vec<Address>) -> (s: AddressSet)
        ensures
            s@ == addresses@.to_set(),
    {
        let mut s = AddressSet::new();
        let mut i: usize = 0;
        assert(addresses@.subrange(0, 0).to_set() =~= Set::<Address>::empty());
        while i < addresses.len()
            invariant
                i <= addresses@.len(),
                s@ == addresses@.subrange(0, i as int).to_set(),
            decreases addresses@.len() - i,
        {
            let a = addresses[i];
            s.insert(a);
            proof {
                let before = addresses@.subrange(0, i as int);
                assert(addresses@.subrange(0, i + 1) == before.push(a));
                lemma_push_to_set(before, a);
            }
            i += 1;
        }
        assert(addresses@.subrange(0, i as int) == addresses@);
        s
    }
}

} // verus!
