//! A set of domain names, kept as a vector without repetitions.

use vstd::prelude::*;

verus! {

/// The views of a sequence of strings.
pub open spec fn string_views(v: Seq<String>) -> Seq<Seq<char>> {
    v.map_values(|s: String| s@)
}

/// A finite set of domain names. Each name occurs at most once, and the
/// names keep the order in which they were first inserted.
pub struct DomainSet {
    items: Vec<String>,
}

impl View for DomainSet {
    type V = Set<Seq<char>>;

    closed spec fn view(&self) -> Set<Seq<char>> {
        string_views(self.items@).to_set()
    }
}

impl DomainSet {
    #[verifier::type_invariant]
    closed spec fn inv(self) -> bool {
        string_views(self.items@).no_duplicates()
    }

    /// The names in order of first insertion.
    pub closed spec fn entries(&self) -> Seq<Seq<char>> {
        string_views(self.items@)
    }

    /// An empty set.
    pub fn new() -> (s: Self)
        ensures
            s@ == Set::<Seq<char>>::empty(),
            s.entries() == Seq::<Seq<char>>::empty(),
    {
        let s = DomainSet { items: Vec::new() };
        assert(s.entries() =~= Seq::<Seq<char>>::empty());
        assert(s@ =~= Set::<Seq<char>>::empty());
        s
    }

    /// Whether `domain` is in the set.
    pub fn contains(&self, domain: &String) -> (found: bool)
        ensures
            found == self@.contains(domain@),
    {
        let mut i: usize = 0;
        while i < self.items.len()
            invariant
                0 <= i <= self.items@.len(),
                forall|j: int| 0 <= j < i ==> self.items@[j]@ != domain@,
            decreases self.items@.len() - i,
        {
            if self.items[i] == *domain {
                proof {
                    assert(string_views(self.items@)[i as int] == domain@);
                }
                return true;
            }
            i = i + 1;
        }
        proof {
            if string_views(self.items@).contains(domain@) {
                let k = choose|k: int| 0 <= k < string_views(self.items@).len() && string_views(self.items@)[k] == domain@;
                assert(self.items@[k]@ == domain@);
            }
        }
        false
    }

    /// Adds `domain`; returns whether it was not in the set before.
    pub fn insert(&mut self, domain: String) -> (added: bool)
        ensures
            final(self)@ == old(self)@.insert(domain@),
            added == !old(self)@.contains(domain@),
            added ==> final(self).entries() == old(self).entries().push(domain@),
            !added ==> final(self).entries() == old(self).entries(),
    {
        if self.contains(&domain) {
            return false;
        }
        proof {
            use_type_invariant(&*self);
        }
        let ghost old_items = self.items@;
        let ghost d = domain@;
        let mut items: Vec<String> = Vec::new();
        std::mem::swap(&mut items, &mut self.items);
        items.push(domain);
        proof {
            assert(string_views(items@) =~= string_views(old_items).push(d));
            assert(!string_views(old_items).contains(d));
            assert forall|a: int, b: int| 0 <= a < b < string_views(items@).len() implies
                string_views(items@)[a] != string_views(items@)[b] by {
                if b == string_views(old_items).len() {
                    assert(string_views(old_items)[a] == string_views(items@)[a]);
                }
            }
        }
        self.items = items;
        proof {
            assert(string_views(self.items@) =~= string_views(old_items).push(d));
            assert(!string_views(old_items).contains(d));
            assert(string_views(self.items@).to_set() =~= string_views(old_items).to_set().insert(d)) by {
                assert forall|x: Seq<char>| string_views(self.items@).to_set().contains(x) <==> string_views(old_items).to_set().insert(d).contains(x) by {
                    if string_views(old_items).contains(x) {
                        let k = choose|k: int| 0 <= k < string_views(old_items).len() && string_views(old_items)[k] == x;
                        assert(string_views(self.items@)[k] == x);
                    }
                    if string_views(self.items@).contains(x) {
                        let k = choose|k: int| 0 <= k < string_views(self.items@).len() && string_views(self.items@)[k] == x;
                        if k < string_views(old_items).len() {
                            assert(string_views(old_items)[k] == x);
                        }
                    }
                    assert(string_views(self.items@)[string_views(old_items).len() as int] == d);
                }
            }
        }
        true
    }

    /// The number of names in the set.
    pub fn len(&self) -> (n: usize)
        ensures
            n == self@.len(),
    {
        proof {
            use_type_invariant(self);
            self.entries().unique_seq_to_set();
        }
        self.items.len()
    }

    /// The names in order of first insertion.
    pub fn to_vec(&self) -> (v: Vec<String>)
        ensures
            string_views(v@) == self.entries(),
            string_views(v@).to_set() == self@,
            string_views(v@).no_duplicates(),
    {
        proof {
            use_type_invariant(self);
        }
        self.items.clone()
    }
}

} // verus!
