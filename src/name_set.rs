//! An ordered set of names, kept as a strictly sorted vector.
use vstd::prelude::*;
use crate::order::{
    seq_less, strictly_sorted, str_less, lemma_less_total, lemma_less_transitive,
    lemma_less_irreflexive, lemma_sorted_unique,
};

verus! {

/// The views of a sequence of strings.
pub open spec fn views_of(v: Seq<String>) -> Seq<Seq<char>> {
    v.map_values(|s: String| s@)
}

/// The names of `s` in ascending order, each once.
pub open spec fn sorted_listing(s: Set<Seq<char>>) -> Seq<Seq<char>> {
    choose|l: Seq<Seq<char>>| strictly_sorted(l) && l.to_set() == s
}

/// A set of names that hands its members out in ascending order.
pub struct NameSet {
    names: Vec<String>,
}

impl NameSet {
    /// The members, in the order in which they are stored.
    pub closed spec fn listing(&self) -> Seq<Seq<char>> {
        views_of(self.names@)
    }

    pub open spec fn view(&self) -> Set<Seq<char>> {
        self.listing().to_set()
    }

    pub open spec fn wf(&self) -> bool {
        strictly_sorted(self.listing())
    }

    /// A well-formed set stores its members in ascending order.
    pub proof fn lemma_listing_sorted(&self)
        requires
            self.wf(),
        ensures
            self.listing() == sorted_listing(self@),
    {
        let l = sorted_listing(self@);
        assert(strictly_sorted(self.listing()) && self.listing().to_set() == self@);
        lemma_sorted_unique(self.listing(), l);
    }

    pub fn new() -> (r: NameSet)
        ensures
            r.wf(),
            r@ == Set::<Seq<char>>::empty(),
    {
        let r = NameSet { names: Vec::new() };
        assert(r@ =~= Set::<Seq<char>>::empty());
        r
    }

    pub fn len(&self) -> (r: usize)
        ensures
            r == self.listing().len(),
    {
        self.names.len()
    }

    pub fn contains(&self, name: &String) -> (r: bool)
        ensures
            r == self@.contains(name@),
    {
        let mut i: usize = 0;
        while i < self.names.len()
            invariant
                i <= self.names@.len(),
                forall|j: int| 0 <= j < i ==> self.listing()[j] != name@,
            decreases self.names.len() - i,
        {
            if self.names[i] == *name {
                assert(self.listing()[i as int] == self.names@[i as int]@);
                assert(self.listing().to_set().contains(name@));
                return true;
            }
            assert(self.listing()[i as int] == self.names@[i as int]@);
            i += 1;
        }
        proof {
            if self@.contains(name@) {
                let j = choose|j: int| 0 <= j < self.listing().len() && self.listing()[j] == name@;
            }
        }
        false
    }

    /// Adds `name`; a name already present leaves the set as it was.
    pub fn insert(&mut self, name: String)
        requires
            old(self).wf(),
        ensures
            final(self).wf(),
            final(self)@ == old(self)@.insert(name@),
    {
        let ghost before = self.listing();
        let mut p: usize = 0;
        while p < self.names.len() && str_less(self.names[p].as_str(), name.as_str())
            invariant
                p <= self.names@.len(),
                self.listing() == before,
                forall|j: int| 0 <= j < p ==> seq_less(#[trigger] before[j], name@),
            decreases self.names.len() - p,
        {
            p += 1;
        }
        if p < self.names.len() && self.names[p] == name {
            assert(before[p as int] == self.names@[p as int]@);
            assert(before.to_set().contains(name@));
            assert(before.to_set().insert(name@) =~= before.to_set());
            return;
        }
        proof {
            if p < before.len() {
                lemma_less_total(before[p as int], name@);
                assert forall|j: int| p <= j < before.len() implies seq_less(
                    name@,
                    #[trigger] before[j],
                ) by {
                    if j > p {
                        lemma_less_transitive(name@, before[p as int], before[j]);
                    }
                }
            }
        }
        let ghost n = name@;
        self.names.insert(p, name);
        proof {
            let after = self.listing();
            assert(after =~= before.insert(p as int, n));
            assert forall|i: int, j: int| 0 <= i < j < after.len() implies seq_less(
                #[trigger] after[i],
                #[trigger] after[j],
            ) by {
                if j < p {
                } else if i < p && j == p {
                } else if i < p {
                    assert(after[j] == before[j - 1]);
                    if j - 1 == i {
                    } else {
                        assert(seq_less(before[i], before[j - 1]));
                    }
                } else if i == p {
                    assert(after[j] == before[j - 1]);
                } else {
                    assert(after[i] == before[i - 1]);
                    assert(after[j] == before[j - 1]);
                }
            }
            assert forall|x: Seq<char>| after.to_set().contains(x) <==> before.to_set().insert(
                n,
            ).contains(x) by {
                if after.to_set().contains(x) {
                    let i = choose|i: int| 0 <= i < after.len() && after[i] == x;
                    if i < p {
                        assert(before[i] == x);
                    } else if i > p {
                        assert(before[i - 1] == x);
                    }
                }
                if before.to_set().contains(x) {
                    let i = choose|i: int| 0 <= i < before.len() && before[i] == x;
                    if i < p {
                        assert(after[i] == x);
                    } else {
                        assert(after[i + 1] == x);
                    }
                }
                if x == n {
                    assert(after[p as int] == x);
                }
            }
            assert(after.to_set() =~= before.to_set().insert(n));
        }
    }

    /// The members in ascending order.
    pub fn names(&self) -> (r: Vec<String>)
        requires
            self.wf(),
        ensures
            views_of(r@) == sorted_listing(self@),
    {
        proof {
            self.lemma_listing_sorted();
        }
        let mut r: Vec<String> = Vec::new();
        let mut i: usize = 0;
        while i < self.names.len()
            invariant
                i <= self.names@.len(),
                r@.len() == i,
                views_of(r@) == self.listing().take(i as int),
            decreases self.names.len() - i,
        {
            r.push(self.names[i].clone());
            assert(r@[i as int] == self.names@[i as int]);
            assert(views_of(r@) =~= self.listing().take(i + 1));
            i += 1;
        }
        assert(self.listing().take(i as int) =~= self.listing());
        r
    }
}

} // verus!
