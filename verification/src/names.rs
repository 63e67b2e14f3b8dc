//! Sets of names: module names, import names and package names.

use crate::text::views_of;
use vstd::prelude::*;
use vstd::string::*;

verus! {

/// The names that stand in at least one of `sets`.
pub open spec fn union_of(sets: Seq<Set<Seq<char>>>) -> Set<Seq<char>> {
    Set::new(
        |name: Seq<char>| exists|i: int| 0 <= i < sets.len() && #[trigger] sets[i].contains(name),
    )
}

/// The union of no sets is empty.
pub proof fn lemma_union_of_none()
    ensures
        union_of(Seq::empty()) == Set::<Seq<char>>::empty(),
{
}

/// One more set adds its names to the union.
pub proof fn lemma_union_of_push(sets: Seq<Set<Seq<char>>>, more: Set<Seq<char>>)
    ensures
        union_of(sets.push(more)) == union_of(sets).union(more),
{
    let all = sets.push(more);
    assert forall|name: Seq<char>| union_of(all).contains(name) implies union_of(sets).union(
        more,
    ).contains(name) by {
        let i = choose|i: int| 0 <= i < all.len() && #[trigger] all[i].contains(name);
        if i < sets.len() {
        }
    }
    assert forall|name: Seq<char>| union_of(sets).union(more).contains(name) implies union_of(
        all,
    ).contains(name) by {
        if union_of(sets).contains(name) {
            let i = choose|i: int| 0 <= i < sets.len() && #[trigger] sets[i].contains(name);
            assert(all[i].contains(name));
        } else {
            assert(all[sets.len() as int].contains(name));
        }
    }
}

/// A set without names can be left out of the union.
pub proof fn lemma_union_of_remove(sets: Seq<Set<Seq<char>>>, i: int)
    requires
        0 <= i < sets.len(),
        sets[i] == Set::<Seq<char>>::empty(),
    ensures
        union_of(sets.remove(i)) == union_of(sets),
{
    let fewer = sets.remove(i);
    assert forall|name: Seq<char>| union_of(fewer).contains(name) implies union_of(sets).contains(
        name,
    ) by {
        let k = choose|k: int| 0 <= k < fewer.len() && #[trigger] fewer[k].contains(name);
        if k < i {
            assert(sets[k].contains(name));
        } else {
            assert(sets[k + 1].contains(name));
        }
    }
    assert forall|name: Seq<char>| union_of(sets).contains(name) implies union_of(fewer).contains(
        name,
    ) by {
        let k = choose|k: int| 0 <= k < sets.len() && #[trigger] sets[k].contains(name);
        if k < i {
            assert(fewer[k].contains(name));
        } else {
            assert(fewer[k - 1].contains(name));
        }
    }
}

/// The union depends on which sets are taken, not on their order nor on how
/// often one is taken.
pub proof fn lemma_union_of_same_sets(first: Seq<Set<Seq<char>>>, second: Seq<Set<Seq<char>>>)
    requires
        forall|set: Set<Seq<char>>| first.contains(set) <==> second.contains(set),
    ensures
        union_of(first) == union_of(second),
{
    assert forall|name: Seq<char>| union_of(first).contains(name) implies union_of(second).contains(
        name,
    ) by {
        let i = choose|i: int| 0 <= i < first.len() && #[trigger] first[i].contains(name);
        assert(first.contains(first[i]));
        let j = choose|j: int| 0 <= j < second.len() && second[j] == first[i];
        assert(second[j].contains(name));
    }
    assert forall|name: Seq<char>| union_of(second).contains(name) implies union_of(first).contains(
        name,
    ) by {
        let i = choose|i: int| 0 <= i < second.len() && #[trigger] second[i].contains(name);
        assert(second.contains(second[i]));
        let j = choose|j: int| 0 <= j < first.len() && first[j] == second[i];
        assert(first[j].contains(name));
    }
}

/// The names of a sequence with one more name are those of the sequence, and
/// that name.
pub proof fn lemma_to_set_push(names: Seq<Seq<char>>, name: Seq<char>)
    ensures
        names.push(name).to_set() == names.to_set().insert(name),
{
    let longer = names.push(name);
    assert forall|n: Seq<char>|
        names.to_set().insert(name).contains(n) implies longer.to_set().contains(n) by {
        if n == name {
            assert(longer[names.len() as int] == n);
        } else {
            let k = choose|k: int| 0 <= k < names.len() && names[k] == n;
            assert(longer[k] == n);
        }
    }
}

/// A finite set of names. It keeps each name once, in the order in which the
/// names first came in.
#[derive(Debug)]
pub struct NameSet {
    names: Vec<String>,
}

impl View for NameSet {
    type V = Set<Seq<char>>;

    closed spec fn view(&self) -> Set<Seq<char>> {
        views_of(self.names@).to_set()
    }
}

impl NameSet {
    #[verifier::type_invariant]
    spec fn distinct(&self) -> bool {
        views_of(self.names@).no_duplicates()
    }

    /// The empty set.
    pub fn new() -> (s: Self)
        ensures
            s@ == Set::<Seq<char>>::empty(),
    {
        NameSet { names: Vec::new() }
    }

    /// The number of names in the set.
    pub fn len(&self) -> (n: usize)
        ensures
            self@.finite(),
            n == self@.len(),
    {
        proof {
            use_type_invariant(self);
            views_of(self.names@).unique_seq_to_set();
        }
        self.names.len()
    }

    /// Whether the set holds no name.
    pub fn is_empty(&self) -> (r: bool)
        ensures
            r == (self@ == Set::<Seq<char>>::empty()),
    {
        proof {
            use_type_invariant(self);
            views_of(self.names@).unique_seq_to_set();
            if self.names@.len() > 0 {
                assert(views_of(self.names@)[0] == self.names@[0]@);
            } else {
                assert(self@ =~= Set::<Seq<char>>::empty());
            }
        }
        self.names.len() == 0
    }

    /// Whether `name` is in the set.
    pub fn contains(&self, name: &str) -> (r: bool)
        ensures
            r == self@.contains(name@),
    {
        let wanted = name.to_owned();
        let mut i: usize = 0;
        while i < self.names.len()
            invariant
                i <= self.names.len(),
                wanted@ == name@,
                forall|k: int| 0 <= k < i ==> self.names@[k]@ != name@,
            decreases self.names.len() - i,
        {
            if self.names[i] == wanted {
                assert(views_of(self.names@)[i as int] == name@);
                return true;
            }
            i += 1;
        }
        assert forall|k: int| 0 <= k < views_of(self.names@).len() implies views_of(
            self.names@,
        )[k] != name@ by {}
        false
    }

    /// Puts `name` into the set. Returns whether it was new to the set.
    pub fn insert(&mut self, name: String) -> (fresh: bool)
        ensures
            final(self)@ == old(self)@.insert(name@),
            fresh == !old(self)@.contains(name@),
    {
        if self.contains(name.as_str()) {
            return false;
        }
        proof {
            use_type_invariant(&*self);
        }
        let ghost before = views_of(self.names@);
        let mut names: Vec<String> = Vec::new();
        core::mem::swap(&mut names, &mut self.names);
        names.push(name);
        assert(views_of(names@) =~= before.push(name@));
        core::mem::swap(&mut names, &mut self.names);
        proof {
            lemma_to_set_push(before, name@);
        }
        true
    }

    /// Puts every name of `other` into the set.
    pub fn extend(&mut self, other: &NameSet)
        ensures
            final(self)@ == old(self)@.union(other@),
    {
        let more = other.names();
        let ghost added = views_of(more@);
        let mut i: usize = 0;
        while i < more.len()
            invariant
                i <= more.len(),
                added == views_of(more@),
                self@ == old(self)@.union(added.take(i as int).to_set()),
            decreases more.len() - i,
        {
            self.insert(more[i].clone());
            proof {
                assert(added.take(i + 1) == added.take(i as int).push(more@[i as int]@));
                lemma_to_set_push(added.take(i as int), more@[i as int]@);
            }
            i += 1;
        }
        assert(added.take(more.len() as int) == added);
    }

    /// The names of the set, each once.
    pub fn names(&self) -> (v: &Vec<String>)
        ensures
            views_of(v@).no_duplicates(),
            views_of(v@).to_set() == self@,
            self@.finite(),
    {
        proof {
            use_type_invariant(self);
            vstd::seq_lib::seq_to_set_is_finite(views_of(self.names@));
        }
        &self.names
    }
}

} // verus!
