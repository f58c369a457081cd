//! Sets of port names.
use vstd::prelude::*;

use crate::text;

verus! {

/// A set of port names, which keeps its names in the order in which they were first inserted.
///
/// Its view is that sequence of names; no name occurs in it twice.
pub struct PortSet {
    names: Vec<String>,
}

impl View for PortSet {
    type V = Seq<Seq<char>>;

    closed spec fn view(&self) -> Seq<Seq<char>> {
        text::texts(self.names@)
    }
}

/// `names` with `name` at the end, unless it is there already.
pub open spec fn with_name(names: Seq<Seq<char>>, name: Seq<char>) -> Seq<Seq<char>> {
    if names.contains(name) {
        names
    } else {
        names.push(name)
    }
}

/// The names in `names` that are not in `others`, in the order of `names`.
pub open spec fn absent_from(names: Seq<Seq<char>>, others: Seq<Seq<char>>) -> Seq<Seq<char>> {
    names.filter(|name: Seq<char>| !others.contains(name))
}

impl PortSet {
    #[verifier::type_invariant]
    spec fn names_are_distinct(&self) -> bool {
        text::texts(self.names@).no_duplicates()
    }

    /// The empty set.
    pub fn new() -> (set: PortSet)
        ensures
            set@ == Seq::<Seq<char>>::empty(),
    {
        let set = PortSet { names: Vec::new() };
        assert(set@ =~= Seq::<Seq<char>>::empty());
        set
    }

    /// The names, in the order in which they were first inserted; no name occurs twice.
    pub fn names(&self) -> (names: &Vec<String>)
        ensures
            text::texts(names@) == self@,
            self@.no_duplicates(),
    {
        proof {
            use_type_invariant(self);
        }
        &self.names
    }

    /// Whether `name` is in the set.
    pub fn contains(&self, name: &String) -> (found: bool)
        ensures
            found == self@.contains(name@),
    {
        let mut i: usize = 0;
        while i < self.names.len()
            invariant
                i <= self.names.len(),
                forall|j: int| 0 <= j < i ==> #[trigger] self@[j] != name@,
            decreases self.names.len() - i,
        {
            assert(self@[i as int] == self.names@[i as int]@);
            if self.names[i] == *name {
                return true;
            }
            i = i + 1;
        }
        false
    }

    /// Puts `name` into the set; whether it was new.
    pub fn insert(&mut self, name: String) -> (new: bool)
        ensures
            final(self)@ == with_name(old(self)@, name@),
            new == !old(self)@.contains(name@),
    {
        if self.contains(&name) {
            return false;
        }
        proof {
            use_type_invariant(&*self);
        }
        let mut names: Vec<String> = Vec::new();
        std::mem::swap(&mut names, &mut self.names);
        names.push(name);
        assert(text::texts(names@) =~= old(self)@.push(name@));
        self.names = names;
        true
    }

    /// The names of this set that are not in `other`.
    pub fn difference(&self, other: &PortSet) -> (names: Vec<String>)
        ensures
            text::texts(names@) == absent_from(self@, other@),
    {
        let mut names: Vec<String> = Vec::new();
        let ghost keep = |name: Seq<char>| !other@.contains(name);
        proof {
            reveal(Seq::filter);
            assert(text::texts(names@) =~= self@.take(0).filter(keep));
        }
        let mut i: usize = 0;
        while i < self.names.len()
            invariant
                i <= self.names.len(),
                keep == (|name: Seq<char>| !other@.contains(name)),
                text::texts(names@) == self@.take(i as int).filter(keep),
            decreases self.names.len() - i,
        {
            let ghost upto = self@.take(i + 1);
            proof {
                reveal(Seq::filter);
                assert(upto.drop_last() =~= self@.take(i as int));
                assert(upto.last() == self.names@[i as int]@);
            }
            if !other.contains(&self.names[i]) {
                let name: String = self.names[i].clone();
                assert(text::texts(names@.push(name)) =~= text::texts(names@).push(name@));
                names.push(name);
            }
            i = i + 1;
        }
        assert(self@.take(self@.len() as int) =~= self@);
        names
    }
}

/// What is absent from `others` is exactly what is in `names` and not in `others`.
pub proof fn absent_from_members(names: Seq<Seq<char>>, others: Seq<Seq<char>>, name: Seq<char>)
    ensures
        absent_from(names, others).contains(name) <==> names.contains(name) && !others.contains(
            name,
        ),
{
    let keep = |n: Seq<char>| !others.contains(n);
    broadcast use Seq::lemma_filter_contains_rev;
    broadcast use Seq::lemma_filter_pred;
    broadcast use Seq::lemma_filter_contains;
    let kept = names.filter(keep);
    if kept.contains(name) {
        let i = choose|i: int| 0 <= i < kept.len() && kept[i] == name;
        assert(keep(kept[i]));
    }
    if names.contains(name) && !others.contains(name) {
        let i = choose|i: int| 0 <= i < names.len() && names[i] == name;
        assert(keep(names[i]));
        assert(kept.contains(names[i]));
    }
}

/// Each name comes out once where each went in once.
pub proof fn absent_from_is_distinct(names: Seq<Seq<char>>, others: Seq<Seq<char>>)
    requires
        names.no_duplicates(),
    ensures
        absent_from(names, others).no_duplicates(),
    decreases names.len(),
{
    reveal(Seq::filter);
    if names.len() > 0 {
        let front = names.drop_last();
        absent_from_is_distinct(front, others);
        absent_from_members(front, others, names.last());
        assert(!front.contains(names.last()));
        assert(!absent_from(front, others).contains(names.last()));
    }
}

/// A name that is put in is among the names from then on, beside those that were there, which
/// keep their places; and no name comes to be there twice.
pub proof fn with_name_adds_one(names: Seq<Seq<char>>, name: Seq<char>, other: Seq<char>)
    ensures
        with_name(names, name).contains(other) <==> names.contains(other) || other == name,
        names.len() <= with_name(names, name).len() <= names.len() + 1,
        with_name(names, name).take(names.len() as int) == names,
        names.no_duplicates() ==> with_name(names, name).no_duplicates(),
{
    let grown = names.push(name);
    assert(grown[names.len() as int] == name);
    if names.contains(other) {
        let j = choose|j: int| 0 <= j < names.len() && names[j] == other;
        assert(grown[j] == other);
    }
    assert(with_name(names, name).take(names.len() as int) =~= names);
}

} // verus!
