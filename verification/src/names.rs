//! The set of task names that a project offers.

use vstd::prelude::*;
use crate::text::{before, comes_before, same, views};
use crate::text::{before_asymmetric, before_irreflexive, before_total, before_transitive};

verus! {

/// Each string of the sequence comes before those behind it.
pub open spec fn ascending(names: Seq<Seq<char>>) -> bool {
    forall|i: int, j: int|
        0 <= i < j < names.len() ==> before(#[trigger] names[i], #[trigger] names[j])
}

/// A set of task names. They are held in ascending order, so none is held twice.
#[derive(Debug)]
pub struct TaskNames {
    names: Vec<String>,
}

impl View for TaskNames {
    type V = Set<Seq<char>>;

    closed spec fn view(&self) -> Set<Seq<char>> {
        views(self.names@).to_set()
    }
}

impl TaskNames {
    #[verifier::type_invariant]
    spec fn in_order(self) -> bool {
        ascending(views(self.names@))
    }

    /// The empty set.
    pub fn new() -> (tasks: Self)
        ensures
            tasks@ == Set::<Seq<char>>::empty(),
    {
        let tasks = TaskNames { names: Vec::new() };
        assert(tasks@ =~= Set::<Seq<char>>::empty());
        tasks
    }

    /// Whether the set is empty.
    pub fn is_empty(&self) -> (empty: bool)
        ensures
            empty == (self@ == Set::<Seq<char>>::empty()),
    {
        proof {
            if self.names@.len() == 0 {
                assert(self@ =~= Set::<Seq<char>>::empty());
            } else {
                assert(views(self.names@)[0] == self.names@[0]@);
                assert(self@.contains(self.names@[0]@));
            }
        }
        self.names.len() == 0
    }

    /// The place of `name` in the ascending order: how many names come before it.
    fn place_of(&self, name: &str) -> (at: usize)
        ensures
            at <= self.names@.len(),
            forall|i: int| 0 <= i < at ==> before((#[trigger] self.names@[i])@, name@),
            forall|i: int|
                at <= i < self.names@.len() ==> !before((#[trigger] self.names@[i])@, name@),
    {
        proof {
            use_type_invariant(self);
        }
        let mut at: usize = 0;
        while at < self.names.len() && comes_before(self.names[at].as_str(), name)
            invariant
                at <= self.names@.len(),
                forall|i: int| 0 <= i < at ==> before((#[trigger] self.names@[i])@, name@),
            decreases self.names@.len() - at,
        {
            at = at + 1;
        }
        proof {
            let all = views(self.names@);
            assert forall|i: int| at <= i < self.names@.len() implies !before(
                (#[trigger] self.names@[i])@,
                name@,
            ) by {
                if at < i && before(self.names@[i]@, name@) {
                    assert(before(all[at as int], all[i]));
                    before_transitive(all[at as int], all[i], name@);
                }
            }
        }
        at
    }

    /// Whether `name` is in the set.
    pub fn contains(&self, name: &str) -> (found: bool)
        ensures
            found == self@.contains(name@),
    {
        let ghost all = views(self.names@);
        let mut i: usize = 0;
        while i < self.names.len()
            invariant
                all == views(self.names@),
                i <= self.names@.len(),
                forall|j: int| 0 <= j < i ==> #[trigger] all[j] != name@,
            decreases self.names@.len() - i,
        {
            assert(all[i as int] == self.names@[i as int]@);
            if same(self.names[i].as_str(), name) {
                return true;
            }
            i = i + 1;
        }
        false
    }

    /// Puts `name` into the set.
    pub fn insert(&mut self, name: String)
        ensures
            final(self)@ == old(self)@.insert(name@),
    {
        proof {
            use_type_invariant(&*self);
        }
        let at: usize = self.place_of(name.as_str());
        let ghost all = views(self.names@);
        if at < self.names.len() && self.names[at] == name {
            proof {
                assert(all[at as int] == name@);
                assert(self@.insert(name@) =~= self@);
            }
            return;
        }
        let mut names: Vec<String> = Vec::new();
        std::mem::swap(&mut names, &mut self.names);
        names.insert(at, name);
        proof {
            lemma_insert(all, at as int, name@);
            assert(views(names@) =~= all.insert(at as int, name@));
        }
        self.names = names;
    }

    /// The names in ascending order.
    pub fn sorted(&self) -> (list: Vec<String>)
        ensures
            ascending(views(list@)),
            views(list@).to_set() == self@,
    {
        proof {
            use_type_invariant(self);
        }
        let mut list: Vec<String> = Vec::new();
        let mut i: usize = 0;
        while i < self.names.len()
            invariant
                i <= self.names@.len(),
                list@ == self.names@.take(i as int),
            decreases self.names@.len() - i,
        {
            list.push(self.names[i].clone());
            assert(self.names@.take(i + 1) =~= self.names@.take(i as int).push(self.names@[i as int]));
            i = i + 1;
        }
        assert(self.names@.take(i as int) =~= self.names@);
        list
    }
}

/// Putting a new string at its place keeps the order and adds that string alone.
proof fn lemma_insert(names: Seq<Seq<char>>, at: int, name: Seq<char>)
    requires
        ascending(names),
        0 <= at <= names.len(),
        forall|i: int| 0 <= i < at ==> before(#[trigger] names[i], name),
        forall|i: int| at <= i < names.len() ==> !before(#[trigger] names[i], name),
        at < names.len() ==> names[at] != name,
    ensures
        ascending(names.insert(at, name)),
        names.insert(at, name).to_set() == names.to_set().insert(name),
{
    let grown = names.insert(at, name);
    assert forall|i: int| at <= i < names.len() implies before(name, #[trigger] names[i]) by {
        if names[i] == name {
            assert(before(names[at], names[i]));
        } else {
            before_total(names[i], name);
        }
    }
    assert forall|i: int, j: int| 0 <= i < j < grown.len() implies before(
        #[trigger] grown[i],
        #[trigger] grown[j],
    ) by {
        let p = if i < at {
            i
        } else {
            i - 1
        };
        let q = if j < at {
            j
        } else {
            j - 1
        };
        if i == at {
            assert(grown[j] == names[q]);
        } else if j == at {
            assert(grown[i] == names[p]);
        } else {
            assert(grown[i] == names[p] && grown[j] == names[q]);
        }
    }
    assert forall|s: Seq<char>| #[trigger] grown.to_set().contains(s) == names.to_set().insert(
        name,
    ).contains(s) by {
        if names.contains(s) {
            let i = choose|i: int| 0 <= i < names.len() && names[i] == s;
            if i < at {
                assert(grown[i] == s);
            } else {
                assert(grown[i + 1] == s);
            }
        }
        if grown.contains(s) && s != name {
            let i = choose|i: int| 0 <= i < grown.len() && grown[i] == s;
            if i < at {
                assert(names[i] == s);
            } else {
                assert(names[i - 1] == s);
            }
        }
        assert(grown[at] == name);
    }
    assert(grown.to_set() =~= names.to_set().insert(name));
}

/// There is one way to write a set of strings down in ascending order.
pub proof fn ascending_unique(a: Seq<Seq<char>>, b: Seq<Seq<char>>)
    requires
        ascending(a),
        ascending(b),
        a.to_set() == b.to_set(),
    ensures
        a == b,
    decreases a.len(),
{
    if a.len() == 0 {
        if b.len() > 0 {
            assert(b.to_set().contains(b[0]));
            assert(a.to_set().contains(b[0]));
        }
        assert(a =~= b);
    } else {
        assert(a.to_set().contains(a.last()));
        assert(b.to_set().contains(a.last()));
        let n = b.len() - 1;
        assert(b.to_set().contains(b.last()));
        assert(a.to_set().contains(b.last()));
        if a.last() != b.last() {
            let i = choose|i: int| 0 <= i < a.len() && a[i] == b.last();
            let j = choose|j: int| 0 <= j < b.len() && b[j] == a.last();
            assert(before(a[i], a[a.len() - 1]));
            assert(before(b[j], b[n]));
            before_asymmetric(a.last(), b.last());
        }
        let p = a.drop_last();
        let q = b.drop_last();
        lemma_drop_last(a);
        lemma_drop_last(b);
        assert(p.to_set() =~= q.to_set());
        ascending_unique(p, q);
        assert(a =~= p.push(a.last()));
        assert(b =~= q.push(b.last()));
    }
}

/// Without its last string an ascending sequence lacks that string and no other.
proof fn lemma_drop_last(names: Seq<Seq<char>>)
    requires
        ascending(names),
        names.len() > 0,
    ensures
        ascending(names.drop_last()),
        names.drop_last().to_set() == names.to_set().remove(names.last()),
{
    let rest = names.drop_last();
    assert forall|s: Seq<char>| #[trigger] rest.to_set().contains(s) == names.to_set().remove(
        names.last(),
    ).contains(s) by {
        if rest.contains(s) {
            let i = choose|i: int| 0 <= i < rest.len() && rest[i] == s;
            assert(names[i] == s);
            assert(before(names[i], names[names.len() - 1]));
            before_irreflexive(s);
        }
        if names.contains(s) && s != names.last() {
            let i = choose|i: int| 0 <= i < names.len() && names[i] == s;
            assert(rest[i] == s);
        }
    }
    assert(rest.to_set() =~= names.to_set().remove(names.last()));
}

/// In an ascending sequence each name comes before those behind it, so none stands there twice.
pub proof fn ascending_is_ordered(names: Seq<Seq<char>>, i: int, j: int)
    requires
        ascending(names),
        0 <= i < j < names.len(),
    ensures
        before(names[i], names[j]),
        names[i] != names[j],
{
    before_irreflexive(names[i]);
}

} // verus!
