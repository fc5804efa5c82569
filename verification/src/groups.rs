//! Named groups of configurations, and the error type of the
//! validation pass. A group map associates each group name with the
//! list of configurations it stands for; names are unique.

use vstd::prelude::*;

use crate::clone_util::DeepClone;

verus! {

/// A fatal configuration error, with a descriptive message.
#[derive(Debug)]
pub struct ConfigError {
    pub message: String,
}

impl ConfigError {
    /// An error carrying the given message.
    pub fn new(message: &str) -> (r: ConfigError) {
        ConfigError { message: message.to_owned() }
    }
}

/// A mapping from group names to the configurations they stand for,
/// with unique names.
#[derive(Debug)]
pub struct GroupMap<T> {
    entries: Vec<(String, Vec<T>)>,
}

/// The mathematical map an entry list stands for.
spec fn entries_as_map<T: DeepView>(s: Seq<(String, Vec<T>)>) -> Map<
    Seq<char>,
    Seq<T::V>,
>
    decreases s.len(),
{
    if s.len() == 0 {
        Map::empty()
    } else {
        entries_as_map(s.drop_last()).insert(s.last().0@, s.last().1.deep_view())
    }
}

/// Membership in the folded map is membership among the entries.
proof fn lemma_entries_as_map_contains<T: DeepView>(s: Seq<(String, Vec<T>)>, k: Seq<char>)
    ensures
        entries_as_map(s).contains_key(k) <==> exists|i: int| 0 <= i < s.len() && s[i].0@ == k,
    decreases s.len(),
{
    if s.len() > 0 {
        lemma_entries_as_map_contains(s.drop_last(), k);
        if entries_as_map(s).contains_key(k) {
            if s.last().0@ != k {
                let i = choose|i: int| 0 <= i < s.drop_last().len() && s.drop_last()[i].0@ == k;
                assert(s[i].0@ == k);
            } else {
                assert(s[s.len() - 1].0@ == k);
            }
        }
        if exists|i: int| 0 <= i < s.len() && s[i].0@ == k {
            let i = choose|i: int| 0 <= i < s.len() && s[i].0@ == k;
            if i < s.len() - 1 {
                assert(s.drop_last()[i].0@ == k);
            }
        }
    }
}

/// With unique names, the folded map sends a name to its entry's items.
proof fn lemma_entries_as_map_at<T: DeepView>(s: Seq<(String, Vec<T>)>, i: int)
    requires
        0 <= i < s.len(),
        forall|j: int, l: int| 0 <= j < l < s.len() ==> s[j].0@ != s[l].0@,
    ensures
        entries_as_map(s).contains_key(s[i].0@),
        entries_as_map(s)[s[i].0@] == s[i].1.deep_view(),
    decreases s.len(),
{
    lemma_entries_as_map_contains(s, s[i].0@);
    if i < s.len() - 1 {
        assert(s.drop_last()[i] == s[i]);
        lemma_entries_as_map_at(s.drop_last(), i);
        assert(s.last().0@ != s[i].0@);
    }
}

impl<T: DeepView> GroupMap<T> {
    /// Names are unique.
    pub closed spec fn wf(&self) -> bool {
        forall|j: int, l: int|
            0 <= j < l < self.entries@.len() ==> self.entries@[j].0@ != self.entries@[l].0@
    }

    /// The mathematical map this value stands for.
    pub closed spec fn as_map(&self) -> Map<Seq<char>, Seq<T::V>> {
        entries_as_map(self.entries@)
    }

    /// An empty group map.
    pub fn new() -> (r: GroupMap<T>)
        ensures
            r.wf(),
            r.as_map() == Map::<Seq<char>, Seq<T::V>>::empty(),
    {
        GroupMap { entries: Vec::new() }
    }

    /// Registers a group. Fails, changing nothing, when the name is
    /// already taken.
    pub fn insert(&mut self, name: String, items: Vec<T>) -> (r: bool)
        requires
            old(self).wf(),
        ensures
            final(self).wf(),
            r == !old(self).as_map().contains_key(name@),
            r ==> final(self).as_map() == old(self).as_map().insert(name@, items.deep_view()),
            !r ==> *final(self) == *old(self),
    {
        proof {
            lemma_entries_as_map_contains(self.entries@, name@);
        }
        let mut i: usize = 0;
        while i < self.entries.len()
            invariant
                *self == *old(self),
                old(self).wf(),
                i <= self.entries@.len(),
                forall|j: int| 0 <= j < i ==> self.entries@[j].0@ != name@,
            decreases self.entries@.len() - i,
        {
            if self.entries[i].0 == name {
                proof {
                    lemma_entries_as_map_contains(self.entries@, name@);
                    assert(self.entries@[i as int].0@ == name@);
                }
                return false;
            }
            i = i + 1;
        }
        self.entries.push((name, items));
        proof {
            assert(self.entries@.drop_last() =~= old(self).entries@);
        }
        true
    }

    /// Looks a group up by name.
    pub fn get(&self, name: &String) -> (r: Option<&Vec<T>>)
        requires
            self.wf(),
        ensures
            (r is Some) == self.as_map().contains_key(name@),
            r is Some ==> r->0.deep_view() == self.as_map()[name@],
    {
        proof {
            lemma_entries_as_map_contains(self.entries@, name@);
        }
        let mut i: usize = 0;
        while i < self.entries.len()
            invariant
                self.wf(),
                i <= self.entries@.len(),
                forall|j: int| 0 <= j < i ==> self.entries@[j].0@ != name@,
            decreases self.entries@.len() - i,
        {
            if self.entries[i].0 == *name {
                proof {
                    lemma_entries_as_map_at(self.entries@, i as int);
                    assert(self.entries@[i as int].0@ == name@);
                }
                return Option::Some(&self.entries[i].1);
            }
            i = i + 1;
        }
        proof {
            lemma_entries_as_map_contains(self.entries@, name@);
        }
        Option::None
    }
}

} // verus!
