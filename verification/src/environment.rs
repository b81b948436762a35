//! The variables of an interpreter: a mapping from names to values.

use vstd::prelude::*;
use crate::text::str_eq;
use crate::variant::{FyfthValue, FyfthVariant};

verus! {

/// A mapping from names to values. A name is bound at most once; binding it
/// again replaces its value. Nothing is ever removed.
#[derive(Debug)]
pub struct FyfthEnvironment {
    entries: Vec<(String, FyfthVariant)>,
}

/// The value of the first entry that is named `name`.
pub open spec fn lookup(entries: Seq<(String, FyfthVariant)>, name: Seq<char>) -> Option<
    FyfthValue,
>
    decreases entries.len(),
{
    if entries.len() == 0 {
        None
    } else if entries[0].0@ == name {
        Some(entries[0].1@)
    } else {
        lookup(entries.drop_first(), name)
    }
}

proof fn lemma_lookup_none(entries: Seq<(String, FyfthVariant)>, name: Seq<char>)
    requires
        forall|i: int| 0 <= i < entries.len() ==> (#[trigger] entries[i]).0@ != name,
    ensures
        lookup(entries, name) is None,
    decreases entries.len(),
{
    if entries.len() > 0 {
        lemma_lookup_none(entries.drop_first(), name);
    }
}

proof fn lemma_lookup_first(entries: Seq<(String, FyfthVariant)>, name: Seq<char>, at: int)
    requires
        0 <= at < entries.len(),
        entries[at].0@ == name,
        forall|i: int| 0 <= i < at ==> (#[trigger] entries[i]).0@ != name,
    ensures
        lookup(entries, name) == Some(entries[at].1@),
    decreases entries.len(),
{
    if at > 0 {
        lemma_lookup_first(entries.drop_first(), name, at - 1);
    }
}

proof fn lemma_lookup_push(
    entries: Seq<(String, FyfthVariant)>,
    added: (String, FyfthVariant),
    name: Seq<char>,
)
    ensures
        lookup(entries.push(added), name) == if lookup(entries, name) is Some {
            lookup(entries, name)
        } else if added.0@ == name {
            Some(added.1@)
        } else {
            None
        },
    decreases entries.len(),
{
    if entries.len() > 0 {
        assert(entries.push(added).drop_first() =~= entries.drop_first().push(added));
        lemma_lookup_push(entries.drop_first(), added, name);
    } else {
        assert(entries.push(added).drop_first() =~= entries);
    }
}

proof fn lemma_lookup_update(
    entries: Seq<(String, FyfthVariant)>,
    at: int,
    changed: (String, FyfthVariant),
    name: Seq<char>,
)
    requires
        0 <= at < entries.len(),
        entries[at].0@ == changed.0@,
        forall|i: int| 0 <= i < at ==> (#[trigger] entries[i]).0@ != changed.0@,
    ensures
        lookup(entries.update(at, changed), name) == if name == changed.0@ {
            Some(changed.1@)
        } else {
            lookup(entries, name)
        },
    decreases entries.len(),
{
    if at > 0 {
        assert(entries.update(at, changed).drop_first() =~= entries.drop_first().update(
            at - 1,
            changed,
        ));
        lemma_lookup_update(entries.drop_first(), at - 1, changed, name);
    } else {
        assert(entries.update(at, changed).drop_first() =~= entries.drop_first());
    }
}

impl View for FyfthEnvironment {
    type V = Map<Seq<char>, FyfthValue>;

    closed spec fn view(&self) -> Map<Seq<char>, FyfthValue> {
        Map::new(
            |name: Seq<char>| lookup(self.entries@, name) is Some,
            |name: Seq<char>| lookup(self.entries@, name)->0,
        )
    }
}

impl FyfthEnvironment {
    /// The bindings in the order in which their names were first bound.
    pub closed spec fn bindings(&self) -> Seq<(Seq<char>, FyfthValue)> {
        Seq::new(self.entries@.len(), |i: int| (self.entries@[i].0@, self.entries@[i].1@))
    }

    /// An environment that binds no name.
    pub fn new() -> (vars: FyfthEnvironment)
        ensures
            vars@ == Map::<Seq<char>, FyfthValue>::empty(),
            vars.bindings().len() == 0,
    {
        let vars = FyfthEnvironment { entries: Vec::new() };
        assert(vars@ =~= Map::<Seq<char>, FyfthValue>::empty());
        vars
    }

    fn position(&self, name: &str) -> (found: Option<usize>)
        ensures
            match found {
                Some(at) => at < self.entries.len() && self.entries@[at as int].0@ == name@
                    && forall|i: int| 0 <= i < at ==> (#[trigger] self.entries@[i]).0@ != name@,
                None => forall|i: int|
                    0 <= i < self.entries.len() ==> (#[trigger] self.entries@[i]).0@ != name@,
            },
    {
        let mut at: usize = 0;
        while at < self.entries.len()
            invariant
                at <= self.entries.len(),
                forall|i: int| 0 <= i < at ==> (#[trigger] self.entries@[i]).0@ != name@,
            decreases self.entries.len() - at,
        {
            if str_eq(self.entries[at].0.as_str(), name) {
                return Some(at);
            }
            at += 1;
        }
        None
    }

    /// The value bound to `name`, if any.
    pub fn get(&self, name: &str) -> (found: Option<&FyfthVariant>)
        ensures
            match found {
                Some(value) => self@.contains_key(name@) && value@ == self@[name@],
                None => !self@.contains_key(name@),
            },
    {
        match self.position(name) {
            Some(at) => {
                proof {
                    lemma_lookup_first(self.entries@, name@, at as int);
                }
                Some(&self.entries[at].1)
            },
            None => {
                proof {
                    lemma_lookup_none(self.entries@, name@);
                }
                None
            },
        }
    }

    /// Binds `name` to `value`, in place of what it was bound to before.
    pub fn insert(&mut self, name: String, value: FyfthVariant)
        ensures
            final(self)@ == old(self)@.insert(name@, value@),
    {
        let ghost before = self.entries@;
        let ghost entry = (name, value);
        match self.position(name.as_str()) {
            Some(at) => {
                self.entries[at] = (name, value);
                proof {
                    assert(self.entries@ == before.update(at as int, entry));
                    assert forall|key: Seq<char>|
                        lookup(self.entries@, key) == (if key == entry.0@ {
                            Some(entry.1@)
                        } else {
                            lookup(before, key)
                        }) by {
                        lemma_lookup_update(before, at as int, entry, key);
                    }
                }
            },
            None => {
                self.entries.push((name, value));
                proof {
                    lemma_lookup_none(before, entry.0@);
                    assert forall|key: Seq<char>|
                        lookup(self.entries@, key) == (if key == entry.0@ {
                            Some(entry.1@)
                        } else {
                            lookup(before, key)
                        }) by {
                        lemma_lookup_push(before, entry, key);
                    }
                }
            },
        }
        assert(final(self)@ =~= old(self)@.insert(entry.0@, entry.1@));
    }

    /// The number of bindings.
    pub fn len(&self) -> (count: usize)
        ensures
            count == self.bindings().len(),
    {
        self.entries.len()
    }

    /// The name of the binding at `at`.
    pub fn name_at(&self, at: usize) -> (name: &str)
        requires
            at < self.bindings().len(),
        ensures
            name@ == self.bindings()[at as int].0,
    {
        self.entries[at].0.as_str()
    }

    /// The value of the binding at `at`.
    pub fn value_at(&self, at: usize) -> (value: &FyfthVariant)
        requires
            at < self.bindings().len(),
        ensures
            value@ == self.bindings()[at as int].1,
    {
        &self.entries[at].1
    }
}

impl Clone for FyfthEnvironment {
    /// A deep copy: it binds the same names to the same values.
    fn clone(&self) -> (copy: FyfthEnvironment)
        ensures
            copy@ == self@,
            copy.bindings() == self.bindings(),
    {
        let mut entries: Vec<(String, FyfthVariant)> = Vec::new();
        let mut at: usize = 0;
        while at < self.entries.len()
            invariant
                at <= self.entries.len(),
                entries.len() == at,
                forall|i: int|
                    0 <= i < at ==> entries@[i].0@ == self.entries@[i].0@ && entries@[i].1@
                        == self.entries@[i].1@,
            decreases self.entries.len() - at,
        {
            entries.push((self.entries[at].0.clone(), self.entries[at].1.clone()));
            at += 1;
        }
        let copy = FyfthEnvironment { entries };
        proof {
            assert(copy.bindings() =~= self.bindings());
            assert forall|key: Seq<char>| lookup(copy.entries@, key) == lookup(
                self.entries@,
                key,
            ) by {
                lemma_lookup_same(copy.entries@, self.entries@, key);
            }
            assert(copy@ =~= self@);
        }
        copy
    }
}

proof fn lemma_lookup_same(
    left: Seq<(String, FyfthVariant)>,
    right: Seq<(String, FyfthVariant)>,
    name: Seq<char>,
)
    requires
        left.len() == right.len(),
        forall|i: int|
            0 <= i < left.len() ==> left[i].0@ == right[i].0@ && left[i].1@ == right[i].1@,
    ensures
        lookup(left, name) == lookup(right, name),
    decreases left.len(),
{
    if left.len() > 0 {
        lemma_lookup_same(left.drop_first(), right.drop_first(), name);
    }
}

} // verus!
