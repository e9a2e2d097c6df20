use vstd::prelude::*;

use crate::ast::{LiteralValue, Value};

verus! {

/// The bindings that a sequence of entries stands for; a later entry for a
/// name overrides an earlier one.
pub open spec fn bindings(s: Seq<(String, LiteralValue)>) -> Map<Seq<char>, Value>
    decreases s.len(),
{
    if s.len() == 0 {
        Map::empty()
    } else {
        bindings(s.drop_last()).insert(s.last().0@, s.last().1@)
    }
}

proof fn lemma_absent(s: Seq<(String, LiteralValue)>, k: Seq<char>)
    requires
        forall|j: int| 0 <= j < s.len() ==> s[j].0@ != k,
    ensures
        !bindings(s).contains_key(k),
    decreases s.len(),
{
    if s.len() > 0 {
        lemma_absent(s.drop_last(), k);
    }
}

proof fn lemma_found(s: Seq<(String, LiteralValue)>, i: int, k: Seq<char>)
    requires
        0 <= i < s.len(),
        s[i].0@ == k,
        forall|j: int| i < j < s.len() ==> s[j].0@ != k,
    ensures
        bindings(s).contains_key(k),
        bindings(s)[k] == s[i].1@,
    decreases s.len(),
{
    if i < s.len() - 1 {
        lemma_found(s.drop_last(), i, k);
    }
}

proof fn lemma_replace(s: Seq<(String, LiteralValue)>, i: int, e: (String, LiteralValue))
    requires
        0 <= i < s.len(),
        s[i].0@ == e.0@,
        forall|j: int| i < j < s.len() ==> s[j].0@ != e.0@,
    ensures
        bindings(s.update(i, e)) == bindings(s).insert(e.0@, e.1@),
    decreases s.len(),
{
    if i == s.len() - 1 {
        assert(s.update(i, e).drop_last() =~= s.drop_last());
        assert(bindings(s.update(i, e)) =~= bindings(s).insert(e.0@, e.1@));
    } else {
        lemma_replace(s.drop_last(), i, e);
        assert(s.update(i, e).drop_last() =~= s.drop_last().update(i, e));
        assert(bindings(s.update(i, e)) =~= bindings(s).insert(e.0@, e.1@));
    }
}

/// The single global scope: a mapping from names to values.
pub struct Environment {
    values: Vec<(String, LiteralValue)>,
}

impl View for Environment {
    type V = Map<Seq<char>, Value>;

    closed spec fn view(&self) -> Map<Seq<char>, Value> {
        bindings(self.values@)
    }
}

impl Environment {
    /// An environment with no bindings.
    pub fn new() -> (r: Environment)
        ensures
            r@ == Map::<Seq<char>, Value>::empty(),
    {
        Environment { values: Vec::new() }
    }

    /// The index of the last entry for `name`, if any.
    fn position(&self, name: &String) -> (r: Option<usize>)
        ensures
            match r {
                Some(i) => i < self.values.len() && self.values@[i as int].0@ == name@ && forall|
                    j: int,
                | i < j < self.values.len() ==> self.values@[j].0@ != name@,
                None => forall|j: int| 0 <= j < self.values.len() ==> self.values@[j].0@ != name@,
            },
    {
        let mut i = self.values.len();
        while i > 0
            invariant
                i <= self.values.len(),
                forall|j: int| i <= j < self.values.len() ==> self.values@[j].0@ != name@,
            decreases i,
        {
            if self.values[i - 1].0.eq(name) {
                return Some(i - 1);
            }
            i -= 1;
        }
        None
    }

    /// Binds `name` to `value`, replacing any earlier binding of it.
    pub fn define(&mut self, name: String, value: LiteralValue)
        ensures
            final(self)@ == old(self)@.insert(name@, value@),
    {
        match self.position(&name) {
            Some(i) => {
                proof {
                    lemma_replace(self.values@, i as int, (name, value));
                }
                self.values.set(i, (name, value));
            },
            None => {
                assert(self.values@.push((name, value)).drop_last() =~= self.values@);
                self.values.push((name, value));
            },
        }
    }

    /// The value bound to `name`, or `None` where it is not bound.
    pub fn get(&self, name: String) -> (r: Option<LiteralValue>)
        ensures
            match r {
                Some(v) => self@.contains_key(name@) && v@ == self@[name@],
                None => !self@.contains_key(name@),
            },
    {
        match self.position(&name) {
            Some(i) => {
                proof {
                    lemma_found(self.values@, i as int, name@);
                }
                Some(self.values[i].1.duplicate())
            },
            None => {
                proof {
                    lemma_absent(self.values@, name@);
                }
                None
            },
        }
    }
}

} // verus!
