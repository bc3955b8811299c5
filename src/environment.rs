//! The single flat namespace of a run: names bound to values, last write
//! wins.
use vstd::prelude::*;

use crate::errors::RLoxError;
use crate::tokens::{Object, Token, Value};

verus! {

/// Bindings from names to values. `names` holds each name once, and
/// `values[i]` is bound to `names[i]`.
pub struct Environment {
    names: Vec<String>,
    values: Vec<Object>,
    bindings: Ghost<Map<Seq<char>, Value>>,
}

impl View for Environment {
    type V = Map<Seq<char>, Value>;

    closed spec fn view(&self) -> Map<Seq<char>, Value> {
        self.bindings@
    }
}

impl Environment {
    pub closed spec fn wf(&self) -> bool {
        &&& self.names@.len() == self.values@.len()
        &&& forall|i: int, j: int|
            0 <= i < j < self.names@.len() ==> self.names@[i]@ != self.names@[j]@
        &&& forall|i: int|
            0 <= i < self.names@.len() ==> #[trigger] self.bindings@.contains_key(self.names@[i]@)
                && self.bindings@[self.names@[i]@] == self.values@[i]@
        &&& forall|k: Seq<char>|
            #[trigger] self.bindings@.contains_key(k) ==> exists|i: int|
                0 <= i < self.names@.len() && #[trigger] self.names@[i]@ == k
    }

    /// An environment with no bindings.
    pub fn new() -> (r: Environment)
        ensures
            r.wf(),
            r@ == Map::<Seq<char>, Value>::empty(),
    {
        Environment { names: Vec::new(), values: Vec::new(), bindings: Ghost(Map::empty()) }
    }

    /// The position of `name`, if it is bound.
    fn position(&self, name: &String) -> (r: Option<usize>)
        requires
            self.wf(),
        ensures
            match r {
                Some(i) => i < self.names@.len() && self.names@[i as int]@ == name@,
                None => forall|i: int| 0 <= i < self.names@.len() ==> self.names@[i]@ != name@,
            },
    {
        let mut i: usize = 0;
        while i < self.names.len()
            invariant
                i <= self.names@.len(),
                forall|j: int| 0 <= j < i ==> self.names@[j]@ != name@,
            decreases self.names@.len() - i,
        {
            if self.names[i] == *name {
                return Some(i);
            }
            i = i + 1;
        }
        None
    }

    /// Binds `name` to `value`, replacing any earlier binding. Never fails.
    pub fn define(&mut self, name: String, value: Object)
        requires
            old(self).wf(),
        ensures
            final(self).wf(),
            final(self)@ == old(self)@.insert(name@, value@),
    {
        let ghost key = name@;
        let ghost v = value@;
        match self.position(&name) {
            Some(i) => {
                self.values.set(i, value);
                self.bindings = Ghost(self.bindings@.insert(key, v));
                assert forall|j: int| 0 <= j < self.names@.len() implies #[trigger]
                    self.bindings@.contains_key(self.names@[j]@) && self.bindings@[self.names@[j]@]
                    == self.values@[j]@ by {
                    if j != i {
                        assert(self.names@[j]@ != key);
                        assert(old(self).bindings@.contains_key(old(self).names@[j]@));
                        assert(self.values@[j] == old(self).values@[j]);
                    }
                }
                assert forall|k: Seq<char>| #[trigger]
                    self.bindings@.contains_key(k) implies exists|j: int|
                    0 <= j < self.names@.len() && #[trigger] self.names@[j]@ == k by {
                    if k != key {
                        assert(old(self).bindings@.contains_key(k));
                        let j = choose|j: int|
                            0 <= j < old(self).names@.len() && #[trigger] old(self).names@[j]@ == k;
                        assert(self.names@[j]@ == k);
                    } else {
                        assert(self.names@[i as int]@ == k);
                    }
                }
            },
            None => {
                self.names.push(name);
                self.values.push(value);
                self.bindings = Ghost(self.bindings@.insert(key, v));
                let ghost n = self.names@.len() - 1;
                assert(self.names@[n]@ == key);
                assert forall|j: int| 0 <= j < self.names@.len() implies #[trigger]
                    self.bindings@.contains_key(self.names@[j]@) && self.bindings@[self.names@[j]@]
                    == self.values@[j]@ by {
                    if j < n {
                        assert(self.names@[j] == old(self).names@[j]);
                        assert(old(self).bindings@.contains_key(old(self).names@[j]@));
                        assert(self.values@[j] == old(self).values@[j]);
                    }
                }
                assert forall|a: int, b: int|
                    0 <= a < b < self.names@.len() implies self.names@[a]@ != self.names@[b]@ by {
                    if b < n {
                        assert(self.names@[a] == old(self).names@[a]);
                        assert(self.names@[b] == old(self).names@[b]);
                    } else {
                        assert(self.names@[a] == old(self).names@[a]);
                    }
                }
                assert forall|k: Seq<char>| #[trigger]
                    self.bindings@.contains_key(k) implies exists|j: int|
                    0 <= j < self.names@.len() && #[trigger] self.names@[j]@ == k by {
                    if k != key {
                        assert(old(self).bindings@.contains_key(k));
                        let j = choose|j: int|
                            0 <= j < old(self).names@.len() && #[trigger] old(self).names@[j]@ == k;
                        assert(self.names@[j]@ == k);
                    } else {
                        assert(self.names@[n]@ == k);
                    }
                }
            },
        }
    }

    /// The value bound to the name of `name`, or an undefined-variable
    /// error carrying `name`.
    pub fn get(&self, name: &Token) -> (r: Result<Object, RLoxError>)
        requires
            self.wf(),
        ensures
            match r {
                Ok(v) => self@.contains_key(name.lexeme@) && v@ == self@[name.lexeme@],
                Err(e) => !self@.contains_key(name.lexeme@) && e == RLoxError::UndefinedVariable(
                    *name,
                ),
            },
    {
        match self.position(&name.lexeme) {
            Some(i) => {
                assert(self.bindings@.contains_key(self.names@[i as int]@));
                Ok(self.values[i].duplicate())
            },
            None => Err(RLoxError::UndefinedVariable(name.duplicate())),
        }
    }
}

} // verus!
