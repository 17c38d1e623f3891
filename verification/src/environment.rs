//! The environment: a chain of name-to-value scopes supporting definition,
//! assignment, and lookup with shadowing. Lookup and assignment walk
//! outward from the innermost scope to the first scope that defines the
//! name.

use vstd::prelude::*;
use vstd::hash_map::StringHashMap;
use crate::interpreter::{Value, ValueV};

verus! {

/// The specification-level environment chain: one map per scope, the
/// innermost scope first.
pub type EnvV = Seq<Map<Seq<char>, ValueV>>;

/// The view of one scope: its map with every value taken to its view.
pub open spec fn scope_view(m: Map<Seq<char>, Value>) -> Map<Seq<char>, ValueV> {
    m.map_values(|v: Value| v@)
}

/// The value bound to a name, walking outward from the innermost scope to
/// the first scope that defines it.
pub open spec fn lookup_chain(stack: EnvV, name: Seq<char>) -> Option<ValueV>
    decreases stack.len(),
{
    if stack.len() == 0 {
        None
    } else if stack[0].contains_key(name) {
        Some(stack[0][name])
    } else {
        lookup_chain(stack.skip(1), name)
    }
}

/// The chain after assigning to a name: the first scope that defines it is
/// updated in place; a chain that defines it nowhere is unchanged.
pub open spec fn assign_chain(stack: EnvV, name: Seq<char>, v: ValueV) -> EnvV
    decreases stack.len(),
{
    if stack.len() == 0 {
        stack
    } else if stack[0].contains_key(name) {
        stack.update(0, stack[0].insert(name, v))
    } else {
        seq![stack[0]] + assign_chain(stack.skip(1), name, v)
    }
}

/// A scope holding a mapping from names to values, chained to an enclosing
/// scope; the outermost scope has none.
pub struct Environment {
    pub values: StringHashMap<Value>,
    pub enclosing: Option<Box<Environment>>,
}

/// The part of the chain view contributed by the enclosing scopes.
pub open spec fn env_tail(e: &Environment) -> EnvV {
    match &e.enclosing {
        None => Seq::empty(),
        Some(b) => (**b)@,
    }
}

impl View for Environment {
    type V = EnvV;

    open spec fn view(&self) -> EnvV
        decreases self,
    {
        match &self.enclosing {
            None => seq![scope_view(self.values@)],
            Some(e) => seq![scope_view(self.values@)] + (**e)@,
        }
    }
}

/// A scope's view binds exactly the keys the scope binds, each to the
/// view of its value.
pub proof fn lemma_scope_view_key(m: Map<Seq<char>, Value>, k: Seq<char>)
    ensures
        scope_view(m).contains_key(k) <==> m.contains_key(k),
        m.contains_key(k) ==> scope_view(m)[k] == m[k]@,
{
    if m.contains_key(k) {
        assert(scope_view(m)[k] == m[k]@);
    }
}

/// The chain view splits into the innermost scope and the enclosing part.
pub proof fn lemma_env_parts(e: &Environment)
    ensures
        e@ == seq![scope_view(e.values@)] + env_tail(e),
        e@.len() == 1 + env_tail(e).len(),
        e@[0] == scope_view(e.values@),
        e@.skip(1) == env_tail(e),
{
    match &e.enclosing {
        None => {
            assert(e@ =~= seq![scope_view(e.values@)] + env_tail(e));
        },
        Some(b) => {
            assert(e@ =~= seq![scope_view(e.values@)] + env_tail(e));
        },
    }
    assert(e@.skip(1) =~= env_tail(e));
}

impl Environment {
    /// A fresh chain of one empty scope.
    pub fn new() -> (r: Environment)
        ensures
            r@ == seq![Map::<Seq<char>, ValueV>::empty()],
    {
        let r = Environment { values: StringHashMap::new(), enclosing: None };
        proof {
            lemma_env_parts(&r);
            assert(scope_view(r.values@) =~= Map::<Seq<char>, ValueV>::empty());
            assert(r@ =~= seq![Map::<Seq<char>, ValueV>::empty()]);
        }
        r
    }

    /// Inserts or overwrites the binding in the innermost scope only.
    pub fn define(&mut self, name: String, value: Value)
        ensures
            final(self)@ == old(self)@.update(0, old(self)@[0].insert(name@, value@)),
    {
        proof {
            lemma_env_parts(self);
        }
        let ghost pre = self@;
        let ghost pre_scope = self.values@;
        self.values.insert(name, value);
        proof {
            lemma_env_parts(self);
            assert(scope_view(self.values@) =~= scope_view(pre_scope).insert(name@, value@));
            assert(self@ =~= pre.update(0, pre[0].insert(name@, value@)));
        }
    }

    /// Reads the binding of a name, walking the chain outward; `None` when
    /// no scope in the chain defines it.
    pub fn get(&self, name: &str) -> (r: Option<Value>)
        ensures
            match r {
                Some(v) => lookup_chain(self@, name@) == Some(v@),
                None => lookup_chain(self@, name@) is None,
            },
        decreases self,
    {
        proof {
            lemma_env_parts(self);
        }
        match self.values.get(name) {
            Some(v) => {
                let r = v.clone();
                proof {
                    lemma_scope_view_key(self.values@, name@);
                    assert(self@[0].contains_key(name@));
                    assert(self@[0][name@] == r@);
                }
                Some(r)
            },
            None => {
                proof {
                    lemma_scope_view_key(self.values@, name@);
                    assert(!self@[0].contains_key(name@));
                }
                match &self.enclosing {
                    Some(e) => {
                        proof {
                            assert(self@.skip(1) == (**e)@);
                        }
                        e.get(name)
                    },
                    None => {
                        proof {
                            assert(self@.skip(1) =~= Seq::<Map<Seq<char>, ValueV>>::empty());
                        }
                        None
                    },
                }
            },
        }
    }

    /// Overwrites the binding in the first scope of the chain that already
    /// defines the name; returns whether any scope did.
    pub fn assign(&mut self, name: String, value: Value) -> (r: bool)
        ensures
            r == (lookup_chain(old(self)@, name@) is Some),
            final(self)@ == assign_chain(old(self)@, name@, value@),
        decreases *old(self),
    {
        proof {
            lemma_env_parts(self);
        }
        let ghost pre = self@;
        if self.values.contains_key(name.as_str()) {
            let ghost pre_scope = self.values@;
            proof {
                lemma_scope_view_key(pre_scope, name@);
            }
            self.values.insert(name, value);
            proof {
                lemma_env_parts(self);
                assert(scope_view(self.values@) =~= scope_view(pre_scope).insert(name@, value@));
                assert(self@ =~= pre.update(0, pre[0].insert(name@, value@)));
            }
            true
        } else {
            proof {
                lemma_scope_view_key(self.values@, name@);
                assert(!pre[0].contains_key(name@));
            }
            proof {
                assert(lookup_chain(pre, name@) == lookup_chain(pre.skip(1), name@));
            }
            match &mut self.enclosing {
                Some(e) => {
                    proof {
                        assert((**e)@ == pre.skip(1));
                    }
                    let r = e.assign(name, value);
                    proof {
                        assert((**e)@ == assign_chain(pre.skip(1), name@, value@));
                    }
                    proof {
                        lemma_env_parts(self);
                        assert(self@ =~= seq![pre[0]] + assign_chain(pre.skip(1), name@, value@));
                    }
                    r
                },
                None => {
                    proof {
                        assert(pre.skip(1) =~= Seq::<Map<Seq<char>, ValueV>>::empty());
                        assert(assign_chain(pre.skip(1), name@, value@) =~= Seq::<
                            Map<Seq<char>, ValueV>,
                        >::empty());
                        assert(self@ =~= assign_chain(pre, name@, value@));
                    }
                    false
                },
            }
        }
    }
}

} // verus!
