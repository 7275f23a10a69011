//! Persistent lexical environments.
//!
//! An environment is a list of `(name, binding)` pairs, newest first.
//! Variables live in heap cells so that assignment can update them without
//! rebuilding the environment; the tail of the list is shared between an
//! environment and every extension of it.

use vstd::prelude::*;

use std::sync::Arc;

use crate::value::{CellId, Value};

verus! {

/// What a name refers to: a heap cell (variables and parameters) or a
/// direct value (the implicit `this` binding, which is never assigned).
#[derive(Debug)]
pub enum Binding {
    /// A mutable or immutable variable cell.
    Cell(CellId),
    /// A direct value binding.
    Direct(Value),
}

impl Clone for Binding {
    fn clone(&self) -> (r: Self)
        ensures
            r == *self,
    {
        match self {
            Binding::Cell(id) => Binding::Cell(*id),
            Binding::Direct(v) => Binding::Direct(v.clone()),
        }
    }
}

/// A persistent lexical environment.
#[derive(Debug)]
pub enum Env {
    /// The empty environment.
    Empty,
    /// A binding atop a smaller environment.
    Cons {
        /// The bound name.
        name: String,
        /// The binding.
        binding: Binding,
        /// The environment underneath this binding.
        rest: Arc<Env>,
    },
}

impl Clone for Env {
    fn clone(&self) -> (r: Self)
        ensures
            r == *self,
    {
        match self {
            Env::Empty => Env::Empty,
            Env::Cons { name, binding, rest } => Env::Cons {
                name: name.clone(),
                binding: binding.clone(),
                rest: Arc::clone(rest),
            },
        }
    }
}

impl Default for Env {
    fn default() -> (r: Self)
        ensures
            r == Env::Empty,
    {
        Env::Empty
    }
}

impl Env {
    /// The binding `name` resolves to: the most recent one.
    pub open spec fn spec_lookup(self, name: Seq<char>) -> Option<Binding>
        decreases self,
    {
        match self {
            Env::Empty => None,
            Env::Cons { name: n, binding, rest } => {
                if n@ == name {
                    Some(binding)
                } else {
                    (*rest).spec_lookup(name)
                }
            },
        }
    }

    /// The empty environment.
    pub fn empty() -> (r: Self)
        ensures
            r == Env::Empty,
    {
        Env::Empty
    }

    /// `self` extended with `name` bound to `cell`.
    pub fn extend_cell(&self, name: &str, cell: CellId) -> (r: Self)
        ensures
            r == (Env::Cons { name: r->name, binding: Binding::Cell(cell), rest: Arc::new(*self) }),
            r->name@ == name@,
    {
        Env::Cons { name: name.to_owned(), binding: Binding::Cell(cell), rest: Arc::new(self.clone()) }
    }

    /// `self` extended with `name` bound directly to `value`.
    pub fn extend_direct(&self, name: &str, value: Value) -> (r: Self)
        ensures
            r == (Env::Cons { name: r->name, binding: Binding::Direct(value), rest: Arc::new(*self) }),
            r->name@ == name@,
    {
        Env::Cons {
            name: name.to_owned(),
            binding: Binding::Direct(value),
            rest: Arc::new(self.clone()),
        }
    }

    fn lookup_owned(&self, name: &String) -> (r: Option<&Binding>)
        ensures
            r matches Some(b) ==> self.spec_lookup(name@) == Some(*b),
            r is None ==> self.spec_lookup(name@) is None,
        decreases self,
    {
        match self {
            Env::Empty => None,
            Env::Cons { name: n, binding, rest } => {
                if *n == *name {
                    Some(binding)
                } else {
                    rest.lookup_owned(name)
                }
            },
        }
    }

    /// Look up `name`, returning the most recently bound binding.
    pub fn lookup(&self, name: &str) -> (r: Option<&Binding>)
        ensures
            r matches Some(b) ==> self.spec_lookup(name@) == Some(*b),
            r is None ==> self.spec_lookup(name@) is None,
    {
        let owned = name.to_owned();
        self.lookup_owned(&owned)
    }
}

/// A lookup of the name just bound finds the new binding.
pub proof fn lemma_lookup_extended_same(env: Env, name: String, binding: Binding)
    ensures
        (Env::Cons { name, binding, rest: Arc::new(env) }).spec_lookup(name@) == Some(binding),
{
}

/// Binding one name leaves every other name resolving as before.
pub proof fn lemma_lookup_extended_other(env: Env, name: String, binding: Binding, other: Seq<char>)
    requires
        other != name@,
    ensures
        (Env::Cons { name, binding, rest: Arc::new(env) }).spec_lookup(other) == env.spec_lookup(
            other,
        ),
{
}

/// Nothing is bound in the empty environment.
pub proof fn lemma_lookup_empty(name: Seq<char>)
    ensures
        Env::Empty.spec_lookup(name) is None,
{
}

} // verus!
