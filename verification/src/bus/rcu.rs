//! Container of an immutable snapshot.
//!
//! Readers take a handle to the current snapshot; a writer publishes a new one
//! and leaves the handles already taken untouched.

use std::sync::Arc;
use vstd::prelude::*;

verus! {

/// Holder of the current snapshot, if one was published.
pub struct Rcu<T> {
    value: Option<Arc<T>>,
}

impl<T> View for Rcu<T> {
    type V = Option<T>;

    closed spec fn view(&self) -> Option<T> {
        match self.value {
            Some(a) => Some(*a),
            None => None,
        }
    }
}

impl<T> Rcu<T> {
    /// A container without a snapshot.
    pub fn empty() -> (r: Self)
        ensures
            r@ == None::<T>,
    {
        Rcu { value: None }
    }

    /// A container with a first snapshot.
    pub fn new(initial: T) -> (r: Self)
        ensures
            r@ == Some(initial),
    {
        Rcu { value: Some(Arc::new(initial)) }
    }

    /// Publishes a snapshot.
    pub fn write(&mut self, new_value: T)
        ensures
            final(self)@ == Some(new_value),
    {
        self.value = Some(Arc::new(new_value));
    }

    /// A handle to the current snapshot.
    pub fn read(&self) -> (r: Option<Arc<T>>)
        ensures
            r is Some <==> self@ is Some,
            r is Some ==> *r->0 == self@->0,
    {
        match &self.value {
            Some(a) => Some(a.clone()),
            None => None,
        }
    }

    /// A copy of the current snapshot.
    pub fn read_cloned(&self) -> (r: Option<T>) where T: Clone
        ensures
            r is Some <==> self@ is Some,
            r is Some ==> cloned(self@->0, r->0),
    {
        match &self.value {
            Some(a) => Some((**a).clone()),
            None => None,
        }
    }

    /// Applies `f` to the current snapshot.
    pub fn read_with<F, R>(&self, f: F) -> (r: Option<R>) where F: FnOnce(&T) -> R
        requires
            self@ is Some ==> f.requires((&self@->0,)),
        ensures
            r is Some <==> self@ is Some,
            r is Some ==> f.ensures((&self@->0,), r->0),
    {
        match &self.value {
            Some(a) => Some(f(&**a)),
            None => None,
        }
    }
}

impl<T> Default for Rcu<T> {
    fn default() -> (r: Self)
        ensures
            r@ == None::<T>,
    {
        Rcu::empty()
    }
}

} // verus!
