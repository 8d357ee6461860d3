//! Query policies: what a read gives when the key is unset.

use vstd::prelude::*;

verus! {

/// The rule by which an item turns what the store holds into the value its
/// callers see, and back.
///
/// `Query` is the type that reads return and that `mutate` works on. A
/// policy resolves what was found under the key into a `Query`, and settles
/// a `Query` into what is to stand under the key afterwards: a value to
/// write, or nothing, which unsets the key.
pub trait QueryPolicy<T> {
    /// The type that the item's callers see.
    type Query;

    /// Whether the policy has an answer for `found`. A policy that has
    /// none for an unset key leaves it to the caller to rule that out.
    spec fn admits(&self, found: Option<T>) -> bool;

    /// The value that callers see for `found`.
    spec fn resolve_spec(&self, found: Option<T>) -> Self::Query;

    /// What stands under the key once `query` is written back.
    spec fn settle_spec(query: Self::Query) -> Option<T>;

    /// A value that is set is admitted, and writing back what was resolved
    /// from it leaves that value.
    proof fn settle_resolve(&self, value: T)
        ensures
            self.admits(Some(value)),
            Self::settle_spec(self.resolve_spec(Some(value))) == Some(value),
    ;

    /// Resolves what was found under the key.
    fn resolve(&self, found: Option<T>) -> (query: Self::Query)
        requires
            self.admits(found),
        ensures
            query == self.resolve_spec(found),
    ;

    /// Settles a value of the query type into what is to be stored.
    fn settle(query: Self::Query) -> (kept: Option<T>)
        ensures
            kept == Self::settle_spec(query),
    ;
}

/// Reads give `None` for an unset key; writing back `None` unsets it.
pub struct Optional;

/// Reads give the declared default for an unset key. The query type is the
/// bare value, so that absence cannot be written back.
pub struct Defaulted<T> {
    pub default: T,
}

/// Reads are made only of keys that are set: an unset key is a defect that
/// the caller rules out. The query type is the bare value.
pub struct Required;

impl<T> Defaulted<T> {
    /// The policy with the declared default `default`.
    pub fn new(default: T) -> (policy: Self)
        ensures
            policy.default == default,
    {
        Defaulted { default }
    }
}

impl<T: Default> Defaulted<T> {
    /// The policy whose default is the default of the type.
    pub fn type_default() -> (policy: Self)
        ensures
            call_ensures(T::default, (), policy.default),
    {
        Defaulted { default: T::default() }
    }
}

impl<T> QueryPolicy<T> for Optional {
    type Query = Option<T>;

    open spec fn admits(&self, found: Option<T>) -> bool {
        true
    }

    open spec fn resolve_spec(&self, found: Option<T>) -> Option<T> {
        found
    }

    open spec fn settle_spec(query: Option<T>) -> Option<T> {
        query
    }

    proof fn settle_resolve(&self, value: T) {
    }

    fn resolve(&self, found: Option<T>) -> (query: Option<T>) {
        found
    }

    fn settle(query: Option<T>) -> (kept: Option<T>) {
        query
    }
}

impl<T: Copy> QueryPolicy<T> for Defaulted<T> {
    type Query = T;

    open spec fn admits(&self, found: Option<T>) -> bool {
        true
    }

    open spec fn resolve_spec(&self, found: Option<T>) -> T {
        match found {
            Some(value) => value,
            None => self.default,
        }
    }

    open spec fn settle_spec(query: T) -> Option<T> {
        Some(query)
    }

    proof fn settle_resolve(&self, value: T) {
    }

    fn resolve(&self, found: Option<T>) -> (query: T) {
        match found {
            Some(value) => value,
            None => self.default,
        }
    }

    fn settle(query: T) -> (kept: Option<T>) {
        Some(query)
    }
}

impl<T> QueryPolicy<T> for Required {
    type Query = T;

    open spec fn admits(&self, found: Option<T>) -> bool {
        found.is_some()
    }

    open spec fn resolve_spec(&self, found: Option<T>) -> T {
        found.unwrap()
    }

    open spec fn settle_spec(query: T) -> Option<T> {
        Some(query)
    }

    proof fn settle_resolve(&self, value: T) {
    }

    fn resolve(&self, found: Option<T>) -> (query: T) {
        found.unwrap()
    }

    fn settle(query: T) -> (kept: Option<T>) {
        Some(query)
    }
}

} // verus!
