//! A control value that shows the user's change until the application confirms it.

use vstd::prelude::*;
use vstd::std_specs::cmp::PartialEqSpec;

verus! {

/// A value the user set and the application has not confirmed yet.
#[derive(Debug, Default)]
pub struct OptimisticValue<T> {
    pending: Option<T>,
}

impl<T: Copy + PartialEq + PartialEqSpec> OptimisticValue<T> {
    /// Nothing pending.
    pub fn new() -> (r: Self)
        ensures
            r.pending() is None,
    {
        OptimisticValue { pending: None }
    }

    /// The value the user set and the application has not confirmed yet.
    pub closed spec fn pending(self) -> Option<T> {
        self.pending
    }

    /// The value to show. The pending value is dropped once the application publishes it and
    /// the user is not interacting; while it is pending it is shown, else the published one.
    pub fn resolve(&mut self, authoritative: T, interaction_active: bool) -> (r: T)
        requires
            T::obeys_eq_spec(),
        ensures
            final(self).pending() == match old(self).pending() {
                Some(p) => if !interaction_active && p.eq_spec(&authoritative) { None } else { Some(p) },
                None => None,
            },
            r == match final(self).pending() {
                Some(p) => p,
                None => authoritative,
            },
    {
        if !interaction_active {
            if let Some(p) = self.pending {
                if p == authoritative {
                    self.pending = None;
                }
            }
        }
        match self.pending {
            Some(p) => p,
            None => authoritative,
        }
    }

    /// The user set `value`.
    pub fn set(&mut self, value: T)
        ensures
            final(self).pending() == Some(value),
    {
        self.pending = Some(value);
    }
}

} // verus!
