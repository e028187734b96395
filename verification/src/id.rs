//! Identifiers and the providers that compute them.

use crate::registry::DefaultLocality;
use vstd::prelude::*;

verus! {

/// A strategy that tells which locality the caller is running in.
///
/// An implementation must name every concurrently running context that may
/// touch the same storage by a different number. Nothing in this library can
/// check that: storage indexed by these numbers is only as private as the
/// provider makes it.
pub trait Locality {
    /// The number of distinct localities this provider may name. Identifiers
    /// it hands out are expected to stay below this bound.
    fn max_localities(&self) -> usize;

    /// The number of the locality the caller runs in.
    fn current_id(&self) -> usize;
}

/// The name of a locality: a single non-negative integer.
///
/// Two identifiers are equal exactly when their integers are.
#[derive(Clone, Copy, Debug, PartialEq, Eq, Hash, Structural)]
pub struct Id {
    value: usize,
}

impl View for Id {
    type V = usize;

    closed spec fn view(&self) -> usize {
        self.value
    }
}

impl Id {
    /// Wraps `value` as an identifier.
    ///
    /// The caller vouches that `value` names the calling context and no other
    /// context that may touch the same storage at the same time, and that it
    /// lies below the bound of the provider in use. Neither can be checked
    /// here.
    pub fn from_usize(value: usize) -> (id: Id)
        ensures
            id@ == value,
    {
        Id { value }
    }

    /// The identifier of the calling context, as computed by the provider
    /// that `registry` holds.
    pub fn current<L: Locality>(registry: &DefaultLocality<L>) -> (id: Id)
        requires
            registry.is_set(),
        ensures
            call_ensures(L::current_id, (&registry.provider(),), id@),
    {
        Id::from_usize(registry.current_id())
    }

    /// The integer behind the identifier.
    pub fn into_usize(self) -> (value: usize)
        ensures
            value == self@,
    {
        self.value
    }

    /// Identifiers are equal exactly when their integers are equal.
    pub proof fn lemma_eq_by_value(a: Id, b: Id)
        ensures
            (a == b) <==> (a@ == b@),
    {
    }
}

} // verus!
