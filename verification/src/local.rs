//! The per-locality cell: a store together with the function that makes
//! fresh values for it.

use crate::gate::Gate;
use crate::id::{Id, Locality};
use crate::registry::DefaultLocality;
use crate::store::{accessed, StoreView, __Store};
use vstd::prelude::*;

verus! {

/// The error of an access that found no slot for the caller.
#[derive(Clone, Copy, Debug, PartialEq, Eq)]
pub struct AccessError {
    _private: (),
}

/// The relation between a store before (`pre`) and after (`post`) the
/// locality `idx` was served under the bound `size`, and what came of it:
/// `Some(r)` where the locality's value `v` was found or made and `f`
/// returned `r` on it, `None` where no slot could be handed out.
pub open spec fn served<T, I: FnOnce() -> T, F: FnOnce(&T) -> R, R>(
    pre: StoreView<T>,
    post: StoreView<T>,
    size: usize,
    idx: usize,
    init: I,
    f: F,
    outcome: Option<R>,
) -> bool {
    match outcome {
        Some(r) => exists|v: T|
            {
                &&& #[trigger] accessed(pre, post, size, idx, init, Some(v))
                &&& call_ensures(f, (&v,), r)
            },
        None => accessed(pre, post, size, idx, init, None),
    }
}

/// What a fallible access returned, if it returned anything.
pub open spec fn returned<R>(outcome: Result<R, AccessError>) -> Option<R> {
    match outcome {
        Ok(r) => Some(r),
        Err(_) => None,
    }
}

/// A value of which every locality has its own instance.
///
/// The key owns one store and the function that makes a locality's first
/// value. Making a key computes nothing and lays out nothing: the store is
/// sized by the first access, and each slot is filled by the first access
/// of its locality.
#[verifier::reject_recursive_types(T)]
pub struct LocalKey<T, I: Fn() -> T> {
    store: __Store<T>,
    init: I,
}

impl<T, I: Fn() -> T> LocalKey<T, I> {
    /// The initializer can be called, the store is well formed, and no
    /// accessor is in the middle of sizing it: a key passes through that
    /// state only inside a call.
    pub open spec fn wf(&self) -> bool {
        &&& call_requires(self.init(), ())
        &&& self.store().wf()
        &&& self.store().gate != Gate::Sizing
    }

    /// The store behind the key.
    pub closed spec fn store(&self) -> StoreView<T> {
        self.store@
    }

    /// The function that makes a locality's first value.
    pub closed spec fn init(&self) -> &I {
        &self.init
    }

    /// Whether `v` is a value that an access may come upon: one that a slot
    /// holds, or one that the initializer may return.
    pub open spec fn may_serve(&self, v: T) -> bool {
        ||| exists|i: int| 0 <= i < self.store().slots.len() && self.store().slots[i] == Some(v)
        ||| call_ensures(self.init(), (), v)
    }

    /// A key whose localities start out with what `init` returns.
    pub fn new(init: I) -> (key: Self)
        requires
            call_requires(&init, ()),
        ensures
            key.wf(),
            key.store() == StoreView::<T>::fresh(),
            *key.init() == init,
    {
        LocalKey { store: __Store::new(), init }
    }

    /// Runs `f` on the calling context's own value, which is made first if
    /// this is the context's first access, and returns what `f` returns.
    ///
    /// The caller is identified by the provider in `registry`. There must be
    /// one, it must have declared room for at least one locality by the time
    /// the store is sized, and it must keep below the bound it declared.
    pub fn with<L: Locality, F: FnOnce(&T) -> R, R>(
        &mut self,
        registry: &DefaultLocality<L>,
        f: F,
    ) -> (r: R)
        requires
            old(self).wf(),
            registry.is_set(),
            old(self).store().gate == Gate::Uninitialized ==> registry.bound() > 0,
            forall|idx: usize| #[trigger]
                call_ensures(L::current_id, (&registry.provider(),), idx) ==> idx < old(
                    self,
                ).store().opened(registry.bound() as nat).slots.len(),
            forall|v: T| #[trigger] old(self).may_serve(v) ==> call_requires(f, (&v,)),
        ensures
            final(self).init() == old(self).init(),
            final(self).wf(),
            exists|idx: usize|
                {
                    &&& call_ensures(L::current_id, (&registry.provider(),), idx)
                    &&& #[trigger] served(
                        old(self).store(),
                        final(self).store(),
                        registry.bound(),
                        idx,
                        old(self).init(),
                        f,
                        Some(r),
                    )
                },
    {
        self.store.initialize(registry.max_localities());
        let id = Id::current(registry);
        let ghost opened = self.store();
        let value = self.store.slot(id, &self.init);
        proof {
            let idx = id@ as int;
            if opened.slots[idx].is_some() {
                assert(old(self).store().slots[idx] == Some(*value));
            }
            assert(old(self).may_serve(*value));
        }
        let r = f(value);
        proof {
            assert(accessed(
                old(self).store(),
                self.store(),
                registry.bound(),
                id@,
                old(self).init(),
                Some(*value),
            ));
            assert(served(
                old(self).store(),
                self.store(),
                registry.bound(),
                id@,
                old(self).init(),
                f,
                Some(r),
            ));
        }
        r
    }

    /// As [`Self::with`], for a caller that cannot vouch for the registry,
    /// the store or the provider: where no slot can be handed out, `f` is
    /// not run and the error comes back.
    ///
    /// That is the case without a provider (nothing changes), for an
    /// untouched store under the bound zero (nothing changes), and for an
    /// identifier at or beyond the number of slots (the store is sized, if it
    /// was not, and no slot is filled).
    pub fn try_with<L: Locality, F: FnOnce(&T) -> R, R>(
        &mut self,
        registry: &DefaultLocality<L>,
        f: F,
    ) -> (outcome: Result<R, AccessError>)
        requires
            old(self).wf(),
            forall|v: T| #[trigger] old(self).may_serve(v) ==> call_requires(f, (&v,)),
        ensures
            final(self).init() == old(self).init(),
            final(self).wf(),
            !registry.is_set() ==> outcome.is_err() && final(self).store() == old(self).store(),
            registry.is_set() ==> exists|idx: usize|
                {
                    &&& call_ensures(L::current_id, (&registry.provider(),), idx)
                    &&& #[trigger] served(
                        old(self).store(),
                        final(self).store(),
                        registry.bound(),
                        idx,
                        old(self).init(),
                        f,
                        returned(outcome),
                    )
                },
    {
        proof {
            let pre = old(self).store();
            let init = old(self).init();
            assert forall|post: StoreView<T>, idx: usize, v: T| #[trigger]
                accessed(pre, post, registry.bound(), idx, init, Some(v)) implies old(
                self,
            ).may_serve(v) by {
                let opened = pre.opened(registry.bound() as nat);
                if opened.slots[idx as int].is_some() {
                    assert(pre.slots[idx as int] == Some(v));
                }
            }
        }
        let ghost mut seen: Option<T> = None;
        let outcome = match self.store.get(registry, &self.init) {
            Some(value) => {
                proof {
                    seen = Some(*value);
                }
                Ok(f(value))
            },
            None => Err(AccessError { _private: () }),
        };
        proof {
            if registry.is_set() {
                let idx = choose|idx: usize|
                    {
                        &&& call_ensures(L::current_id, (&registry.provider(),), idx)
                        &&& #[trigger] accessed(
                            old(self).store(),
                            self.store(),
                            registry.bound(),
                            idx,
                            old(self).init(),
                            seen,
                        )
                    };
                assert(served(
                    old(self).store(),
                    self.store(),
                    registry.bound(),
                    idx,
                    old(self).init(),
                    f,
                    returned(outcome),
                ));
            }
        }
        outcome
    }
}

} // verus!
