//! The set-once cell that holds a process's locality provider.

use crate::id::Locality;
use vstd::prelude::*;

verus! {

/// The error of a registration that found a provider already in place.
#[derive(Clone, Copy, Debug, PartialEq, Eq)]
pub struct SetDefaultError {
    _p: (),
}

impl SetDefaultError {
    /// Why the registration was refused.
    pub fn message(&self) -> (msg: &'static str)
        ensures
            msg@ == "default locality was already set!"@,
    {
        "default locality was already set!"
    }
}

/// What one registration attempt does to a cell: the cell afterwards, and
/// whether the attempt won.
pub open spec fn register<L>(cell: Option<(L, usize)>, provider: L, bound: usize) -> (
    Option<(L, usize)>,
    bool,
) {
    match cell {
        Some(_) => (cell, false),
        None => (Some((provider, bound)), true),
    }
}

/// The cell after the registration attempts `attempts` have run on `cell`,
/// one after the other.
pub open spec fn register_all<L>(cell: Option<(L, usize)>, attempts: Seq<(L, usize)>) -> Option<
    (L, usize),
>
    decreases attempts.len(),
{
    if attempts.len() == 0 {
        cell
    } else {
        let last = attempts.last();
        register(register_all(cell, attempts.drop_last()), last.0, last.1).0
    }
}

/// Whether attempt number `i` of `attempts`, run in order on `cell`, wins.
pub open spec fn wins<L>(cell: Option<(L, usize)>, attempts: Seq<(L, usize)>, i: int) -> bool
    recommends
        0 <= i < attempts.len(),
{
    register(register_all(cell, attempts.take(i)), attempts[i].0, attempts[i].1).1
}

/// A cell that holds a provider keeps it through any run of attempts.
pub proof fn lemma_set_cell_is_fixed<L>(cell: Option<(L, usize)>, attempts: Seq<(L, usize)>)
    requires
        cell.is_some(),
    ensures
        register_all(cell, attempts) == cell,
    decreases attempts.len(),
{
    if attempts.len() > 0 {
        lemma_set_cell_is_fixed(cell, attempts.drop_last());
    }
}

/// Single assignment. However many registrations race for an unset cell,
/// and in whatever order their atomic steps land, the one that lands first
/// wins, every other one fails, and from the first step on the cell holds
/// the winner's provider and bound.
pub proof fn lemma_single_assignment<L>(attempts: Seq<(L, usize)>, i: int)
    requires
        0 <= i < attempts.len(),
    ensures
        wins(None, attempts, i) <==> i == 0,
        register_all(None, attempts.take(i + 1)) == Some(attempts[0]),
        register_all(None, attempts) == Some(attempts[0]),
{
    lemma_first_attempt_stays(attempts, i + 1);
    lemma_first_attempt_stays(attempts, attempts.len() as int);
    assert(attempts.take(attempts.len() as int) =~= attempts);
    if i == 0 {
        assert(attempts.take(0).len() == 0);
    } else {
        lemma_first_attempt_stays(attempts, i);
    }
}

/// After the first `n` of `attempts` have run on an unset cell, the cell
/// holds the first attempt.
proof fn lemma_first_attempt_stays<L>(attempts: Seq<(L, usize)>, n: int)
    requires
        0 < n <= attempts.len(),
    ensures
        register_all(None, attempts.take(n)) == Some(attempts[0]),
    decreases n,
{
    let prefix = attempts.take(n);
    assert(prefix.drop_last() =~= attempts.take(n - 1));
    assert(prefix.last() == attempts[n - 1]);
    if n == 1 {
        assert(attempts.take(0).len() == 0);
        assert(register_all::<L>(None, attempts.take(0)) == None::<(L, usize)>);
    } else {
        lemma_first_attempt_stays(attempts, n - 1);
    }
}

/// The default locality of a process: either unset, or the one provider that
/// was registered, together with the bound it declared at that moment.
///
/// The cell is single-assignment. Once set it changes only through
/// [`reset`].
pub struct DefaultLocality<L> {
    slot: Option<(L, usize)>,
}

impl<L> View for DefaultLocality<L> {
    type V = Option<(L, usize)>;

    closed spec fn view(&self) -> Option<(L, usize)> {
        self.slot
    }
}

impl<L: Locality> DefaultLocality<L> {
    /// Whether a provider has been registered.
    pub open spec fn is_set(&self) -> bool {
        self@.is_some()
    }

    /// The registered provider.
    pub open spec fn provider(&self) -> L
        recommends
            self.is_set(),
    {
        self@.unwrap().0
    }

    /// The bound the registered provider declared; zero while unset.
    pub open spec fn bound(&self) -> usize {
        match self@ {
            Some(entry) => entry.1,
            None => 0,
        }
    }

    /// A cell with no provider in it.
    pub fn new() -> (registry: Self)
        ensures
            registry@.is_none(),
    {
        DefaultLocality { slot: None }
    }

    /// Whether a provider has been registered.
    pub fn has_provider(&self) -> (set: bool)
        ensures
            set == self.is_set(),
    {
        self.slot.is_some()
    }

    /// The bound the registered provider declared; zero while unset.
    pub fn max_localities(&self) -> (max: usize)
        ensures
            max == self.bound(),
    {
        match &self.slot {
            Some(entry) => entry.1,
            None => 0,
        }
    }

    /// Puts `locality` into the cell if, and only if, the cell is unset.
    ///
    /// A cell that already holds a provider is left exactly as it was, and
    /// the call fails. On success the cell holds `locality` and the bound
    /// that `locality` declares.
    pub fn set(&mut self, locality: L) -> (outcome: Result<(), SetDefaultError>)
        ensures
            outcome.is_ok() <==> !old(self).is_set(),
            (final(self)@, outcome.is_ok()) == register(
                old(self)@,
                locality,
                final(self).bound(),
            ),
            old(self).is_set() ==> final(self)@ == old(self)@,
            !old(self).is_set() ==> {
                &&& final(self).is_set()
                &&& final(self).provider() == locality
                &&& call_ensures(L::max_localities, (&locality,), final(self).bound())
            },
    {
        if self.slot.is_some() {
            return Err(SetDefaultError { _p: () });
        }
        let max = locality.max_localities();
        self.slot = Some((locality, max));
        Ok(())
    }

    /// Asks the registered provider for the number of the calling context.
    pub fn current_id(&self) -> (value: usize)
        requires
            self.is_set(),
        ensures
            call_ensures(L::current_id, (&self.provider(),), value),
    {
        let entry = self.slot.as_ref().unwrap();
        entry.0.current_id()
    }
}

/// Registers `locality` as the provider of `registry`.
///
/// Exactly the first registration on a cell succeeds. Every later one gets
/// the error back and changes nothing.
pub fn set_locality<L: Locality>(registry: &mut DefaultLocality<L>, locality: L) -> (outcome:
    Result<(), SetDefaultError>)
    ensures
        outcome.is_ok() <==> !old(registry).is_set(),
        (final(registry)@, outcome.is_ok()) == register(
            old(registry)@,
            locality,
            final(registry).bound(),
        ),
        old(registry).is_set() ==> final(registry)@ == old(registry)@,
        !old(registry).is_set() ==> {
            &&& final(registry).is_set()
            &&& final(registry).provider() == locality
            &&& call_ensures(L::max_localities, (&locality,), final(registry).bound())
        },
{
    registry.set(locality)
}

/// Empties `registry`, whatever it held.
///
/// This undoes the single-assignment guarantee after the fact. It is meant
/// for the setup of a test that runs alone; no other context may be using
/// locality-partitioned data while it runs.
pub fn reset<L: Locality>(registry: &mut DefaultLocality<L>)
    ensures
        !final(registry).is_set(),
{
    registry.slot = None;
}

} // verus!
