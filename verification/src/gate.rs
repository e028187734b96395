//! The three-state gate that lets exactly one accessor size a store.

use vstd::prelude::*;

verus! {

/// Where a store stands on the way to being usable.
///
/// A gate only ever moves forward: from `Uninitialized` to `Sizing` when
/// the first accessor arrives, and from `Sizing` to `Ready` when that
/// accessor has laid out the slots.
#[derive(Clone, Copy, Debug, PartialEq, Eq, Structural)]
pub enum Gate {
    /// Nobody has touched the store yet.
    Uninitialized,
    /// One accessor is laying out the slots; nobody may index them.
    Sizing,
    /// The slots are laid out for good.
    Ready,
}

/// What an accessor has to do after it tried to take a gate.
#[derive(Clone, Copy, Debug, PartialEq, Eq, Structural)]
pub enum Access {
    /// It won: it must lay out the slots, then publish `Ready`.
    Size,
    /// Somebody else is laying out the slots: poll until that gate is `Ready`.
    Wait,
    /// The slots are there: go on and index them.
    Proceed,
}

impl Gate {
    /// A gate after one attempt to take it, and the duty of the accessor
    /// that made the attempt.
    pub open spec fn attempt(self) -> (Gate, Access) {
        match self {
            Gate::Uninitialized => (Gate::Sizing, Access::Size),
            Gate::Sizing => (Gate::Sizing, Access::Wait),
            Gate::Ready => (Gate::Ready, Access::Proceed),
        }
    }

    /// The number that stands for this state in a one-byte cell.
    pub open spec fn code(self) -> u8 {
        match self {
            Gate::Uninitialized => 0,
            Gate::Sizing => 1,
            Gate::Ready => 2,
        }
    }

    /// A gate that nobody has touched.
    pub fn new() -> (gate: Gate)
        ensures
            gate == Gate::Uninitialized,
    {
        Gate::Uninitialized
    }

    /// Tries to move this gate from `Uninitialized` to `Sizing`, as one
    /// indivisible step, and tells the caller what it has to do next.
    pub fn enter(&mut self) -> (access: Access)
        ensures
            (*final(self), access) == old(self).attempt(),
    {
        match *self {
            Gate::Uninitialized => {
                *self = Gate::Sizing;
                Access::Size
            },
            Gate::Sizing => Access::Wait,
            Gate::Ready => Access::Proceed,
        }
    }

    /// Publishes that the slots are laid out. Only the accessor that was
    /// told to size may call this, so this gate is in `Sizing`.
    pub fn publish(&mut self)
        requires
            *old(self) == Gate::Sizing,
        ensures
            *final(self) == Gate::Ready,
    {
        *self = Gate::Ready;
    }

    /// Whether the slots may be indexed.
    pub fn is_ready(&self) -> (ready: bool)
        ensures
            ready == (*self == Gate::Ready),
    {
        match self {
            Gate::Ready => true,
            _ => false,
        }
    }

    /// The number that stands for this state in a one-byte cell.
    pub fn to_u8(self) -> (code: u8)
        ensures
            code == self.code(),
    {
        match self {
            Gate::Uninitialized => 0,
            Gate::Sizing => 1,
            Gate::Ready => 2,
        }
    }

    /// The state that `code` stands for, if it stands for one.
    pub fn from_u8(code: u8) -> (gate: Option<Gate>)
        ensures
            code > 2 ==> gate.is_none(),
            code <= 2 ==> gate.is_some() && gate.unwrap().code() == code,
    {
        if code == 0 {
            Some(Gate::Uninitialized)
        } else if code == 1 {
            Some(Gate::Sizing)
        } else if code == 2 {
            Some(Gate::Ready)
        } else {
            None
        }
    }
}

/// A gate after `n` accessors have each tried once to take it.
pub open spec fn after_attempts(gate: Gate, n: nat) -> Gate
    decreases n,
{
    if n == 0 {
        gate
    } else {
        after_attempts(gate, (n - 1) as nat).attempt().0
    }
}

/// What the accessor that makes attempt number `i` (counted from zero) on
/// `gate` is told to do.
pub open spec fn duty(gate: Gate, i: nat) -> Access {
    after_attempts(gate, i).attempt().1
}

/// Of any number of accessors that race for a fresh gate, the first to land
/// its attempt is told to size, and nobody else is: the slots are laid out
/// by one accessor only.
pub proof fn lemma_one_sizer(i: nat)
    ensures
        duty(Gate::Uninitialized, i) == Access::Size <==> i == 0,
        i > 0 ==> after_attempts(Gate::Uninitialized, i) == Gate::Sizing,
        i > 0 ==> duty(Gate::Uninitialized, i) == Access::Wait,
    decreases i,
{
    if i > 0 {
        lemma_one_sizer((i - 1) as nat);
    }
}

/// A ready gate stays ready, and everyone who tries it is told to proceed.
pub proof fn lemma_ready_is_final(i: nat)
    ensures
        after_attempts(Gate::Ready, i) == Gate::Ready,
        duty(Gate::Ready, i) == Access::Proceed,
    decreases i,
{
    if i > 0 {
        lemma_ready_is_final((i - 1) as nat);
    }
}

} // verus!
