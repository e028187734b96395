//! The slot array behind a gate: one optional value per locality.

use crate::gate::{Access, Gate};
use crate::id::{Id, Locality};
use crate::registry::DefaultLocality;
use vstd::prelude::*;

verus! {

/// What a store is, as a value: its slots, in index order, and its gate.
pub ghost struct StoreView<T> {
    /// One slot per locality; `None` until that locality first asks.
    pub slots: Seq<Option<T>>,
    /// How far the store is on the way to being usable.
    pub gate: Gate,
}

impl<T> StoreView<T> {
    /// Slots exist only behind a ready gate.
    pub open spec fn wf(self) -> bool {
        self.gate != Gate::Ready ==> self.slots.len() == 0
    }

    /// The store that nobody has touched.
    pub open spec fn fresh() -> Self {
        StoreView { slots: Seq::empty(), gate: Gate::Uninitialized }
    }

    /// The store after one accessor tried to take its gate.
    pub open spec fn entered(self) -> Self {
        StoreView { slots: self.slots, gate: self.gate.attempt().0 }
    }

    /// The store laid out with `size` empty slots and opened.
    pub open spec fn sized(size: nat) -> Self {
        StoreView { slots: Seq::new(size, |i: int| None::<T>), gate: Gate::Ready }
    }

    /// The store after an accessor that found the bound `size` has passed
    /// its gate on its own: an untouched store is laid out, unless the bound
    /// is zero; any other store is left as it is.
    pub open spec fn opened(self, size: nat) -> Self {
        if self.gate == Gate::Uninitialized && size > 0 {
            Self::sized(size)
        } else {
            self
        }
    }

    /// Whether slot `idx` exists and holds a value.
    pub open spec fn populated(self, idx: int) -> bool {
        0 <= idx < self.slots.len() && self.slots[idx].is_some()
    }

    /// The store with `value` in slot `idx`.
    pub open spec fn filled(self, idx: int, value: T) -> Self
        recommends
            0 <= idx < self.slots.len(),
    {
        StoreView { slots: self.slots.update(idx, Some(value)), gate: self.gate }
    }

    /// The store after the locality `idx` has touched its slot, where
    /// `made` is what the initializer would hand out: an empty slot takes
    /// `made`, a populated one keeps what it has.
    pub open spec fn touched(self, idx: int, made: T) -> Self
        recommends
            0 <= idx < self.slots.len(),
    {
        if self.slots[idx].is_some() {
            self
        } else {
            self.filled(idx, made)
        }
    }
}

/// The relation between a store before (`pre`) and after (`post`) one access
/// by the locality `idx`, under the bound `size`, and what the access got.
///
/// The store is first opened. If it is then not ready, or has no slot
/// `idx`, the access gets nothing and changes nothing more. Otherwise it
/// gets the value of slot `idx`: the one already there, or, for an empty
/// slot, a value that `init` returned on this very access and that the slot
/// now holds.
pub open spec fn accessed<T, I: FnOnce() -> T>(
    pre: StoreView<T>,
    post: StoreView<T>,
    size: usize,
    idx: usize,
    init: I,
    got: Option<T>,
) -> bool {
    let ready = pre.opened(size as nat);
    if ready.gate != Gate::Ready || idx >= ready.slots.len() {
        post == ready && got.is_none()
    } else {
        match ready.slots[idx as int] {
            Some(value) => post == ready && got == Some(value),
            None => {
                &&& got.is_some()
                &&& call_ensures(init, (), got.unwrap())
                &&& post == ready.filled(idx as int, got.unwrap())
            },
        }
    }
}

/// The value behind an optional reference.
pub open spec fn held<T>(got: Option<&T>) -> Option<T> {
    match got {
        Some(value) => Some(*value),
        None => None,
    }
}

/// A lazily sized array of optional values, indexed by locality.
///
/// The array is laid out once, by the first accessor, at the bound of the
/// provider in use, and never resized. A slot is filled by the first access
/// of its locality and never cleared or replaced afterwards.
#[allow(non_camel_case_types)]
pub struct __Store<T> {
    items: Vec<Option<T>>,
    initialized: Gate,
}

impl<T> View for __Store<T> {
    type V = StoreView<T>;

    closed spec fn view(&self) -> StoreView<T> {
        StoreView { slots: self.items@, gate: self.initialized }
    }
}

impl<T> __Store<T> {
    #[verifier::type_invariant]
    spec fn inv(&self) -> bool {
        self@.wf()
    }

    /// A store that nobody has touched: no slots, gate shut.
    pub fn new() -> (store: Self)
        ensures
            store@ == StoreView::<T>::fresh(),
            store@.wf(),
    {
        __Store { items: Vec::new(), initialized: Gate::Uninitialized }
    }

    /// Where the store's gate stands.
    pub fn gate(&self) -> (gate: Gate)
        ensures
            gate == self@.gate,
    {
        self.initialized
    }

    /// How many slots are laid out.
    pub fn capacity(&self) -> (n: usize)
        ensures
            n == self@.slots.len(),
    {
        self.items.len()
    }

    /// Tries to take the store's gate, as one indivisible step. The slots are not
    /// touched.
    pub fn enter(&mut self) -> (access: Access)
        ensures
            final(self)@ == old(self)@.entered(),
            access == old(self)@.gate.attempt().1,
            final(self)@.wf(),
    {
        proof {
            use_type_invariant(&*self);
        }
        match self.initialized {
            Gate::Uninitialized => {
                self.initialized = Gate::Sizing;
                Access::Size
            },
            Gate::Sizing => Access::Wait,
            Gate::Ready => Access::Proceed,
        }
    }

    /// Lays out `size` empty slots and opens its gate. This is the duty of
    /// the accessor that won the attempt, and of nobody else.
    pub fn size(&mut self, size: usize)
        requires
            old(self)@.gate == Gate::Sizing,
            size > 0,
        ensures
            final(self)@ == StoreView::<T>::sized(size as nat),
            final(self)@.wf(),
    {
        let mut items: Vec<Option<T>> = Vec::new();
        let mut n: usize = 0;
        while n < size
            invariant
                n <= size,
                items@.len() == n,
                forall|j: int| 0 <= j < n ==> items@[j].is_none(),
            decreases size - n,
        {
            items.push(None);
            n += 1;
        }
        assert(items@ =~= Seq::new(size as nat, |i: int| None::<T>));
        self.initialized = Gate::Ready;
        self.items = items;
    }

    /// Passes its gate on behalf of a single accessor that has the store to
    /// itself: takes its gate and, where that falls to it, lays out `size`
    /// slots.
    ///
    /// A store that is being sized by somebody else cannot be waited for
    /// from here, and an untouched store cannot be laid out with no slots at
    /// all; both are left to the caller.
    pub fn initialize(&mut self, size: usize)
        requires
            old(self)@.gate != Gate::Sizing,
            old(self)@.gate == Gate::Uninitialized ==> size > 0,
        ensures
            final(self)@ == old(self)@.opened(size as nat),
            final(self)@.gate == Gate::Ready,
            final(self)@.wf(),
    {
        match self.enter() {
            Access::Size => {
                self.size(size);
            },
            Access::Wait => {},
            Access::Proceed => {},
        }
    }

    /// The value of the locality `id`, made by `init` if the slot is still
    /// empty. No other slot is touched, and a populated slot is handed out
    /// as it is, without a call of `init`.
    pub fn slot<I: FnOnce() -> T>(&mut self, id: Id, init: I) -> (value: &T)
        requires
            old(self)@.gate == Gate::Ready,
            id@ < old(self)@.slots.len(),
            old(self)@.slots[id@ as int].is_none() ==> call_requires(init, ()),
        ensures
            final(self)@ == old(self)@.touched(id@ as int, *value),
            final(self)@.slots[id@ as int] == Some(*value),
            old(self)@.slots[id@ as int].is_none() ==> call_ensures(init, (), *value),
            final(self)@.wf(),
    {
        let idx = id.into_usize();
        if self.items[idx].is_none() {
            let made = init();
            self.items[idx] = Some(made);
            assert(self@ == old(self)@.filled(idx as int, made));
        }
        self.items[idx].as_ref().unwrap()
    }

    /// One whole access by the locality `id` under the bound `size`: pass
    /// its gate, then hand out the slot of `id`.
    ///
    /// Nothing is handed out where the store is being sized by somebody
    /// else, where it is untouched and `size` is zero, or where `id` is at
    /// or beyond the number of slots.
    pub fn get_for<I: FnOnce() -> T>(&mut self, size: usize, id: Id, init: I) -> (got: Option<&T>)
        requires
            call_requires(init, ()),
        ensures
            accessed(
                old(self)@,
                final(self)@,
                size,
                id@,
                init,
                held(got),
            ),
            final(self)@.wf(),
    {
        proof {
            use_type_invariant(&*self);
        }
        match self.initialized {
            Gate::Uninitialized => {
                if size == 0 {
                    return None;
                }
                self.initialize(size);
            },
            Gate::Sizing => {
                return None;
            },
            Gate::Ready => {},
        }
        if id.into_usize() >= self.items.len() {
            return None;
        }
        Some(self.slot(id, init))
    }

    /// One whole access by the calling context: ask the provider in
    /// `registry` who is calling, then do as [`Self::get_for`] does under
    /// the registered bound.
    ///
    /// Without a provider nothing is handed out and nothing changes.
    pub fn get<L: Locality, I: FnOnce() -> T>(
        &mut self,
        registry: &DefaultLocality<L>,
        init: I,
    ) -> (got: Option<&T>)
        requires
            call_requires(init, ()),
        ensures
            !registry.is_set() ==> got.is_none() && final(self)@ == old(self)@,
            registry.is_set() ==> exists|idx: usize|
                {
                    &&& call_ensures(L::current_id, (&registry.provider(),), idx)
                    &&& #[trigger] accessed(
                        old(self)@,
                        final(self)@,
                        registry.bound(),
                        idx,
                        init,
                        held(got),
                    )
                },
            final(self)@.wf(),
    {
        proof {
            use_type_invariant(&*self);
        }
        if !registry.has_provider() {
            return None;
        }
        let id = Id::current(registry);
        self.get_for(registry.max_localities(), id, init)
    }

    /// The value that the locality `id` holds, if its slot exists and has
    /// been populated. Nothing is created.
    pub fn peek(&self, id: Id) -> (got: Option<&T>)
        ensures
            got.is_some() <==> self@.populated(id@ as int),
            got.is_some() ==> self@.slots[id@ as int] == Some(*got.unwrap()),
    {
        let idx = id.into_usize();
        if idx < self.items.len() {
            self.items[idx].as_ref()
        } else {
            None
        }
    }
}

} // verus!
