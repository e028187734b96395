//! What holds of a store over every run of the steps that accessors take.
//!
//! Accessors touch a store only through three indivisible steps: an attempt
//! to take the store's gate, the layout of the slots by the accessor that won,
//! and the first-touch access of a slot. However the steps of concurrent
//! accessors interleave, the store goes through some sequence of them; the
//! lemmas here hold of every such sequence.

use crate::gate::Gate;
use crate::store::{accessed, StoreView};
use vstd::prelude::*;

verus! {

/// One indivisible step of an accessor.
pub ghost enum Step<T> {
    /// An attempt to take the store's gate.
    Enter,
    /// The layout of that many slots.
    Size(nat),
    /// An access of that slot, with what the initializer would hand out.
    Touch(int, T),
}

impl<T> StoreView<T> {
    /// Whether `step`, taken on this store, lays out the slots. Only the
    /// accessor that won the attempt does so, and never with no slots.
    pub open spec fn sizes(self, step: Step<T>) -> bool {
        match step {
            Step::Size(n) => self.gate == Gate::Sizing && n > 0,
            _ => false,
        }
    }

    /// Whether `step`, taken on this store, calls the initializer for the
    /// slot `idx`: it is an access of that slot, and finds it empty.
    pub open spec fn makes(self, step: Step<T>, idx: int) -> bool {
        match step {
            Step::Touch(at, _) => {
                &&& at == idx
                &&& self.gate == Gate::Ready
                &&& 0 <= idx < self.slots.len()
                &&& self.slots[idx].is_none()
            },
            _ => false,
        }
    }

    /// The store after `step`. A step that is not due (a layout by somebody
    /// who did not win the attempt, an access of a store that is not ready or
    /// of a slot that is not there) leaves the store as it is.
    pub open spec fn step(self, step: Step<T>) -> Self {
        match step {
            Step::Enter => self.entered(),
            Step::Size(n) => if self.sizes(step) {
                Self::sized(n)
            } else {
                self
            },
            Step::Touch(idx, made) => if self.gate == Gate::Ready && 0 <= idx < self.slots.len() {
                self.touched(idx, made)
            } else {
                self
            },
        }
    }

    /// The store after `steps`, taken in order.
    pub open spec fn run(self, steps: Seq<Step<T>>) -> Self
        decreases steps.len(),
    {
        if steps.len() == 0 {
            self
        } else {
            self.run(steps.drop_last()).step(steps.last())
        }
    }

    /// How many of `steps` lay out the slots.
    pub open spec fn layouts(self, steps: Seq<Step<T>>) -> nat
        decreases steps.len(),
    {
        if steps.len() == 0 {
            0
        } else {
            let before = self.run(steps.drop_last());
            self.layouts(steps.drop_last()) + if before.sizes(steps.last()) {
                1nat
            } else {
                0nat
            }
        }
    }

    /// How many of `steps` call the initializer for the slot `idx`.
    pub open spec fn makings(self, steps: Seq<Step<T>>, idx: int) -> nat
        decreases steps.len(),
    {
        if steps.len() == 0 {
            0
        } else {
            let before = self.run(steps.drop_last());
            self.makings(steps.drop_last(), idx) + if before.makes(steps.last(), idx) {
                1nat
            } else {
                0nat
            }
        }
    }
}

/// The steps that one whole access by the locality `idx` takes on the store
/// `pre` under the bound `size`, where `got` is what the access hands out:
/// an attempt on its gate unless the store is untouched and the bound is
/// zero, the layout if the attempt wins, and the access of the slot if there
/// is one.
pub open spec fn access_steps<T>(pre: StoreView<T>, size: nat, idx: int, got: Option<T>) -> Seq<
    Step<T>,
> {
    let opening = if pre.gate != Gate::Uninitialized {
        seq![Step::Enter]
    } else if size > 0 {
        seq![Step::Enter, Step::Size(size)]
    } else {
        Seq::empty()
    };
    match got {
        Some(value) => opening.push(Step::Touch(idx, value)),
        None => opening,
    }
}

/// One whole access is a run of steps: what is proved of every run holds of
/// every sequence of accesses, whoever makes them.
pub proof fn lemma_access_is_a_run<T, I: FnOnce() -> T>(
    pre: StoreView<T>,
    post: StoreView<T>,
    size: usize,
    idx: usize,
    init: I,
    got: Option<T>,
)
    requires
        pre.wf(),
        accessed(pre, post, size, idx, init, got),
    ensures
        post == pre.run(access_steps(pre, size as nat, idx as int, got)),
{
    let steps = access_steps(pre, size as nat, idx as int, got);
    let opening = access_steps(pre, size as nat, idx as int, None);
    let ready = pre.opened(size as nat);
    assert(pre.run(opening) == ready) by {
        reveal_with_fuel(StoreView::run, 3);
        if pre.gate != Gate::Uninitialized {
            assert(opening.drop_last() =~= Seq::<Step<T>>::empty());
        } else if size > 0 {
            let first = seq![Step::<T>::Enter];
            assert(opening.drop_last() =~= first);
            assert(first.drop_last() =~= Seq::<Step<T>>::empty());
        }
    }
    if got.is_some() {
        assert(steps.drop_last() =~= opening);
        assert(steps.last() == Step::Touch(idx as int, got.unwrap()));
        assert(post.slots =~= ready.touched(idx as int, got.unwrap()).slots);
    }
}

/// A value held or written under one locality is never seen under another:
/// an access of slot `a`, and a write to it, leave every other slot `b` as
/// it was.
pub proof fn lemma_isolation<T>(store: StoreView<T>, a: int, b: int, value: T)
    requires
        a != b,
        0 <= a < store.slots.len(),
        0 <= b < store.slots.len(),
    ensures
        store.touched(a, value).slots[b] == store.slots[b],
        store.filled(a, value).slots[b] == store.slots[b],
{
}

/// One whole access by the locality `a` leaves the slot of every other
/// locality `b` as it was when the store was opened.
pub proof fn lemma_access_is_private<T, I: FnOnce() -> T>(
    pre: StoreView<T>,
    post: StoreView<T>,
    size: usize,
    a: usize,
    b: usize,
    init: I,
    got: Option<T>,
)
    requires
        a != b,
        accessed(pre, post, size, a, init, got),
        b < post.slots.len(),
    ensures
        post.slots.len() == pre.opened(size as nat).slots.len(),
        post.slots[b as int] == pre.opened(size as nat).slots[b as int],
{
}

/// One whole access of a ready store leaves it ready and of the same
/// capacity, and leaves every populated slot as it is.
pub proof fn lemma_access_keeps_ready_store<T, I: FnOnce() -> T>(
    pre: StoreView<T>,
    post: StoreView<T>,
    size: usize,
    idx: usize,
    init: I,
    got: Option<T>,
)
    requires
        pre.gate == Gate::Ready,
        accessed(pre, post, size, idx, init, got),
    ensures
        post.gate == Gate::Ready,
        post.slots.len() == pre.slots.len(),
        forall|i: int| #[trigger] pre.populated(i) ==> post.slots[i] == pre.slots[i],
        pre.populated(idx as int) ==> post == pre && got == pre.slots[idx as int],
{
}

/// First accesses of different slots do not race: in whichever order two of
/// them land, the store ends up the same.
pub proof fn lemma_touches_commute<T>(store: StoreView<T>, a: int, x: T, b: int, y: T)
    requires
        a != b,
        0 <= a < store.slots.len(),
        0 <= b < store.slots.len(),
    ensures
        store.touched(a, x).touched(b, y) == store.touched(b, y).touched(a, x),
{
    assert(store.touched(a, x).touched(b, y).slots =~= store.touched(b, y).touched(a, x).slots);
}

/// A step keeps a store well formed, keeps a ready store ready and of the
/// same capacity, and keeps every populated slot as it is.
pub proof fn lemma_step_keeps<T>(store: StoreView<T>, step: Step<T>)
    requires
        store.wf(),
    ensures
        store.step(step).wf(),
        store.gate == Gate::Ready ==> {
            &&& store.step(step).gate == Gate::Ready
            &&& store.step(step).slots.len() == store.slots.len()
            &&& !store.sizes(step)
        },
        forall|i: int| #[trigger]
            store.populated(i) ==> store.step(step).slots[i] == store.slots[i]
                && store.step(step).populated(i),
{
}

/// Sizing happens once. Once a store is ready, no run of steps changes its
/// capacity or shuts its gate again, and none of them lays out the slots.
pub proof fn lemma_capacity_is_fixed<T>(store: StoreView<T>, steps: Seq<Step<T>>)
    requires
        store.wf(),
        store.gate == Gate::Ready,
    ensures
        store.run(steps).wf(),
        store.run(steps).gate == Gate::Ready,
        store.run(steps).slots.len() == store.slots.len(),
        store.layouts(steps) == 0,
    decreases steps.len(),
{
    if steps.len() > 0 {
        lemma_capacity_is_fixed(store, steps.drop_last());
        lemma_step_keeps(store.run(steps.drop_last()), steps.last());
    }
}

/// However many accessors race for a store, and however their steps
/// interleave, the slots are laid out at most once; and while its gate is
/// not open they have not been laid out at all.
pub proof fn lemma_sized_at_most_once<T>(store: StoreView<T>, steps: Seq<Step<T>>)
    requires
        store.wf(),
    ensures
        store.run(steps).wf(),
        store.layouts(steps) <= 1,
        store.run(steps).gate != Gate::Ready ==> store.layouts(steps) == 0,
        store.gate == Gate::Ready ==> store.layouts(steps) == 0,
    decreases steps.len(),
{
    if steps.len() > 0 {
        lemma_sized_at_most_once(store, steps.drop_last());
        lemma_step_keeps(store.run(steps.drop_last()), steps.last());
        if store.gate == Gate::Ready {
            lemma_capacity_is_fixed(store, steps.drop_last());
        }
    }
}

/// From the moment a run has opened its gate, the capacity stays what it is
/// at that moment: after the first `k` steps and after all of them it is the
/// same.
pub proof fn lemma_capacity_since_ready<T>(store: StoreView<T>, steps: Seq<Step<T>>, k: int)
    requires
        store.wf(),
        0 <= k <= steps.len(),
        store.run(steps.take(k)).gate == Gate::Ready,
    ensures
        store.run(steps).gate == Gate::Ready,
        store.run(steps).slots.len() == store.run(steps.take(k)).slots.len(),
    decreases steps.len(),
{
    if k == steps.len() {
        assert(steps.take(k) =~= steps);
    } else {
        assert(steps.drop_last().take(k) =~= steps.take(k));
        lemma_capacity_since_ready(store, steps.drop_last(), k);
        lemma_sized_at_most_once(store, steps.drop_last());
        lemma_step_keeps(store.run(steps.drop_last()), steps.last());
    }
}

/// A populated slot is never cleared or replaced: through every run of
/// steps it holds what it held.
pub proof fn lemma_populated_slot_stays<T>(store: StoreView<T>, steps: Seq<Step<T>>, idx: int)
    requires
        store.wf(),
        store.populated(idx),
    ensures
        store.run(steps).wf(),
        store.run(steps).populated(idx),
        store.run(steps).slots[idx] == store.slots[idx],
        store.makings(steps, idx) == 0,
    decreases steps.len(),
{
    if steps.len() > 0 {
        lemma_populated_slot_stays(store, steps.drop_last(), idx);
        lemma_step_keeps(store.run(steps.drop_last()), steps.last());
    }
}

/// The initializer runs at most once for a slot, however many accesses
/// there are and however they interleave with those of other slots; and as
/// long as the slot is empty it has not run for it at all.
pub proof fn lemma_made_at_most_once<T>(store: StoreView<T>, steps: Seq<Step<T>>, idx: int)
    requires
        store.wf(),
    ensures
        store.run(steps).wf(),
        store.makings(steps, idx) <= 1,
        !store.run(steps).populated(idx) ==> store.makings(steps, idx) == 0,
    decreases steps.len(),
{
    if steps.len() > 0 {
        lemma_made_at_most_once(store, steps.drop_last(), idx);
        lemma_step_keeps(store.run(steps.drop_last()), steps.last());
    }
}

} // verus!
