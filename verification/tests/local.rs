use locality::{reset, set_locality, AccessError, DefaultLocality, Gate, LocalKey, Locality};
use std::cell::{Cell, RefCell};
use std::rc::Rc;

type Span = u32;

/// A provider over two cores; the test decides which core is running.
struct Foo {
    core_id: Rc<Cell<usize>>,
}

impl Locality for Foo {
    fn max_localities(&self) -> usize {
        2
    }

    fn current_id(&self) -> usize {
        self.core_id.get()
    }
}

#[test]
#[should_panic]
fn span_stores_data_without_setting_locality() {
    let mut registry = DefaultLocality::<Foo>::new();
    reset(&mut registry);
    let mut span = LocalKey::new(|| RefCell::new(None::<Span>));
    span.try_with(&registry, |s| {
        *s.borrow_mut() = Some(8);
    })
    .expect("cannot access a locality-partitioned value without a locality");
}

#[test]
fn span_stores_data_after_setting_locality() {
    let core_id = Rc::new(Cell::new(0));
    let mut registry = DefaultLocality::new();
    let mut span = LocalKey::new(|| RefCell::new(None::<Span>));
    set_locality(
        &mut registry,
        Foo {
            core_id: core_id.clone(),
        },
    )
    .expect("first call to set_locality should succeed");

    span.with(&registry, |s| {
        *s.borrow_mut() = Some(8);
    });

    span.with(&registry, |s| assert_eq!(*s.borrow(), Some(8)));
    core_id.set(1);
    span.with(&registry, |s| assert_eq!(*s.borrow(), None));
}

#[test]
fn values_of_two_localities_do_not_mix() {
    let core_id = Rc::new(Cell::new(0));
    let mut registry = DefaultLocality::new();
    set_locality(
        &mut registry,
        Foo {
            core_id: core_id.clone(),
        },
    )
    .unwrap();
    let mut key = LocalKey::new(|| Cell::new(0u32));

    key.with(&registry, |c| c.set(8));
    core_id.set(1);
    key.with(&registry, |c| c.set(15));
    assert_eq!(key.with(&registry, |c| c.get()), 15);
    core_id.set(0);
    assert_eq!(key.with(&registry, |c| c.get()), 8);
}

#[test]
fn with_returns_what_the_closure_returns() {
    let core_id = Rc::new(Cell::new(1));
    let mut registry = DefaultLocality::new();
    set_locality(&mut registry, Foo { core_id }).unwrap();
    let mut key = LocalKey::new(|| 20i32);
    assert_eq!(key.with(&registry, |v| *v + 1), 21);
    assert_eq!(key.try_with(&registry, |v| *v * 2), Ok(40));
}

#[test]
fn initializer_runs_once_per_locality() {
    let calls = Rc::new(Cell::new(0u32));
    let seen = calls.clone();
    let core_id = Rc::new(Cell::new(0));
    let mut registry = DefaultLocality::new();
    set_locality(
        &mut registry,
        Foo {
            core_id: core_id.clone(),
        },
    )
    .unwrap();
    let mut key = LocalKey::new(move || {
        seen.set(seen.get() + 1);
        seen.get()
    });
    assert_eq!(calls.get(), 0);

    assert_eq!(key.with(&registry, |v| *v), 1);
    assert_eq!(key.with(&registry, |v| *v), 1);
    assert_eq!(calls.get(), 1);
    core_id.set(1);
    assert_eq!(key.with(&registry, |v| *v), 2);
    assert_eq!(key.with(&registry, |v| *v), 2);
    core_id.set(0);
    assert_eq!(key.with(&registry, |v| *v), 1);
    assert_eq!(calls.get(), 2);
}

#[test]
fn try_with_fails_without_a_provider() {
    let registry = DefaultLocality::<Foo>::new();
    let mut key = LocalKey::new(|| 5u8);
    let ran = Cell::new(false);
    let outcome = key.try_with(&registry, |v| {
        ran.set(true);
        *v
    });
    assert!(outcome.is_err());
    assert!(!ran.get());
}

#[test]
fn try_with_fails_beyond_the_bound() {
    let core_id = Rc::new(Cell::new(2));
    let mut registry = DefaultLocality::new();
    set_locality(
        &mut registry,
        Foo {
            core_id: core_id.clone(),
        },
    )
    .unwrap();
    let mut key = LocalKey::new(|| 5u8);
    assert!(key.try_with(&registry, |v| *v).is_err());
    core_id.set(1);
    assert_eq!(key.try_with(&registry, |v| *v), Ok(5));
    core_id.set(7);
    let failed: Result<u8, AccessError> = key.try_with(&registry, |v| *v);
    assert!(failed.is_err());
}

#[test]
fn gate_codes_round_trip() {
    assert_eq!(Gate::from_u8(0), Some(Gate::Uninitialized));
    assert_eq!(Gate::from_u8(1), Some(Gate::Sizing));
    assert_eq!(Gate::from_u8(2), Some(Gate::Ready));
    assert_eq!(Gate::from_u8(3), None);
    assert_eq!(Gate::from_u8(255), None);
    assert_eq!(Gate::Uninitialized.to_u8(), 0);
    assert_eq!(Gate::Sizing.to_u8(), 1);
    assert_eq!(Gate::Ready.to_u8(), 2);
}
