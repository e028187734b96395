use locality::{reset, set_locality, DefaultLocality, Id, Locality, SetDefaultError};
use std::collections::HashSet;

/// A provider that always names the same locality.
struct Fixed {
    id: usize,
    bound: usize,
}

impl Locality for Fixed {
    fn max_localities(&self) -> usize {
        self.bound
    }

    fn current_id(&self) -> usize {
        self.id
    }
}

#[test]
fn first_registration_wins() {
    let mut registry = DefaultLocality::new();
    assert!(!registry.has_provider());
    assert_eq!(registry.max_localities(), 0);

    let first = set_locality(&mut registry, Fixed { id: 3, bound: 4 });
    assert!(first.is_ok());
    assert!(registry.has_provider());
    assert_eq!(registry.max_localities(), 4);

    let second = set_locality(&mut registry, Fixed { id: 5, bound: 9 });
    assert!(second.is_err());
    assert!(registry.has_provider());
    assert_eq!(registry.max_localities(), 4);
    assert_eq!(Id::current(&registry).into_usize(), 3);
    assert_eq!(registry.current_id(), 3);
}

#[test]
fn every_later_registration_fails() {
    let mut registry = DefaultLocality::new();
    let mut won = 0;
    for id in 0..10 {
        if registry.set(Fixed { id, bound: id + 1 }).is_ok() {
            won += 1;
        }
    }
    assert_eq!(won, 1);
    assert_eq!(registry.current_id(), 0);
    assert_eq!(registry.max_localities(), 1);
}

#[test]
fn refusal_says_why() {
    let mut registry = DefaultLocality::new();
    set_locality(&mut registry, Fixed { id: 0, bound: 1 }).unwrap();
    let refused: SetDefaultError = set_locality(&mut registry, Fixed { id: 1, bound: 1 }).unwrap_err();
    assert_eq!(refused.message(), "default locality was already set!");
}

#[test]
fn reset_empties_the_registry() {
    let mut registry = DefaultLocality::new();
    set_locality(&mut registry, Fixed { id: 1, bound: 2 }).unwrap();
    reset(&mut registry);
    assert!(!registry.has_provider());
    assert_eq!(registry.max_localities(), 0);
    assert!(set_locality(&mut registry, Fixed { id: 6, bound: 8 }).is_ok());
    assert_eq!(Id::current(&registry).into_usize(), 6);
    assert_eq!(registry.max_localities(), 8);
}

#[test]
fn a_provider_may_declare_no_localities() {
    let mut registry = DefaultLocality::new();
    assert!(set_locality(&mut registry, Fixed { id: 0, bound: 0 }).is_ok());
    assert!(registry.has_provider());
    assert_eq!(registry.max_localities(), 0);
    assert!(set_locality(&mut registry, Fixed { id: 0, bound: 3 }).is_err());
    assert_eq!(registry.max_localities(), 0);
}

#[test]
fn identifiers_compare_by_value() {
    let a = Id::from_usize(7);
    let b = Id::from_usize(7);
    let c = Id::from_usize(8);
    assert_eq!(a, b);
    assert_ne!(a, c);
    assert_eq!(a.into_usize(), 7);
    assert_eq!(Id::from_usize(0).into_usize(), 0);
    assert_eq!(Id::from_usize(usize::MAX).into_usize(), usize::MAX);

    let mut set = HashSet::new();
    set.insert(a);
    assert!(set.contains(&b));
    assert!(!set.contains(&c));
}
