use locality::{set_locality, DefaultLocality, LocalKey, Locality, ThreadLocality};
use std::cell::{Cell, RefCell};
use std::rc::Rc;

type Span = u32;

/// Two threads of which the test runs one at a time, each with the cell in
/// which it keeps its number.
struct Threads {
    counter: RefCell<ThreadLocality>,
    cells: [Cell<Option<usize>>; 2],
    running: Rc<Cell<usize>>,
}

impl Locality for Threads {
    fn max_localities(&self) -> usize {
        8
    }

    fn current_id(&self) -> usize {
        let cell = &self.cells[self.running.get()];
        let mut cached = cell.get();
        let id = self.counter.borrow_mut().current(&mut cached);
        cell.set(cached);
        id.into_usize()
    }
}

#[test]
fn span_stores_data() {
    let running = Rc::new(Cell::new(0));
    let mut registry = DefaultLocality::new();
    set_locality(
        &mut registry,
        Threads {
            counter: RefCell::new(ThreadLocality::new()),
            cells: [Cell::new(None), Cell::new(None)],
            running: running.clone(),
        },
    )
    .unwrap();
    let mut span = LocalKey::new(|| RefCell::new(None::<Span>));

    span.with(&registry, |s| {
        *s.borrow_mut() = Some(8);
    });

    running.set(1);
    span.with(&registry, |span| {
        assert!(span.borrow().is_none());
    });

    running.set(0);
    span.with(&registry, |s| assert_eq!(*s.borrow(), Some(8)));
}

#[test]
fn threads_are_numbered_from_one() {
    let mut counter = ThreadLocality::new();
    let mut first = None;
    let mut second = None;
    assert_eq!(counter.current(&mut first).into_usize(), 1);
    assert_eq!(first, Some(1));
    assert_eq!(counter.current(&mut second).into_usize(), 2);
    assert_eq!(second, Some(2));
    assert_eq!(counter.current(&mut first).into_usize(), 1);
    assert_eq!(counter.current(&mut second).into_usize(), 2);
    let mut third = None;
    assert_eq!(counter.current(&mut third).into_usize(), 3);
    assert_eq!(first, Some(1));
}

#[test]
fn a_cached_number_is_told_again() {
    let mut counter = ThreadLocality::new();
    let mut cached = Some(41);
    assert_eq!(counter.current(&mut cached).into_usize(), 41);
    assert_eq!(cached, Some(41));
    let mut fresh = None;
    assert_eq!(counter.current(&mut fresh).into_usize(), 1);
}
