//! The initialization cells and the panic-handler registry.

use std::cell::Cell;

use minhook::cell::{Error as CellError, StaticInitCell, StaticRwCell as InitSideRwCell};
use minhook::panics::{notify_handler, set_handler, take_handler, DetourPanicInfo};
use minhook::sync::{AtomicInitCell, StaticRwCell};

#[test]
fn static_init_cell_first_writer_wins() {
    let mut cell: StaticInitCell<i32> = StaticInitCell::new();
    assert_eq!(cell.initialize(4), Ok(()));
    assert_eq!(cell.get(), Ok(&4));
    assert_eq!(cell.get(), Ok(&4));
    assert_eq!(cell.initialize(5), Err(CellError::AlreadyInitialized));
    assert_eq!(cell.get(), Ok(&4));
}

#[test]
fn static_init_cell_dies_on_premature_read() {
    let mut cell: StaticInitCell<i32> = StaticInitCell::new();
    assert_eq!(cell.get(), Err(CellError::AccessedBeforeInitialization));
    // the premature read consumed the one shot: the cell is dead for good
    assert_eq!(
        cell.initialize(4),
        Err(CellError::AccessedBeforeInitialization)
    );
    assert_eq!(cell.get(), Err(CellError::AccessedBeforeInitialization));
}

#[test]
fn atomic_init_cell_single_write() {
    let mut cell: AtomicInitCell<i32> = AtomicInitCell::new();
    assert_eq!(cell.get(), None);
    assert_eq!(cell.initialize(7), Ok(()));
    assert_eq!(cell.get(), Some(&7));
    // the losing write fails cleanly and the published value stays
    assert_eq!(cell.initialize(9), Err(()));
    assert_eq!(cell.get(), Some(&7));
    assert_eq!(cell.get(), Some(&7));
}

#[test]
fn rw_cell_set_with_take() {
    let mut cell: StaticRwCell<Option<i32>> = StaticRwCell::new(Some(1));
    assert_eq!(cell.with(|v: &Option<i32>| *v), Some(1));
    cell.set(Some(2));
    assert_eq!(*cell.borrow(), Some(2));
    assert_eq!(cell.take(), Some(2));
    assert_eq!(cell.take(), None);
    assert_eq!(*cell.borrow(), None);
}

#[test]
fn init_side_rw_cell_replaces_and_takes() {
    let mut cell: InitSideRwCell<Option<&'static str>> = InitSideRwCell::new(None);
    cell.set(Some("first"));
    assert_eq!(cell.with(|v: &Option<&'static str>| *v), Some("first"));
    cell.set(Some("second"));
    assert_eq!(cell.take(), Some("second"));
    assert_eq!(cell.take(), None);
}

#[test]
fn panic_info_carries_payload_and_name() {
    let info = DetourPanicInfo::new(String::from("boom"), String::from("my_hook"));
    assert_eq!(info.payload(), "boom");
    assert_eq!(info.detour(), "my_hook");
}

#[test]
fn handler_registry_set_take() {
    type Handler = fn(&DetourPanicInfo<String>) -> ();
    fn h1(_info: &DetourPanicInfo<String>) {}

    let mut registry: StaticRwCell<Option<Handler>> = StaticRwCell::new(None);
    assert!(take_handler(&mut registry).is_none());
    set_handler(&mut registry, h1 as Handler);
    // taking unregisters: the handler is handed out exactly once
    assert!(take_handler(&mut registry).is_some());
    assert!(take_handler(&mut registry).is_none());
}

#[test]
fn notify_reaches_registered_handler_once() {
    let seen: Cell<u32> = Cell::new(0);
    let handler = |info: &DetourPanicInfo<String>| {
        assert_eq!(info.payload(), "payload text");
        assert_eq!(info.detour(), "hooked_fn");
        seen.set(seen.get() + 1);
    };

    let registry = StaticRwCell::new(Some(handler));
    let info = DetourPanicInfo::new(String::from("payload text"), String::from("hooked_fn"));
    assert!(notify_handler(&registry, &info));
    assert_eq!(seen.get(), 1);
}

#[test]
fn notify_without_handler_reports_default_path() {
    type Handler = fn(&DetourPanicInfo<String>) -> ();
    let registry: StaticRwCell<Option<Handler>> = StaticRwCell::new(None);
    let info = DetourPanicInfo::new(String::from("boom"), String::from("hooked_fn"));
    // no handler ran: the runtime falls back to its default report
    assert!(!notify_handler(&registry, &info));
}
