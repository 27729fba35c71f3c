//! Write-once and replaceable cells for process-lifetime hook state.
//!
//! A static hook needs exactly-once initialization and lock-free reads on the
//! path that every detour invocation takes. In the native setting
//! [`AtomicInitCell`] publishes its value by one compare-and-swap, so a single
//! write succeeds, later writers fail cleanly without blocking, and readers
//! after publication never block and never observe a half-constructed value.
//! [`StaticRwCell`] guards a replaceable value: reads share it, a replacement
//! excludes them. The cells are carried here as explicitly owned state with
//! exactly that discipline: once a value is published it is never mutated or
//! withdrawn, and a losing writer's value is discarded without ever being
//! observed.

use vstd::prelude::*;

verus! {

/// A cell written successfully at most once and read lock-free thereafter.
#[derive(Debug)]
pub struct AtomicInitCell<T> {
    data: Option<T>,
}

impl<T> AtomicInitCell<T> {
    /// The published value, if one has been published.
    pub closed spec fn value(&self) -> Option<T> {
        self.data
    }

    /// An empty cell, ready for one publication.
    pub fn new() -> (r: AtomicInitCell<T>)
        ensures
            r.value() is None,
    {
        AtomicInitCell { data: None }
    }

    /// Publishes a value into an empty cell. On a cell that already holds a
    /// value this is an ownership conflict: it fails cleanly, the cell keeps
    /// its first value, and the losing value is discarded without ever being
    /// observed.
    pub fn initialize(&mut self, value: T) -> (r: Result<(), ()>)
        ensures
            old(self).value() is None ==> r is Ok && final(self).value() == Some(value),
            old(self).value() is Some ==> r is Err && final(self).value() == old(self).value(),
    {
        if self.data.is_some() {
            return Err(());
        }
        self.data = Some(value);
        Ok(())
    }

    /// The published value, if any. Reading never blocks, and after a
    /// successful publication every read observes that same value.
    pub fn get(&self) -> (r: Option<&T>)
        ensures
            match r {
                Some(v) => self.value() == Some(*v),
                None => self.value() is None,
            },
    {
        self.data.as_ref()
    }
}

/// A cell holding one replaceable value. In the native setting reads take a
/// shared lock and a replacement takes the exclusive one, so no reader ever
/// observes a half-constructed value.
#[derive(Debug)]
pub struct StaticRwCell<T> {
    data: T,
}

impl<T> StaticRwCell<T> {
    /// The value the cell currently holds.
    pub closed spec fn value(&self) -> T {
        self.data
    }

    /// A cell holding the given value.
    pub fn new(value: T) -> (r: StaticRwCell<T>)
        ensures
            r.value() == value,
    {
        StaticRwCell { data: value }
    }

    /// Replaces the held value, dropping the previous one.
    pub fn set(&mut self, value: T)
        ensures
            final(self).value() == value,
    {
        self.data = value;
    }

    /// Runs a function over a shared borrow of the held value and hands its
    /// result back.
    pub fn with<R, F: FnOnce(&T) -> R>(&self, f: F) -> (r: R)
        requires
            call_requires(f, (&self.value(),)),
        ensures
            call_ensures(f, (&self.value(),), r),
    {
        f(&self.data)
    }

    /// A shared borrow of the held value.
    pub fn borrow(&self) -> (r: &T)
        ensures
            *r == self.value(),
    {
        &self.data
    }
}

impl<T> StaticRwCell<Option<T>> {
    /// Takes the held value out of the cell, leaving none behind.
    pub fn take(&mut self) -> (r: Option<T>)
        ensures
            final(self).value() is None,
            r == old(self).value(),
    {
        self.data.take()
    }
}

} // verus!
