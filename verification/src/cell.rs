//! The one-shot initialization cell with first-writer-wins discipline.
//!
//! [`StaticInitCell`] is the blocking variant of the once-only cell: in the
//! native setting exactly one of N racing threads runs the initialization to
//! completion while the others block until it finishes, and then every thread
//! observes the same value. The price of that discipline is that the cell can
//! die: a read that arrives before any initialization consumes the one shot,
//! and from then on every initialization and every read reports the misuse
//! instead of retrying. The cell is carried here as explicitly owned state
//! with exactly those three phases — fresh, set, dead.

use vstd::prelude::*;

verus! {

/// The misuse reports of the one-shot cell.
#[derive(Copy, PartialEq, Eq, Clone, Debug, Structural)]
pub enum Error {
    /// The cell already holds its value; a value can be set only once.
    AlreadyInitialized,
    /// The cell was read before any initialization, which permanently
    /// consumed its one shot.
    AccessedBeforeInitialization,
}

/// A cell that accepts exactly one initialization, dies on a premature read,
/// and afterwards serves the value it holds — or the misuse report — forever.
#[derive(Debug)]
pub struct StaticInitCell<T> {
    data: Option<T>,
    used: bool,
}

impl<T> StaticInitCell<T> {
    /// The value the cell holds, if it was initialized.
    pub closed spec fn value(&self) -> Option<T> {
        self.data
    }

    /// Whether the cell's one shot has been consumed, by an initialization or
    /// by a premature read.
    pub closed spec fn spent(&self) -> bool {
        self.used
    }

    /// A fresh cell: no value, one shot available.
    pub fn new() -> (r: StaticInitCell<T>)
        ensures
            r.value() is None,
            !r.spent(),
    {
        StaticInitCell { data: None, used: false }
    }

    /// Sets the cell's value, consuming its one shot. The first call wins;
    /// any later call reports the value already present, and a call on a dead
    /// cell reports the premature read that killed it. In either failure the
    /// argument is discarded unobserved and the cell is unchanged.
    pub fn initialize(&mut self, value: T) -> (r: Result<(), Error>)
        ensures
            !old(self).spent() ==> r is Ok && final(self).value() == Some(value)
                && final(self).spent(),
            old(self).spent() ==> *final(self) == *old(self) && r == (match old(self).value() {
                Some(_) => Err::<(), Error>(Error::AlreadyInitialized),
                None => Err::<(), Error>(Error::AccessedBeforeInitialization),
            }),
    {
        if !self.used {
            self.used = true;
            self.data = Some(value);
            Ok(())
        } else if self.data.is_some() {
            Err(Error::AlreadyInitialized)
        } else {
            Err(Error::AccessedBeforeInitialization)
        }
    }

    /// Reads the cell's value. A read before any initialization consumes the
    /// one shot and kills the cell, so it — and every later access — reports
    /// the misuse; after a successful initialization every read observes the
    /// same value.
    pub fn get(&mut self) -> (r: Result<&T, Error>)
        ensures
            final(self).spent(),
            final(self).value() == old(self).value(),
            match r {
                Ok(v) => old(self).value() == Some(*v),
                Err(e) => old(self).value() is None && e
                    == Error::AccessedBeforeInitialization,
            },
    {
        if !self.used {
            self.used = true;
        }
        match self.data.as_ref() {
            Some(v) => Ok(v),
            None => Err(Error::AccessedBeforeInitialization),
        }
    }
}

/// A cell holding one replaceable value, guarded in the native setting by a
/// read/write lock; the same discipline as [`crate::sync::StaticRwCell`],
/// kept beside the one-shot cell it accompanies.
#[derive(Debug)]
pub struct StaticRwCell<T> {
    data: T,
}

impl<T> StaticRwCell<T> {
    /// The value the cell currently holds.
    pub closed spec fn value(&self) -> T {
        self.data
    }

    /// A cell holding the given value.
    pub fn new(value: T) -> (r: StaticRwCell<T>)
        ensures
            r.value() == value,
    {
        StaticRwCell { data: value }
    }

    /// Replaces the held value, dropping the previous one.
    pub fn set(&mut self, value: T)
        ensures
            final(self).value() == value,
    {
        self.data = value;
    }

    /// Runs a function over a shared borrow of the held value and hands its
    /// result back.
    pub fn with<R, F: FnOnce(&T) -> R>(&self, f: F) -> (r: R)
        requires
            call_requires(f, (&self.value(),)),
        ensures
            call_ensures(f, (&self.value(),), r),
    {
        f(&self.data)
    }
}

impl<T> StaticRwCell<Option<T>> {
    /// Takes the held value out of the cell, leaving none behind.
    pub fn take(&mut self) -> (r: Option<T>)
        ensures
            final(self).value() is None,
            r == old(self).value(),
    {
        self.data.take()
    }
}

} // verus!
