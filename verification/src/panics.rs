//! The replaceable handler for panics caught at the detour boundary.
//!
//! A detour invoked under a foreign calling convention must never unwind into
//! the native engine's frames: the surrounding runtime intercepts the unwind
//! right at the boundary, hands the intercepted payload together with the
//! hook's name to the handler registered here — exactly one handler sees it —
//! and then terminates rather than resume, because continuing on a
//! half-unwound foreign stack is unsafe. This module holds the verified part
//! of that boundary: the information record a handler receives, the registry
//! the handler lives in (replaced under the same read/write discipline as
//! every process-lifetime cell), and the dispatch step that routes one report
//! to the registered handler.

use vstd::prelude::*;
use crate::sync::StaticRwCell;

verus! {

/// Information about a panic that happened inside a guarded detour function:
/// the payload the panic carried, and the name of the static hook whose
/// detour panicked.
#[derive(Debug)]
pub struct DetourPanicInfo<P> {
    payload: P,
    detour: String,
}

impl<P> DetourPanicInfo<P> {
    /// The payload this record carries.
    pub closed spec fn payload_value(&self) -> P {
        self.payload
    }

    /// The hook name this record carries.
    pub closed spec fn detour_name(&self) -> Seq<char> {
        self.detour@
    }

    /// Packs a panic payload and the panicking hook's name into one record.
    pub fn new(payload: P, detour: String) -> (r: DetourPanicInfo<P>)
        ensures
            r.payload_value() == payload,
            r.detour_name() == detour@,
    {
        DetourPanicInfo { payload, detour }
    }

    /// Returns the payload associated with the panic.
    pub fn payload(&self) -> (r: &P)
        ensures
            *r == self.payload_value(),
    {
        &self.payload
    }

    /// Returns the name of the static hook for which the detour function
    /// panicked.
    pub fn detour(&self) -> (r: &str)
        ensures
            r@ == self.detour_name(),
    {
        self.detour.as_str()
    }
}

/// Registers a custom detour panic handler, replacing any that was previously
/// registered. The handler is a process-wide resource: it is swapped under
/// the registry cell's exclusive side, so a detour invocation racing the swap
/// never observes a half-constructed handler.
pub fn set_handler<H>(registry: &mut StaticRwCell<Option<H>>, handler: H)
    ensures
        final(registry).value() == Some(handler),
{
    registry.set(Some(handler));
}

/// Unregisters the current panic handler, returning it; when none was
/// registered there is nothing to return, and the default handler of the
/// surrounding runtime stays in effect.
pub fn take_handler<H>(registry: &mut StaticRwCell<Option<H>>) -> (r: Option<H>)
    ensures
        final(registry).value() is None,
        r == old(registry).value(),
{
    registry.take()
}

/// Routes one intercepted panic report to the registered handler: the handler
/// receives the record — payload and hook name — exactly once, and the result
/// says whether a custom handler ran, so the surrounding runtime falls back
/// to its default report when none was registered. Termination afterwards is
/// the runtime's duty either way.
pub fn notify_handler<P, H: Fn(&DetourPanicInfo<P>) -> ()>(
    registry: &StaticRwCell<Option<H>>,
    info: &DetourPanicInfo<P>,
) -> (r: bool)
    requires
        registry.value() matches Some(h) ==> call_requires(h, (info,)),
    ensures
        r == (registry.value() is Some),
        registry.value() matches Some(h) ==> call_ensures(h, (info,), ()),
{
    match registry.borrow() {
        Some(h) => {
            h(info);
            true
        },
        None => false,
    }
}

} // verus!
