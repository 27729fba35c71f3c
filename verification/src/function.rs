//! Typed identities for hookable functions.
//!
//! A function is identified to the native engine by one raw code address,
//! wrapped in [`FnPointer`]. On top of that sits a capability layer: a value
//! of a type implementing [`Function`] couples an address with the signature
//! the caller declares for it (arity, calling convention), and the
//! [`HookableWith`] relation says which detour types may hook which target
//! types — a target is hookable by its own type and, for an unsafe variant,
//! by the corresponding safe type. The relation is consulted only at
//! hook-construction time and has no runtime representation: it is a trait
//! bound together with a signature-equality precondition, both discharged
//! before the code runs. Nothing here validates that an address really holds
//! code of the declared signature; that remains the caller's guarantee.

use vstd::prelude::*;

verus! {

/// An untyped function pointer: one raw code address.
///
/// It owns nothing — it never frees and never validates what it points at —
/// and equality is address equality.
#[derive(Debug, Clone, Copy, PartialEq, Eq, Structural)]
pub struct FnPointer(u64);

impl FnPointer {
    /// The raw code address this pointer wraps.
    pub closed spec fn addr(&self) -> u64 {
        self.0
    }

    /// Creates a function pointer from a raw code address, with no
    /// validation of what the address holds.
    pub fn from_raw(addr: u64) -> (r: FnPointer)
        ensures
            r.addr() == addr,
    {
        FnPointer(addr)
    }

    /// Returns the function pointer as its raw code address.
    pub fn to_raw(&self) -> (r: u64)
        ensures
            r == self.addr(),
    {
        self.0
    }
}

/// The calling conventions under which a function can be hooked.
#[derive(Debug, Clone, Copy, PartialEq, Eq, Structural)]
pub enum CallingConvention {
    /// The native convention of the language itself.
    Rust,
    /// The platform's default foreign convention.
    C,
    /// The system convention of the target platform's API surface.
    System,
    /// Caller-cleaned stack convention.
    Cdecl,
    /// Callee-cleaned stack convention.
    Stdcall,
    /// Register-first argument convention.
    Fastcall,
    /// The 64-bit convention of the target platform.
    Win64,
}

/// The shape of a function: how many arguments it takes and under which
/// calling convention it is invoked.
#[derive(Debug, Clone, Copy, PartialEq, Eq, Structural)]
pub struct Signature {
    /// The function's arity (number of arguments).
    pub arity: usize,
    /// The function's calling convention.
    pub convention: CallingConvention,
}

/// A function that can be used as a target function or detour function for
/// hooking: an address coupled with a declared signature, convertible to and
/// from an untyped [`FnPointer`] without validation.
pub trait Function: Sized + Copy {
    /// The signature this function value declares.
    spec fn sig(&self) -> Signature;

    /// The code address this function value stands for.
    spec fn addr(&self) -> u64;

    /// Returns the signature this function value declares.
    fn signature(&self) -> (r: Signature)
        ensures
            r == self.sig();

    /// Constructs a function value from an untyped pointer and the signature
    /// the caller declares for it; nothing checks that the address holds code
    /// of that signature.
    fn from_ptr(ptr: FnPointer, sig: Signature) -> (r: Self)
        ensures
            r.addr() == ptr.addr(),
            r.sig() == sig;

    /// Returns the untyped function pointer for this function.
    fn to_ptr(&self) -> (r: FnPointer)
        ensures
            r.addr() == self.addr();

    /// Returns this function as its unsafe variant: same address, same
    /// signature, weaker calling-safety guarantees.
    fn to_unsafe(&self) -> (r: UnsafeFnHandle)
        ensures
            r.spec_addr() == self.addr(),
            r.spec_sig() == self.sig();
}

/// A function whose invocation carries no safety guarantee beyond its
/// declared signature.
pub trait UnsafeFunction: Function {
}

/// Marker relation: the target type `Self` can be hooked by a detour of type
/// `D`. Every function type is hookable with itself, and an unsafe variant is
/// hookable with its safe counterpart. The relation carries the
/// calling-safety half of compatibility; equality of the declared signatures
/// is demanded separately, as a precondition of hook construction.
pub trait HookableWith<D: Function>: Function {
}

/// A safe function value: an address with a declared signature.
#[derive(Debug, Clone, Copy, PartialEq, Eq, Structural)]
pub struct FnHandle {
    ptr: FnPointer,
    sig: Signature,
}

/// An unsafe function value: the unsafe variant of [`FnHandle`].
#[derive(Debug, Clone, Copy, PartialEq, Eq, Structural)]
pub struct UnsafeFnHandle {
    ptr: FnPointer,
    sig: Signature,
}

impl UnsafeFnHandle {
    /// The code address this function value stands for.
    pub closed spec fn spec_addr(&self) -> u64 {
        self.ptr.addr()
    }

    /// The signature this function value declares.
    pub closed spec fn spec_sig(&self) -> Signature {
        self.sig
    }
}

impl Function for FnHandle {
    closed spec fn sig(&self) -> Signature {
        self.sig
    }

    closed spec fn addr(&self) -> u64 {
        self.ptr.addr()
    }

    fn signature(&self) -> (r: Signature) {
        self.sig
    }

    fn from_ptr(ptr: FnPointer, sig: Signature) -> (r: Self) {
        FnHandle { ptr, sig }
    }

    fn to_ptr(&self) -> (r: FnPointer) {
        self.ptr
    }

    fn to_unsafe(&self) -> (r: UnsafeFnHandle) {
        UnsafeFnHandle { ptr: self.ptr, sig: self.sig }
    }
}

impl Function for UnsafeFnHandle {
    closed spec fn sig(&self) -> Signature {
        self.spec_sig()
    }

    closed spec fn addr(&self) -> u64 {
        self.spec_addr()
    }

    fn signature(&self) -> (r: Signature) {
        self.sig
    }

    fn from_ptr(ptr: FnPointer, sig: Signature) -> (r: Self) {
        UnsafeFnHandle { ptr, sig }
    }

    fn to_ptr(&self) -> (r: FnPointer) {
        self.ptr
    }

    fn to_unsafe(&self) -> (r: UnsafeFnHandle) {
        *self
    }
}

impl UnsafeFunction for UnsafeFnHandle {
}

impl HookableWith<FnHandle> for FnHandle {
}

impl HookableWith<UnsafeFnHandle> for UnsafeFnHandle {
}

impl HookableWith<FnHandle> for UnsafeFnHandle {
}

} // verus!
