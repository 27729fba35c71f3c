//! Hook lifecycle behavior, driven through the engine's dispatch: calling an
//! address runs the body that dispatch resolves it to, so redirection,
//! trampolines, and removal are all observable.

use minhook::engine::{Engine, MH_STATUS};
use minhook::error::Error;
use minhook::function::{CallingConvention, FnHandle, FnPointer, Function, Signature};
use minhook::Hook;

const F: u64 = 0x1000;
const D: u64 = 0x2000;

fn handle(addr: u64, arity: usize) -> FnHandle {
    FnHandle::from_ptr(
        FnPointer::from_raw(addr),
        Signature { arity, convention: CallingConvention::Rust },
    )
}

fn func_detour(x: i32, y: i32) -> i32 {
    x * y
}

/// Runs the code that a call of `addr` reaches: `F` behaves as `x * 2`,
/// `D` as `x * 3`.
fn run1(engine: &Engine, addr: u64, x: i32) -> i32 {
    let body = engine.dispatch(addr);
    if body == F {
        x * 2
    } else if body == D {
        x * 3
    } else {
        panic!("address without code");
    }
}

/// Runs the code that a call of `addr` reaches: `F` behaves as `x + y`,
/// `D` as `func_detour`.
fn run2(engine: &Engine, addr: u64, x: i32, y: i32) -> i32 {
    let body = engine.dispatch(addr);
    if body == F {
        x + y
    } else if body == D {
        func_detour(x, y)
    } else {
        panic!("address without code");
    }
}

#[test]
fn local() {
    let mut engine = Engine::new();
    let f = handle(F, 1);
    let d = handle(D, 1);

    assert_eq!(run1(&engine, F, 5), 10);
    let h: Hook<FnHandle> = Hook::create(&mut engine, f, d).unwrap();
    assert_eq!(run1(&engine, F, 5), 10);
    h.enable(&mut engine).unwrap();
    assert_eq!(run1(&engine, F, 5), 15);
    h.disable(&mut engine).unwrap();
    assert_eq!(run1(&engine, F, 5), 10);
    h.enable(&mut engine).unwrap();
    assert_eq!(run1(&engine, F, 5), 15);
    h.destroy(&mut engine).unwrap();
    assert_eq!(run1(&engine, F, 5), 10);
}

#[test]
fn test_scoped_hook() {
    let mut engine = Engine::new();
    let func = handle(F, 2);
    let detour = handle(D, 2);

    assert_eq!(run2(&engine, F, 2, 5), 7);
    let hook: Hook<FnHandle> = Hook::create(&mut engine, func, detour).unwrap();

    assert_eq!(run2(&engine, F, 2, 5), 7);
    let call_real = hook.trampoline().to_ptr().to_raw();
    assert_eq!(run2(&engine, call_real, 2, 5), 7);

    hook.enable(&mut engine).unwrap();
    assert_eq!(run2(&engine, F, 2, 5), 10);
    assert_eq!(run2(&engine, call_real, 2, 5), 7);

    hook.disable(&mut engine).unwrap();
    assert_eq!(run2(&engine, F, 2, 5), 7);

    hook.enable(&mut engine).unwrap();
    assert_eq!(run2(&engine, F, 2, 5), 10);

    hook.destroy(&mut engine).unwrap();

    assert_eq!(run2(&engine, F, 2, 5), 7);
}

#[test]
fn redundant_toggle_reports_and_changes_nothing() {
    let mut engine = Engine::new();
    let h: Hook<FnHandle> = Hook::create(&mut engine, handle(F, 2), handle(D, 2)).unwrap();

    assert_eq!(h.disable(&mut engine).unwrap_err(), Error::Disabled);
    assert_eq!(run2(&engine, F, 2, 5), 7);

    h.enable(&mut engine).unwrap();
    assert_eq!(h.enable(&mut engine).unwrap_err(), Error::AlreadyEnabled);
    assert_eq!(run2(&engine, F, 2, 5), 10);

    h.disable(&mut engine).unwrap();
    assert_eq!(h.disable(&mut engine).unwrap_err(), Error::Disabled);
    assert_eq!(run2(&engine, F, 2, 5), 7);
}

#[test]
fn create_rejects_conflicts() {
    let mut engine = Engine::new();
    let h: Hook<FnHandle> = Hook::create(&mut engine, handle(F, 2), handle(D, 2)).unwrap();

    // the same target cannot be hooked twice
    let again: Result<Hook<FnHandle>, Error> =
        Hook::create(&mut engine, handle(F, 2), handle(D, 2));
    assert_eq!(again.unwrap_err(), Error::AlreadyCreated);

    // a null address is not executable
    let null: Result<Hook<FnHandle>, Error> =
        Hook::create(&mut engine, handle(0, 2), handle(D, 2));
    assert_eq!(null.unwrap_err(), Error::NotExecutable);

    // the engine's own trampoline cannot be hooked
    let tramp = h.trampoline().to_ptr().to_raw();
    let on_tramp: Result<Hook<FnHandle>, Error> =
        Hook::create(&mut engine, handle(tramp, 2), handle(D, 2));
    assert_eq!(on_tramp.unwrap_err(), Error::UnsupportedFunction);

    // the address space can be exhausted
    let huge: Result<Hook<FnHandle>, Error> =
        Hook::create(&mut engine, handle(u64::MAX, 2), handle(D, 2));
    assert_eq!(huge.unwrap_err(), Error::MemoryAlloc);
}

#[test]
fn engine_requires_initialization() {
    let mut engine = Engine::new();
    assert_eq!(engine.enable_hook(F), MH_STATUS::MH_ERROR_NOT_INITIALIZED);
    assert_eq!(engine.initialize(), MH_STATUS::MH_OK);
    assert_eq!(engine.initialize(), MH_STATUS::MH_ERROR_ALREADY_INITIALIZED);
    assert_eq!(engine.enable_hook(F), MH_STATUS::MH_ERROR_NOT_CREATED);
}

#[test]
fn uninitialize_discards_every_hook() {
    let mut engine = Engine::new();
    let h: Hook<FnHandle> = Hook::create(&mut engine, handle(F, 1), handle(D, 1)).unwrap();
    h.enable(&mut engine).unwrap();
    assert_eq!(run1(&engine, F, 5), 15);

    assert_eq!(engine.uninitialize(), MH_STATUS::MH_OK);
    assert_eq!(run1(&engine, F, 5), 10);
    assert_eq!(engine.uninitialize(), MH_STATUS::MH_ERROR_NOT_INITIALIZED);
}
