//! Static hooks: once-only initialization, access discipline, and the
//! behavior of hooks that live for the rest of the process.

use minhook::engine::Engine;
use minhook::error::Error;
use minhook::function::{CallingConvention, FnHandle, FnPointer, Function, Signature};
use minhook::{FunctionId, Hook, StaticHook, StaticHookTarget, StaticHookWithDefault};

const F: u64 = 0x1000;
const D: u64 = 0x2000;

type Detour2 = fn(i32, i32) -> i32;

fn handle(addr: u64, arity: usize) -> FnHandle {
    FnHandle::from_ptr(
        FnPointer::from_raw(addr),
        Signature { arity, convention: CallingConvention::Rust },
    )
}

fn func_detour(x: i32, y: i32) -> i32 {
    x * y
}

/// Runs the code that a call of `addr` reaches: `F` behaves as `x + y`,
/// `D` as `func_detour`.
fn run2(engine: &Engine, addr: u64, x: i32, y: i32) -> i32 {
    let body = engine.dispatch(addr);
    if body == F {
        x + y
    } else if body == D {
        func_detour(x, y)
    } else {
        panic!("address without code");
    }
}

/// Runs the code that a call of `addr` reaches, where the detour at `D`
/// behaves as `call_real(x * 2, y)` through the trampoline at `tramp`.
fn run2_via_real(engine: &Engine, tramp: u64, addr: u64, x: i32, y: i32) -> i32 {
    let body = engine.dispatch(addr);
    if body == F {
        x + y
    } else if body == D {
        run2_via_real(engine, tramp, tramp, x * 2, y)
    } else {
        panic!("address without code");
    }
}

#[test]
fn static_with_default() {
    let mut engine = Engine::new();
    let sh: StaticHook<FnHandle, Detour2> =
        StaticHook::new(StaticHookTarget::Static(handle(F, 2)), handle(D, 2));
    let mut h = StaticHookWithDefault::new(sh, func_detour as Detour2);

    assert_eq!(run2(&engine, F, 3, 6), 9);
    h.initialize(&mut engine).unwrap();
    assert_eq!(run2(&engine, F, 3, 6), 9);
    h.inner().enable(&mut engine).unwrap();
    assert_eq!(run2(&engine, F, 3, 6), 18);
    h.inner().disable(&mut engine).unwrap();
    assert_eq!(run2(&engine, F, 3, 6), 9);
}

#[test]
fn static_no_default() {
    let mut engine = Engine::new();
    let mut h: StaticHook<FnHandle, Detour2> =
        StaticHook::new(StaticHookTarget::Static(handle(F, 2)), handle(D, 2));

    assert_eq!(run2(&engine, F, 3, 6), 9);
    h.initialize(&mut engine, func_detour as Detour2).unwrap();
    assert_eq!(run2(&engine, F, 3, 6), 9);
    h.enable(&mut engine).unwrap();
    let tramp = h.trampoline().to_ptr().to_raw();

    // the detour captures local state: it calls the original through the
    // trampoline as call_real(x, y) with a counter y that starts at 2 and
    // grows by one per call
    let mut y: i32 = 2;
    let mut call = |engine: &Engine, x: i32, arg: i32| -> i32 {
        if engine.dispatch(F) == F {
            x + arg
        } else {
            assert_eq!(engine.dispatch(tramp), F);
            let r = x + y;
            y += 1;
            r
        }
    };

    assert_eq!(call(&engine, 3, 6), 5);
    assert_eq!(call(&engine, 3, 6), 6);
    assert_eq!(call(&engine, 3, 66), 7);
    h.disable(&mut engine).unwrap();
    assert_eq!(call(&engine, 3, 6), 9);
}

#[test]
fn test_static_hook_locally() {
    let mut engine = Engine::new();
    let mut static_hook: StaticHook<FnHandle, Detour2> =
        StaticHook::new(StaticHookTarget::Static(handle(F, 2)), handle(D, 2));

    assert_eq!(run2(&engine, F, 2, 5), 7);
    static_hook.initialize(&mut engine, func_detour as Detour2).unwrap();
    assert_eq!(run2(&engine, F, 2, 5), 7);

    let call_real = static_hook.trampoline().to_ptr().to_raw();
    assert_eq!(run2(&engine, call_real, 2, 5), 7);

    static_hook.enable(&mut engine).unwrap();
    assert_eq!(run2(&engine, F, 2, 5), 10);
    assert_eq!(run2(&engine, call_real, 2, 5), 7);
    let tramp = static_hook.trampoline().to_ptr().to_raw();
    assert_eq!(run2(&engine, tramp, 2, 5), 7);

    drop(static_hook);
    // a static hook is never removed by going out of scope
    assert_eq!(run2(&engine, F, 2, 5), 10);
}

#[test]
fn test_static_hook_statically() {
    let mut engine = Engine::new();

    let mut sh: StaticHook<FnHandle, Detour2> =
        StaticHook::new(StaticHookTarget::Static(handle(F, 2)), handle(D, 2));
    sh.initialize(&mut engine, func_detour as Detour2).unwrap();
    let slot: Option<StaticHook<FnHandle, Detour2>> = Some(sh);
    assert_eq!(run2(&engine, F, 2, 5), 7);
    slot.as_ref().unwrap().enable(&mut engine).unwrap();
    assert_eq!(run2(&engine, F, 2, 5), 10);
}

#[test]
fn test_static_hook_macro() {
    let mut engine = Engine::new();
    let mut static_hook: StaticHook<FnHandle, Detour2> =
        StaticHook::new(StaticHookTarget::Static(handle(F, 2)), handle(D, 2));

    assert_eq!(run2_via_real(&engine, 0, F, 2, 5), 7);
    static_hook.initialize(&mut engine, func_detour as Detour2).unwrap();
    let tramp = static_hook.trampoline().to_ptr().to_raw();

    assert_eq!(run2_via_real(&engine, tramp, F, 2, 5), 7);
    static_hook.enable(&mut engine).unwrap();

    // the detour runs call_real(x * 2, y)
    assert_eq!(run2_via_real(&engine, tramp, F, 2, 5), 9);
}

#[test]
#[should_panic]
fn static_use_before_init() {
    let mut engine = Engine::new();
    let h: StaticHook<FnHandle, fn() -> ()> =
        StaticHook::new(StaticHookTarget::Static(handle(F, 0)), handle(D, 0));

    h.enable(&mut engine).unwrap();
}

#[test]
#[should_panic]
fn test_static_hook_macro_panic() {
    let mut engine = Engine::new();
    let _hook: Hook<FnHandle> =
        Hook::create(&mut engine, handle(F, 2), handle(D, 2)).unwrap();

    let static_hook: StaticHook<FnHandle, Detour2> =
        StaticHook::new(StaticHookTarget::Static(handle(F, 2)), handle(D, 2));

    // call_real before the static hook is installed
    let _ = static_hook.trampoline();
}

#[test]
fn initialized_static_hook_is_stable() {
    let mut engine = Engine::new();
    let mut h: StaticHook<FnHandle, Detour2> =
        StaticHook::new(StaticHookTarget::Static(handle(F, 2)), handle(D, 2));
    assert!(!h.is_initialized());
    h.initialize(&mut engine, func_detour as Detour2).unwrap();
    assert!(h.is_initialized());

    // every subsequent access observes the same installed hook and the same
    // published detour logic
    let t1 = h.trampoline().to_ptr().to_raw();
    let t2 = h.trampoline().to_ptr().to_raw();
    let t3 = h.hook().trampoline().to_ptr().to_raw();
    assert_eq!(t1, t2);
    assert_eq!(t1, t3);
    assert_eq!(engine.dispatch(t1), F);
    assert_eq!((h.detour_logic())(2, 5), 10);
}

#[test]
fn default_survives_failed_initialization() {
    let mut engine = Engine::new();
    let module: Vec<u16> = "sample.dll".bytes().map(|b| b as u16).collect();
    let sh: StaticHook<FnHandle, Detour2> = StaticHook::new(
        StaticHookTarget::Dynamic(module.clone(), FunctionId::name(b"target_fn".to_vec())),
        handle(D, 2),
    );
    let mut h = StaticHookWithDefault::new(sh, func_detour as Detour2);

    // the module is not loaded yet: installation fails and the bundled
    // default stays in place
    assert_eq!(h.initialize(&mut engine).unwrap_err(), Error::ModuleNotFound);
    assert!(!h.inner().is_initialized());

    // once the module is loaded, the retried initialization succeeds and
    // publishes the bundled default as the detour logic
    engine.load_export(module, b"target_fn".to_vec(), 1, F);
    h.initialize(&mut engine).unwrap();
    assert!(h.inner().is_initialized());
    assert_eq!((h.inner().detour_logic())(2, 5), 10);
    h.inner().enable(&mut engine).unwrap();
    assert_eq!(run2(&engine, F, 2, 5), 10);
}
