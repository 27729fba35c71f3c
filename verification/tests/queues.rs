//! Batched enable/disable through the hook queue: one committed instant,
//! latest request per target wins.

use minhook::engine::Engine;
use minhook::function::{CallingConvention, FnHandle, FnPointer, Function, Signature};
use minhook::{Hook, HookQueue};

const F1: u64 = 0x1100;
const D1: u64 = 0x1200;
const F2: u64 = 0x2100;
const D2: u64 = 0x2200;
const F3: u64 = 0x3100;
const D3: u64 = 0x3200;

fn handle(addr: u64, arity: usize) -> FnHandle {
    FnHandle::from_ptr(
        FnPointer::from_raw(addr),
        Signature { arity, convention: CallingConvention::Rust },
    )
}

#[test]
fn queue() {
    // f1(x) = x, d1(_) = "bar"; f2(x) = x * 2, d2(x) = x + 2;
    // f3(x) = Some(x) for x >= 0, d3(x) = Some(|x|)
    fn f1(engine: &Engine, x: &'static str) -> &'static str {
        match engine.dispatch(F1) {
            F1 => x,
            D1 => "bar",
            _ => panic!("address without code"),
        }
    }
    fn f2(engine: &Engine, x: i32) -> i32 {
        match engine.dispatch(F2) {
            F2 => x * 2,
            D2 => x + 2,
            _ => panic!("address without code"),
        }
    }
    fn f3(engine: &Engine, x: i32) -> Option<u32> {
        match engine.dispatch(F3) {
            F3 => {
                if x < 0 {
                    None
                } else {
                    Some(x as u32)
                }
            },
            D3 => Some(x.unsigned_abs()),
            _ => panic!("address without code"),
        }
    }

    let mut engine = Engine::new();
    let h1: Hook<FnHandle> = Hook::create(&mut engine, handle(F1, 1), handle(D1, 1)).unwrap();
    let h2: Hook<FnHandle> = Hook::create(&mut engine, handle(F2, 1), handle(D2, 1)).unwrap();
    let h3: Hook<FnHandle> = Hook::create(&mut engine, handle(F3, 1), handle(D3, 1)).unwrap();

    let mut queue = HookQueue::new();
    queue.enable(&h1);
    queue.disable(&h2);
    queue.enable(&h3);
    queue.disable(&h3);
    queue.apply(&mut engine).unwrap();

    assert_eq!(f1(&engine, "foo"), "bar");
    assert_eq!(f2(&engine, 42), 84);
    assert_eq!(f3(&engine, -10), None);
}

#[test]
fn test_hook_queue() {
    // func1() = "foo", detour1() = "bar"; func2() = 7, detour2() = 42;
    // func3(x) = Some(x), detour3(_) = None
    fn func1(engine: &Engine) -> &'static str {
        match engine.dispatch(F1) {
            F1 => "foo",
            D1 => "bar",
            _ => panic!("address without code"),
        }
    }
    fn func2(engine: &Engine) -> i32 {
        match engine.dispatch(F2) {
            F2 => 7,
            D2 => 42,
            _ => panic!("address without code"),
        }
    }
    fn func3(engine: &Engine, x: i32) -> Option<i32> {
        match engine.dispatch(F3) {
            F3 => Some(x),
            D3 => None,
            _ => panic!("address without code"),
        }
    }

    let mut engine = Engine::new();
    let hook1: Hook<FnHandle> = Hook::create(&mut engine, handle(F1, 0), handle(D1, 0)).unwrap();
    let hook2: Hook<FnHandle> = Hook::create(&mut engine, handle(F2, 0), handle(D2, 0)).unwrap();
    let hook3: Hook<FnHandle> = Hook::create(&mut engine, handle(F3, 1), handle(D3, 1)).unwrap();

    hook2.enable(&mut engine).unwrap();

    let mut queue = HookQueue::new();
    queue.enable(&hook1);
    queue.disable(&hook2);
    queue.enable(&hook3);
    queue.disable(&hook3);
    queue.apply(&mut engine).unwrap();

    assert_eq!(func1(&engine), "bar");
    assert_eq!(func2(&engine), 7);
    assert_eq!(func3(&engine, 11), Some(11));
}

#[test]
fn empty_queue_applies_cleanly() {
    let mut engine = Engine::new();
    let mut queue = HookQueue::new();
    queue.apply(&mut engine).unwrap();

    let h: Hook<FnHandle> = Hook::create(&mut engine, handle(F1, 1), handle(D1, 1)).unwrap();
    queue.apply(&mut engine).unwrap();
    assert_eq!(engine.dispatch(F1), F1);
    drop(h);
}

#[test]
fn queue_keeps_untouched_hooks() {
    let mut engine = Engine::new();
    let h1: Hook<FnHandle> = Hook::create(&mut engine, handle(F1, 1), handle(D1, 1)).unwrap();
    let h2: Hook<FnHandle> = Hook::create(&mut engine, handle(F2, 1), handle(D2, 1)).unwrap();
    h2.enable(&mut engine).unwrap();

    let mut queue = HookQueue::new();
    queue.enable(&h1);
    queue.apply(&mut engine).unwrap();

    // h2 was not in the queue: its state is untouched
    assert_eq!(engine.dispatch(F1), D1);
    assert_eq!(engine.dispatch(F2), D2);
}
