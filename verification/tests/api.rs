//! Hooking by module and symbol: name validation and address resolution
//! against the symbols that loaded modules expose.

use minhook::engine::Engine;
use minhook::error::Error;
use minhook::function::{CallingConvention, FnHandle, FnPointer, Function, Signature};
use minhook::{FunctionId, Hook};

const F: u64 = 0x4000;
const D: u64 = 0x5000;

fn wide(s: &str) -> Vec<u16> {
    s.bytes().map(|b| b as u16).collect()
}

fn handle(addr: u64, arity: usize) -> FnHandle {
    FnHandle::from_ptr(
        FnPointer::from_raw(addr),
        Signature { arity, convention: CallingConvention::System },
    )
}

fn loaded_engine() -> Engine {
    let mut engine = Engine::new();
    engine.load_export(wide("sample.dll"), b"target_fn".to_vec(), 3, F);
    engine
}

#[test]
fn create_api_hooks_a_resolved_symbol() {
    let mut engine = loaded_engine();
    let h: Hook<FnHandle> = Hook::create_api(
        &mut engine,
        &wide("sample.dll"),
        &FunctionId::name(b"target_fn".to_vec()),
        handle(D, 1),
    )
    .unwrap();

    // the hook is created on the resolved address, disabled
    assert_eq!(engine.dispatch(F), F);
    h.enable(&mut engine).unwrap();
    assert_eq!(engine.dispatch(F), D);
    let tramp = h.trampoline().to_ptr().to_raw();
    assert_eq!(engine.dispatch(tramp), F);
}

#[test]
fn create_api_resolves_by_ordinal() {
    let mut engine = loaded_engine();
    let h: Hook<FnHandle> = Hook::create_api(
        &mut engine,
        &wide("sample.dll"),
        &FunctionId::ordinal(3),
        handle(D, 1),
    )
    .unwrap();
    h.enable(&mut engine).unwrap();
    assert_eq!(engine.dispatch(F), D);
}

#[test]
fn create_api_reports_unknown_module() {
    let mut engine = loaded_engine();
    let r: Result<Hook<FnHandle>, Error> = Hook::create_api(
        &mut engine,
        &wide("absent.dll"),
        &FunctionId::name(b"target_fn".to_vec()),
        handle(D, 1),
    );
    assert_eq!(r.unwrap_err(), Error::ModuleNotFound);
}

#[test]
fn create_api_reports_unknown_symbol() {
    let mut engine = loaded_engine();
    let r: Result<Hook<FnHandle>, Error> = Hook::create_api(
        &mut engine,
        &wide("sample.dll"),
        &FunctionId::name(b"absent_fn".to_vec()),
        handle(D, 1),
    );
    assert_eq!(r.unwrap_err(), Error::FunctionNotFound);
    let by_ordinal: Result<Hook<FnHandle>, Error> = Hook::create_api(
        &mut engine,
        &wide("sample.dll"),
        &FunctionId::ordinal(44),
        handle(D, 1),
    );
    assert_eq!(by_ordinal.unwrap_err(), Error::FunctionNotFound);
}

#[test]
fn create_api_rejects_names_with_interior_terminators() {
    let mut engine = loaded_engine();

    let mut bad_module = wide("sample.dll");
    bad_module.insert(3, 0);
    let r: Result<Hook<FnHandle>, Error> = Hook::create_api(
        &mut engine,
        &bad_module,
        &FunctionId::name(b"target_fn".to_vec()),
        handle(D, 1),
    );
    assert_eq!(r.unwrap_err(), Error::InvalidModuleName);

    let r2: Result<Hook<FnHandle>, Error> = Hook::create_api(
        &mut engine,
        &wide("sample.dll"),
        &FunctionId::name(b"target\0fn".to_vec()),
        handle(D, 1),
    );
    assert_eq!(r2.unwrap_err(), Error::InvalidFunctionName);
}
