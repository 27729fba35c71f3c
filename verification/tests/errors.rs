//! The status-to-error mapping and the error texts.

use minhook::engine::MH_STATUS;
use minhook::error::Error;
use minhook::s2r;

#[test]
fn every_status_maps_to_its_error() {
    assert_eq!(Error::from(MH_STATUS::MH_OK), None);
    assert_eq!(
        Error::from(MH_STATUS::MH_ERROR_ALREADY_INITIALIZED),
        Some(Error::AlreadyInitialized)
    );
    assert_eq!(
        Error::from(MH_STATUS::MH_ERROR_NOT_INITIALIZED),
        Some(Error::NotInitialized)
    );
    assert_eq!(
        Error::from(MH_STATUS::MH_ERROR_ALREADY_CREATED),
        Some(Error::AlreadyCreated)
    );
    assert_eq!(
        Error::from(MH_STATUS::MH_ERROR_NOT_CREATED),
        Some(Error::NotCreated)
    );
    assert_eq!(
        Error::from(MH_STATUS::MH_ERROR_ENABLED),
        Some(Error::AlreadyEnabled)
    );
    assert_eq!(
        Error::from(MH_STATUS::MH_ERROR_DISABLED),
        Some(Error::Disabled)
    );
    assert_eq!(
        Error::from(MH_STATUS::MH_ERROR_NOT_EXECUTABLE),
        Some(Error::NotExecutable)
    );
    assert_eq!(
        Error::from(MH_STATUS::MH_ERROR_UNSUPPORTED_FUNCTION),
        Some(Error::UnsupportedFunction)
    );
    assert_eq!(
        Error::from(MH_STATUS::MH_ERROR_MEMORY_ALLOC),
        Some(Error::MemoryAlloc)
    );
    assert_eq!(
        Error::from(MH_STATUS::MH_ERROR_MEMORY_PROTECT),
        Some(Error::MemoryProtect)
    );
    assert_eq!(
        Error::from(MH_STATUS::MH_ERROR_MODULE_NOT_FOUND),
        Some(Error::ModuleNotFound)
    );
    assert_eq!(
        Error::from(MH_STATUS::MH_ERROR_FUNCTION_NOT_FOUND),
        Some(Error::FunctionNotFound)
    );
}

#[test]
fn s2r_wraps_the_mapping() {
    assert_eq!(s2r(MH_STATUS::MH_OK), Ok(()));
    assert_eq!(
        s2r(MH_STATUS::MH_ERROR_ENABLED),
        Err(Error::AlreadyEnabled)
    );
    assert_eq!(s2r(MH_STATUS::MH_ERROR_DISABLED), Err(Error::Disabled));
}

#[test]
fn descriptions_are_short_and_stable() {
    assert_eq!(
        Error::AlreadyInitialized.description(),
        "library already initialized"
    );
    assert_eq!(Error::NotInitialized.description(), "library not initialized");
    assert_eq!(Error::NotCreated.description(), "hook not created");
    assert_eq!(Error::Disabled.description(), "hook not enabled");
    assert_eq!(
        Error::InvalidModuleName.description(),
        "invalid module name"
    );
    assert_eq!(
        Error::InvalidFunctionName.description(),
        "invalid function name"
    );
}

#[test]
fn messages_carry_the_variant_name() {
    assert_eq!(
        Error::AlreadyInitialized.message(),
        "AlreadyInitialized error: MinHook is already initialized."
    );
    assert_eq!(
        Error::NotInitialized.message(),
        "NotInitialized error: MinHook is not initialized yet, or already uninitialized."
    );
    assert_eq!(
        Error::AlreadyEnabled.message(),
        "AlreadyEnabled error: The hook for the specified target function is already enabled."
    );
    assert_eq!(
        Error::MemoryAlloc.message(),
        "MemoryAlloc error: Failed to allocate memory."
    );
    assert_eq!(
        Error::FunctionNotFound.message(),
        "FunctionNotFound error: The specified function is not found."
    );
}
