//! The typed error surface of the hooking layer.

use vstd::prelude::*;
use crate::engine::MH_STATUS;

verus! {

/// The error type for all hooking operations.
///
/// Engine status codes map directly to this type, plus two library-added
/// kinds for name validation.
#[derive(Copy, PartialEq, Eq, Clone, Debug, Structural)]
pub enum Error {
    /// The engine is already initialized.
    AlreadyInitialized,
    /// The engine is not initialized yet, or already uninitialized.
    NotInitialized,
    /// The hook for the specified target function is already created.
    AlreadyCreated,
    /// The hook for the specified target function is not created yet.
    NotCreated,
    /// The hook for the specified target function is already enabled.
    AlreadyEnabled,
    /// The hook for the specified target function is not enabled yet, or
    /// already disabled.
    Disabled,
    /// The specified pointer is invalid. It points the address of non-allocated
    /// and/or non-executable region.
    NotExecutable,
    /// The specified target function cannot be hooked.
    UnsupportedFunction,
    /// Failed to allocate memory.
    MemoryAlloc,
    /// Failed to change the memory protection.
    MemoryProtect,
    /// The specified module is not loaded.
    ModuleNotFound,
    /// The specified function is not found.
    FunctionNotFound,
    /// The specified module name is invalid.
    InvalidModuleName,
    /// The specified function name is invalid.
    InvalidFunctionName,
}

/// The error, if any, that a given engine status stands for.
///
/// `MH_OK` stands for no error. `MH_UNKNOWN` is never returned by the engine
/// and is left out of the mapping.
pub open spec fn spec_error_of(status: MH_STATUS) -> Option<Error> {
    match status {
        MH_STATUS::MH_UNKNOWN => None,
        MH_STATUS::MH_OK => None,
        MH_STATUS::MH_ERROR_ALREADY_INITIALIZED => Some(Error::AlreadyInitialized),
        MH_STATUS::MH_ERROR_NOT_INITIALIZED => Some(Error::NotInitialized),
        MH_STATUS::MH_ERROR_ALREADY_CREATED => Some(Error::AlreadyCreated),
        MH_STATUS::MH_ERROR_NOT_CREATED => Some(Error::NotCreated),
        MH_STATUS::MH_ERROR_ENABLED => Some(Error::AlreadyEnabled),
        MH_STATUS::MH_ERROR_DISABLED => Some(Error::Disabled),
        MH_STATUS::MH_ERROR_NOT_EXECUTABLE => Some(Error::NotExecutable),
        MH_STATUS::MH_ERROR_UNSUPPORTED_FUNCTION => Some(Error::UnsupportedFunction),
        MH_STATUS::MH_ERROR_MEMORY_ALLOC => Some(Error::MemoryAlloc),
        MH_STATUS::MH_ERROR_MEMORY_PROTECT => Some(Error::MemoryProtect),
        MH_STATUS::MH_ERROR_MODULE_NOT_FOUND => Some(Error::ModuleNotFound),
        MH_STATUS::MH_ERROR_FUNCTION_NOT_FOUND => Some(Error::FunctionNotFound),
    }
}

impl Error {
    /// Constructs an `Error` from an engine status.
    ///
    /// `MH_UNKNOWN` is documented as never returned by the engine, so it is
    /// ruled out here rather than mapped.
    pub fn from(status: MH_STATUS) -> (r: Option<Error>)
        requires
            status != MH_STATUS::MH_UNKNOWN,
        ensures
            r == spec_error_of(status),
    {
        match status {
            MH_STATUS::MH_UNKNOWN => None,
            MH_STATUS::MH_OK => None,
            MH_STATUS::MH_ERROR_ALREADY_INITIALIZED => Some(Error::AlreadyInitialized),
            MH_STATUS::MH_ERROR_NOT_INITIALIZED => Some(Error::NotInitialized),
            MH_STATUS::MH_ERROR_ALREADY_CREATED => Some(Error::AlreadyCreated),
            MH_STATUS::MH_ERROR_NOT_CREATED => Some(Error::NotCreated),
            MH_STATUS::MH_ERROR_ENABLED => Some(Error::AlreadyEnabled),
            MH_STATUS::MH_ERROR_DISABLED => Some(Error::Disabled),
            MH_STATUS::MH_ERROR_NOT_EXECUTABLE => Some(Error::NotExecutable),
            MH_STATUS::MH_ERROR_UNSUPPORTED_FUNCTION => Some(Error::UnsupportedFunction),
            MH_STATUS::MH_ERROR_MEMORY_ALLOC => Some(Error::MemoryAlloc),
            MH_STATUS::MH_ERROR_MEMORY_PROTECT => Some(Error::MemoryProtect),
            MH_STATUS::MH_ERROR_MODULE_NOT_FOUND => Some(Error::ModuleNotFound),
            MH_STATUS::MH_ERROR_FUNCTION_NOT_FOUND => Some(Error::FunctionNotFound),
        }
    }

    /// A short description of the error.
    pub fn description(&self) -> (r: &'static str)
        ensures
            self is AlreadyInitialized ==> r@ == "library already initialized"@,
            self is NotInitialized ==> r@ == "library not initialized"@,
            self is AlreadyCreated ==> r@ == "hook already created"@,
            self is NotCreated ==> r@ == "hook not created"@,
            self is AlreadyEnabled ==> r@ == "hook already enabled"@,
            self is Disabled ==> r@ == "hook not enabled"@,
            self is NotExecutable ==> r@ == "invalid pointer"@,
            self is UnsupportedFunction ==> r@ == "function cannot be hooked"@,
            self is MemoryAlloc ==> r@ == "failed to allocate memory"@,
            self is MemoryProtect ==> r@ == "failed to change the memory protection"@,
            self is ModuleNotFound ==> r@ == "module not loaded"@,
            self is FunctionNotFound ==> r@ == "function not found"@,
            self is InvalidModuleName ==> r@ == "invalid module name"@,
            self is InvalidFunctionName ==> r@ == "invalid function name"@,
    {
        match *self {
            Error::AlreadyInitialized => "library already initialized",
            Error::NotInitialized => "library not initialized",
            Error::AlreadyCreated => "hook already created",
            Error::NotCreated => "hook not created",
            Error::AlreadyEnabled => "hook already enabled",
            Error::Disabled => "hook not enabled",
            Error::NotExecutable => "invalid pointer",
            Error::UnsupportedFunction => "function cannot be hooked",
            Error::MemoryAlloc => "failed to allocate memory",
            Error::MemoryProtect => "failed to change the memory protection",
            Error::ModuleNotFound => "module not loaded",
            Error::FunctionNotFound => "function not found",
            Error::InvalidModuleName => "invalid module name",
            Error::InvalidFunctionName => "invalid function name",
        }
    }

    /// The full display text of the error, with the variant's name up front;
    /// callers that would format the error print this.
    pub fn message(&self) -> (r: &'static str)
        ensures
            self is AlreadyInitialized ==> r@
                == "AlreadyInitialized error: MinHook is already initialized."@,
            self is NotInitialized ==> r@
                == "NotInitialized error: MinHook is not initialized yet, or already uninitialized."@,
            self is AlreadyCreated ==> r@
                == "AlreadyCreated error: The hook for the specified target function is already created."@,
            self is NotCreated ==> r@
                == "NotCreated error: The hook for the specified target function is not created yet."@,
            self is AlreadyEnabled ==> r@
                == "AlreadyEnabled error: The hook for the specified target function is already enabled."@,
            self is Disabled ==> r@
                == "Disabled error: The hook for the specified target function is not enabled yet, or already disabled."@,
            self is NotExecutable ==> r@
                == "NotExecutable error: The specified pointer is invalid. It points the address of non-allocated and/or non-executable region."@,
            self is UnsupportedFunction ==> r@
                == "UnsupportedFunction error: The specified target function cannot be hooked."@,
            self is MemoryAlloc ==> r@ == "MemoryAlloc error: Failed to allocate memory."@,
            self is MemoryProtect ==> r@
                == "MemoryProtect error: Failed to change the memory protection."@,
            self is ModuleNotFound ==> r@
                == "ModuleNotFound error: The specified module is not loaded."@,
            self is FunctionNotFound ==> r@
                == "FunctionNotFound error: The specified function is not found."@,
            self is InvalidModuleName ==> r@
                == "InvalidModuleName error: The specified module name is invalid."@,
            self is InvalidFunctionName ==> r@
                == "InvalidFunctionName error: The specified function name is invalid."@,
    {
        match *self {
            Error::AlreadyInitialized => "AlreadyInitialized error: MinHook is already initialized.",
            Error::NotInitialized => "NotInitialized error: MinHook is not initialized yet, or already uninitialized.",
            Error::AlreadyCreated => "AlreadyCreated error: The hook for the specified target function is already created.",
            Error::NotCreated => "NotCreated error: The hook for the specified target function is not created yet.",
            Error::AlreadyEnabled => "AlreadyEnabled error: The hook for the specified target function is already enabled.",
            Error::Disabled => "Disabled error: The hook for the specified target function is not enabled yet, or already disabled.",
            Error::NotExecutable => "NotExecutable error: The specified pointer is invalid. It points the address of non-allocated and/or non-executable region.",
            Error::UnsupportedFunction => "UnsupportedFunction error: The specified target function cannot be hooked.",
            Error::MemoryAlloc => "MemoryAlloc error: Failed to allocate memory.",
            Error::MemoryProtect => "MemoryProtect error: Failed to change the memory protection.",
            Error::ModuleNotFound => "ModuleNotFound error: The specified module is not loaded.",
            Error::FunctionNotFound => "FunctionNotFound error: The specified function is not found.",
            Error::InvalidModuleName => "InvalidModuleName error: The specified module name is invalid.",
            Error::InvalidFunctionName => "InvalidFunctionName error: The specified function name is invalid.",
        }
    }
}

} // verus!
