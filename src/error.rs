use vstd::prelude::*;

verus! {

/// Why installing a hook was refused.
#[derive(Debug, Clone, Copy, PartialEq, Eq, Structural)]
pub enum HookFailure {
    /// The patch window cannot hold the jump stub.
    StubTooShort,
    /// The patch window does not lie inside the mapped range.
    OutOfRange,
    /// The address already carries an outstanding hook.
    AlreadyHooked,
}

/// Errors of the locate / scan / install / restore pipeline.
#[derive(Debug, Clone, Copy, PartialEq, Eq, Structural)]
pub enum Error {
    /// No running process has the requested executable name.
    ProcessNotFound,
    /// The signature occurs nowhere in the scanned range.
    PatternNotFound,
    /// A fixed offset falls outside the module image.
    TargetOutOfRange,
    /// The hook could not be installed; memory was left untouched.
    HookInstallError(HookFailure),
    /// The saved bytes could not be written back.
    RestoreError,
}

} // verus!
