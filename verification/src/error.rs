//! The error taxonomy of the overlay controller.

use vstd::prelude::*;

verus! {

/// Everything that can go wrong inside the orchestration engine.
///
/// `LockFailure` is reported by the host shell when the shared orchestrator
/// state cannot be locked (a poisoned mutex). `ShortcutRegistrationFailed`,
/// `WindowOperationFailed` and `PanelCreationFailed` are reported when the
/// platform rejects the corresponding native call. `NotFound` is returned by
/// the orchestrator itself for operations that reference a window label with
/// no registration.
#[derive(Clone, Copy, Debug, PartialEq, Eq, Structural)]
pub enum Error {
    LockFailure,
    ShortcutRegistrationFailed,
    WindowOperationFailed,
    PanelCreationFailed,
    NotFound,
}

impl Error {
    /// The human-readable message that crosses the command boundary; callers
    /// there cannot distinguish error kinds programmatically, only by text.
    pub fn message(&self) -> (r: &'static str)
        ensures
            *self is LockFailure ==> r@ == "failed to lock shared state"@,
            *self is ShortcutRegistrationFailed ==> r@ == "failed to register shortcut"@,
            *self is WindowOperationFailed ==> r@ == "window operation failed"@,
            *self is PanelCreationFailed ==> r@ == "failed to create panel"@,
            *self is NotFound ==> r@ == "window is not registered"@,
    {
        match self {
            Error::LockFailure => "failed to lock shared state",
            Error::ShortcutRegistrationFailed => "failed to register shortcut",
            Error::WindowOperationFailed => "window operation failed",
            Error::PanelCreationFailed => "failed to create panel",
            Error::NotFound => "window is not registered",
        }
    }
}

} // verus!
