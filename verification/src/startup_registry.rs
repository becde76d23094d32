//! Start-with-Windows registration: the decisions around the `Run` registry key.
//! The registry calls themselves are made by the application.
use vstd::prelude::*;

verus! {

/// The registry value name under `HKCU\Software\Microsoft\Windows\CurrentVersion\Run`.
pub const APP_NAME: &'static str = "gksrmf";

/// The key that lists programs started with Windows.
pub const RUN_KEY: &'static str = "Software\\Microsoft\\Windows\\CurrentVersion\\Run";

/// The Win32 error code for a value that does not exist.
pub const ERROR_FILE_NOT_FOUND: u32 = 2;

/// What to do with the registration.
#[derive(Clone, Copy, Debug, PartialEq, Eq, Structural)]
pub enum StartupAction {
    /// Write the value.
    Register,
    /// Delete the value.
    Unregister,
    /// Leave the registry as it is.
    Keep,
}

/// Whether the program is registered after `action`, when it was `registered` before
/// and the registry call succeeds.
pub open spec fn registered_after(action: StartupAction, registered: bool) -> bool {
    match action {
        StartupAction::Register => true,
        StartupAction::Unregister => false,
        StartupAction::Keep => registered,
    }
}

/// At start-up: register when it is wanted and missing, unregister when it is
/// present and not wanted, otherwise leave the registry.
pub open spec fn spec_sync_action(want_startup: bool, registered: bool) -> StartupAction {
    if want_startup && !registered {
        StartupAction::Register
    } else if !want_startup && registered {
        StartupAction::Unregister
    } else {
        StartupAction::Keep
    }
}

/// At start-up, brings the registration in line with the setting.
pub fn sync_on_startup(want_startup: bool, registered: bool) -> (action: StartupAction)
    ensures
        action == spec_sync_action(want_startup, registered),
{
    if want_startup && !registered {
        StartupAction::Register
    } else if !want_startup && registered {
        StartupAction::Unregister
    } else {
        StartupAction::Keep
    }
}

/// Once the start-up action has succeeded, the registration matches the
/// setting; and the registry is only touched when the two differed.
pub proof fn lemma_sync_matches_setting(want_startup: bool, registered: bool)
    ensures
        registered_after(spec_sync_action(want_startup, registered), registered) == want_startup,
        (want_startup == registered) ==> spec_sync_action(want_startup, registered)
            == StartupAction::Keep,
{
}

/// Deleting the value succeeded: the call returned success, or the value was
/// already absent.
pub fn unregister_succeeded(status: u32) -> (ok: bool)
    ensures
        ok == (status == 0 || status == ERROR_FILE_NOT_FOUND),
{
    status == 0 || status == ERROR_FILE_NOT_FOUND
}

} // verus!
