//! What a start of the executable does, chosen from its command line.

use vstd::prelude::*;
use crate::admin::{any_arg_is, handle_admin_helper, has_arg, AdminAction, ADMIN_INSTALL_ARG, ADMIN_UNINSTALL_ARG};
use crate::text::{push_str, string_of};

verus! {

/// The ways the executable runs.
#[derive(Clone, Copy, Debug, PartialEq, Eq, Structural)]
pub enum LaunchMode {
    /// The elevated driver helper: perform the action and exit with its code.
    AdminHelper(AdminAction),
    /// Capture and encode one frame, then exit (0 on success).
    SelfTest,
    /// Hand any connected LCD back to its hardware screen, then exit.
    RestoreHardware,
    /// The tray application; `background` when started at sign-in.
    Tray { background: bool },
}

/// Arguments that ask for the hardware screen to be restored.
pub open spec fn asks_restore(args: Seq<String>) -> bool {
    has_arg(args, "--hardware-mode"@) || has_arg(args, "--restore-hardware"@) || has_arg(args, "--off"@)
        || has_arg(args, "-hw"@)
}

/// The mode for a command line: the driver helper first (so an elevated
/// copy can run beside the tray instance), then the self-test, then the
/// hardware restore, else the tray application.
pub open spec fn launch_mode_spec(args: Seq<String>) -> LaunchMode {
    if has_arg(args, ADMIN_INSTALL_ARG@) {
        LaunchMode::AdminHelper(AdminAction::InstallDriver)
    } else if has_arg(args, ADMIN_UNINSTALL_ARG@) {
        LaunchMode::AdminHelper(AdminAction::UninstallDriver)
    } else if has_arg(args, "--self-test"@) {
        LaunchMode::SelfTest
    } else if asks_restore(args) {
        LaunchMode::RestoreHardware
    } else {
        LaunchMode::Tray { background: has_arg(args, "--background"@) }
    }
}

/// Chooses how this start runs (see `launch_mode_spec`).
pub fn launch_mode(args: &Vec<String>) -> (m: LaunchMode)
    ensures
        m == launch_mode_spec(args@),
{
    if let Some(action) = handle_admin_helper(args) {
        return LaunchMode::AdminHelper(action);
    }
    if any_arg_is(args, "--self-test") {
        LaunchMode::SelfTest
    } else if any_arg_is(args, "--hardware-mode") || any_arg_is(args, "--restore-hardware") || any_arg_is(
        args,
        "--off",
    ) || any_arg_is(args, "-hw") {
        LaunchMode::RestoreHardware
    } else {
        LaunchMode::Tray { background: any_arg_is(args, "--background") }
    }
}

/// The report a hardware restore from the command line leaves behind.
pub fn restore_report(result: &Result<(), String>) -> (s: String)
    ensures
        s@ == (match result {
            Ok(()) => "Successfully restored hardware mode\n"@,
            Err(e) => "Failed to restore hardware mode: "@ + e@ + "\n"@,
        }),
{
    let mut v: Vec<char> = Vec::new();
    match result {
        Ok(()) => push_str(&mut v, "Successfully restored hardware mode\n"),
        Err(e) => {
            push_str(&mut v, "Failed to restore hardware mode: ");
            push_str(&mut v, e.as_str());
            push_str(&mut v, "\n");
        },
    }
    string_of(&v)
}

/// The exit code of a command-line run: 0 on success, 1 on failure.
pub fn exit_code(ok: bool) -> (code: i32)
    ensures
        code == (if ok { 0i32 } else { 1i32 }),
{
    if ok { 0 } else { 1 }
}

} // verus!
