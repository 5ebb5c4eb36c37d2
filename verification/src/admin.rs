//! The elevated driver helper: which operation a helper invocation asks
//! for, how its outcome is written for the requesting instance, and how the
//! requesting instance reads that outcome back.

use vstd::prelude::*;
use crate::text::{chars_of, decimal, push_decimal, push_str, push_all, starts_with, starts_with_seq, slice_chars, string_of, trim, trim_chars};

verus! {

/// Argument that asks the elevated helper to install the driver.
pub const ADMIN_INSTALL_ARG: &'static str = "--ced-admin-install-driver";
/// Argument that asks the elevated helper to uninstall the driver.
pub const ADMIN_UNINSTALL_ARG: &'static str = "--ced-admin-uninstall-driver";

/// The privileged operations the helper performs.
#[derive(Clone, Copy, Debug, PartialEq, Eq, Structural)]
pub enum AdminAction {
    InstallDriver,
    UninstallDriver,
}

/// Some argument equals `arg`.
pub open spec fn has_arg(args: Seq<String>, arg: Seq<char>) -> bool {
    exists|i: int| 0 <= i < args.len() && (#[trigger] args[i])@ == arg
}

pub(crate) fn any_arg_is(args: &Vec<String>, arg: &str) -> (r: bool)
    ensures
        r == has_arg(args@, arg@),
{
    let wanted = chars_of(arg);
    for i in 0..args.len()
        invariant
            wanted@ == arg@,
            forall|j: int| 0 <= j < i ==> (#[trigger] args@[j])@ != arg@,
    {
        let a = chars_of(args[i].as_str());
        if crate::text::chars_equal(&a, &wanted) {
            assert((args@[i as int])@ == arg@);
            return true;
        }
    }
    false
}

/// The helper operation that the command line asks for: install when the
/// install argument is present, else uninstall when the uninstall argument
/// is present, else none (the normal application starts).
pub fn handle_admin_helper(args: &Vec<String>) -> (r: Option<AdminAction>)
    ensures
        has_arg(args@, ADMIN_INSTALL_ARG@) ==> r == Some(AdminAction::InstallDriver),
        !has_arg(args@, ADMIN_INSTALL_ARG@) && has_arg(args@, ADMIN_UNINSTALL_ARG@) ==> r == Some(AdminAction::UninstallDriver),
        !has_arg(args@, ADMIN_INSTALL_ARG@) && !has_arg(args@, ADMIN_UNINSTALL_ARG@) ==> r is None,
{
    if any_arg_is(args, ADMIN_INSTALL_ARG) {
        Some(AdminAction::InstallDriver)
    } else if any_arg_is(args, ADMIN_UNINSTALL_ARG) {
        Some(AdminAction::UninstallDriver)
    } else {
        None
    }
}

/// The helper's exit code for an outcome: 0 on success, 1 on failure.
pub fn admin_exit_code(result: &Result<(), String>) -> (code: i32)
    ensures
        result is Ok ==> code == 0,
        result is Err ==> code == 1,
{
    if result.is_ok() { 0 } else { 1 }
}

/// The result file the helper leaves for the requesting instance:
/// `OK\n`, or `ERROR\n` followed by the error and a line feed.
pub open spec fn admin_result_text(result: Result<(), String>) -> Seq<char> {
    match result {
        Ok(()) => "OK\n"@,
        Err(e) => "ERROR\n"@ + e@ + "\n"@,
    }
}

/// Builds the helper's result file.
pub fn admin_result_body(result: &Result<(), String>) -> (s: String)
    ensures
        s@ == admin_result_text(*result),
{
    let mut v: Vec<char> = Vec::new();
    match result {
        Ok(()) => push_str(&mut v, "OK\n"),
        Err(e) => {
            push_str(&mut v, "ERROR\n");
            push_str(&mut v, e.as_str());
            push_str(&mut v, "\n");
        }
    }
    string_of(&v)
}

/// The failure detail in a result file: the text after a leading `ERROR\n`
/// (or all of it), without surrounding whitespace.
pub open spec fn admin_detail(text: Seq<char>) -> Seq<char> {
    let rest = if starts_with_seq(text, "ERROR\n"@) { text.subrange(6, text.len() as int) } else { text };
    trim(rest)
}

/// The error reported when the helper's exit code cannot be read.
pub open spec fn unreadable_result_message() -> Seq<char> {
    "Could not read the result of the elevated driver operation."@
}

/// The error reported for a failed helper that left no detail.
pub open spec fn exit_code_message(code: u32) -> Seq<char> {
    "The elevated driver operation failed with exit code "@ + decimal(code as nat) + "."@
}

/// How the requesting instance judges the elevated helper: an unreadable
/// exit code is an error; a non-zero exit code fails with the detail from
/// the result file, or with the exit code when there is none; 0 succeeds.
pub fn admin_outcome(got_exit_code: bool, exit_code: u32, result_text: &str) -> (r: Result<(), String>)
    ensures
        !got_exit_code ==> (r matches Err(e) && e@ == unreadable_result_message()),
        got_exit_code && exit_code == 0 ==> r is Ok,
        got_exit_code && exit_code != 0 ==> (r matches Err(e) && e@ == (
            if admin_detail(result_text@).len() == 0 {
                exit_code_message(exit_code)
            } else {
                admin_detail(result_text@)
            })),
{
    if !got_exit_code {
        let mut v: Vec<char> = Vec::new();
        push_str(&mut v, "Could not read the result of the elevated driver operation.");
        return Err(string_of(&v));
    }
    if exit_code != 0 {
        let text = chars_of(result_text);
        let prefix = chars_of("ERROR\n");
        proof {
            reveal_strlit("ERROR\n");
        }
        let rest = if starts_with(&text, &prefix) { slice_chars(&text, 6, text.len()) } else { slice_chars(&text, 0, text.len()) };
        assert(text@.subrange(0, text@.len() as int) =~= text@);
        let detail = trim_chars(&rest);
        if detail.len() == 0 {
            let mut v: Vec<char> = Vec::new();
            push_str(&mut v, "The elevated driver operation failed with exit code ");
            push_decimal(&mut v, exit_code as u64);
            push_str(&mut v, ".");
            return Err(string_of(&v));
        }
        return Err(string_of(&detail));
    }
    Ok(())
}

/// Result-file law: when the helper fails with error `e` (exit code 1),
/// the requesting instance reports `e` without surrounding whitespace, or
/// the exit-code message when `e` is blank; when it succeeds, success.
pub proof fn lemma_admin_result_roundtrip(e: String)
    ensures
        admin_detail(admin_result_text(Err(e))) == trim(e@ + "\n"@),
{
    reveal_strlit("ERROR\n");
    reveal_strlit("\n");
    let text = admin_result_text(Err(e));
    assert(text.subrange(0, 6) =~= "ERROR\n"@);
    assert(text.subrange(6, text.len() as int) =~= e@ + "\n"@);
}

// ---------------------------------------------------------------------
// Installing and removing the driver

/// Why a driver operation of the helper, or the request for it, failed.
#[derive(Clone, Copy, Debug, PartialEq, Eq, Structural)]
pub enum AdminError {
    /// The helper runs without administrator rights.
    NotElevated,
    /// Windows refused the driver package (Windows error).
    InstallPackage(u32),
    /// Windows could not bind the driver to the device (Windows error).
    Bind(u32),
    /// No device-information set could be created (Windows error).
    DeviceSet(u32),
    /// The root device node could not be created (Windows error).
    CreateNode(u32),
    /// The node's hardware id could not be set (Windows error).
    HardwareId(u32),
    /// The node could not be registered (Windows error).
    Register(u32),
    /// The package is installed but the device never became ready.
    NotExposed,
    /// Windows refused to remove the driver package (Windows error).
    UninstallPackage(u32),
    /// The user cancelled the elevation prompt.
    Cancelled,
    /// Elevation failed (Windows error).
    Elevation(u32),
    /// The elevated process has no handle.
    NoProcess,
    /// The elevated process ran for more than two minutes.
    TimedOut,
    /// The elevated install finished, but the screen is not ready.
    NotReady,
    /// The elevated uninstall finished, but the screen is still configured.
    StillConfigured,
}

pub open spec fn admin_error_text(e: AdminError) -> Seq<char> {
    match e {
        AdminError::NotElevated => "The driver helper was not started with administrator privileges."@,
        AdminError::InstallPackage(c) => "Windows could not install the Virtual Display Driver package (error "@
            + decimal(c as nat) + ")."@,
        AdminError::Bind(c) => "Windows could not bind the Virtual Display Driver (error "@ + decimal(c as nat)
            + ")."@,
        AdminError::DeviceSet(c) => "Could not create a Windows device-information set (error "@ + decimal(
            c as nat,
        ) + ")."@,
        AdminError::CreateNode(c) => "Could not create the Root\\MttVDD device node (error "@ + decimal(c as nat)
            + ")."@,
        AdminError::HardwareId(c) => "Could not assign the Root\\MttVDD hardware ID (error "@ + decimal(c as nat)
            + ")."@,
        AdminError::Register(c) => "Could not register the Root\\MttVDD virtual-display device (error "@
            + decimal(c as nat) + ")."@,
        AdminError::NotExposed => "The driver package was installed, but Windows did not expose the Corsair Virtual Screen device after installation."@,
        AdminError::UninstallPackage(c) => "Windows could not uninstall the Virtual Display Driver package (error "@
            + decimal(c as nat) + ")."@,
        AdminError::Cancelled => "Administrator permission was not granted (the UAC prompt was cancelled)."@,
        AdminError::Elevation(c) => "Windows could not elevate Corsair Elite Display (error "@ + decimal(c as nat)
            + ")."@,
        AdminError::NoProcess => "Windows did not return a process handle for the elevated app."@,
        AdminError::TimedOut => "The elevated driver operation timed out after two minutes."@,
        AdminError::NotReady => "The elevated install completed, but the Corsair Virtual Screen is still not ready."@,
        AdminError::StillConfigured => "The elevated uninstall completed, but the Corsair Virtual Screen still appears to be configured."@,
    }
}

fn coded(v: &mut Vec<char>, head: &str, code: u32)
    ensures
        final(v)@ == old(v)@ + head@ + decimal(code as nat) + ")."@,
{
    push_str(v, head);
    push_decimal(v, code as u64);
    push_str(v, ").");
}

impl AdminError {
    /// The error text.
    pub fn message(&self) -> (s: String)
        ensures
            s@ == admin_error_text(*self),
    {
        let mut v: Vec<char> = Vec::new();
        match *self {
            AdminError::NotElevated => push_str(&mut v, "The driver helper was not started with administrator privileges."),
            AdminError::InstallPackage(c) => coded(&mut v, "Windows could not install the Virtual Display Driver package (error ", c),
            AdminError::Bind(c) => coded(&mut v, "Windows could not bind the Virtual Display Driver (error ", c),
            AdminError::DeviceSet(c) => coded(&mut v, "Could not create a Windows device-information set (error ", c),
            AdminError::CreateNode(c) => coded(&mut v, "Could not create the Root\\MttVDD device node (error ", c),
            AdminError::HardwareId(c) => coded(&mut v, "Could not assign the Root\\MttVDD hardware ID (error ", c),
            AdminError::Register(c) => coded(&mut v, "Could not register the Root\\MttVDD virtual-display device (error ", c),
            AdminError::NotExposed => push_str(&mut v, "The driver package was installed, but Windows did not expose the Corsair Virtual Screen device after installation."),
            AdminError::UninstallPackage(c) => coded(&mut v, "Windows could not uninstall the Virtual Display Driver package (error ", c),
            AdminError::Cancelled => push_str(&mut v, "Administrator permission was not granted (the UAC prompt was cancelled)."),
            AdminError::Elevation(c) => coded(&mut v, "Windows could not elevate Corsair Elite Display (error ", c),
            AdminError::NoProcess => push_str(&mut v, "Windows did not return a process handle for the elevated app."),
            AdminError::TimedOut => push_str(&mut v, "The elevated driver operation timed out after two minutes."),
            AdminError::NotReady => push_str(&mut v, "The elevated install completed, but the Corsair Virtual Screen is still not ready."),
            AdminError::StillConfigured => push_str(&mut v, "The elevated uninstall completed, but the Corsair Virtual Screen still appears to be configured."),
        }
        string_of(&v)
    }
}

/// The error for a failed request to start the elevated helper: the
/// cancelled prompt (Windows error 1223) is named as such.
pub fn elevation_error(code: u32) -> (e: AdminError)
    ensures
        e == (if code == 1223 { AdminError::Cancelled } else { AdminError::Elevation(code) }),
{
    if code == 1223 {
        AdminError::Cancelled
    } else {
        AdminError::Elevation(code)
    }
}

/// What the install does about the root device node once the package is
/// installed and the first driver update was tried.
#[derive(Clone, Copy, Debug, PartialEq, Eq, Structural)]
pub enum RootDevicePlan {
    /// Windows exposes the device: nothing to do.
    Present,
    /// The update failed and the device is gone (an older release removed
    /// the node): recreate it and update again.
    RecreateNow,
    /// The update worked but the device is not there yet: check again up
    /// to 10 times, 200 ms apart, and recreate it if it never shows.
    WaitThenRecreate,
}

/// Checks for the device before recreating its node.
pub const NODE_CHECKS: u32 = 10;
/// Checks for readiness after installing, 200 ms apart.
pub const READY_CHECKS: u32 = 40;
/// Checks for readiness after the elevated install, 200 ms apart.
pub const ELEVATED_READY_CHECKS: u32 = 20;

/// The plan for the root device node.
pub fn root_device_plan(installed: bool, first_update_ok: bool) -> (p: RootDevicePlan)
    ensures
        p == (if installed {
            RootDevicePlan::Present
        } else if !first_update_ok {
            RootDevicePlan::RecreateNow
        } else {
            RootDevicePlan::WaitThenRecreate
        }),
{
    if installed {
        RootDevicePlan::Present
    } else if !first_update_ok {
        RootDevicePlan::RecreateNow
    } else {
        RootDevicePlan::WaitThenRecreate
    }
}

pub open spec fn recreate_failure_text(update_error: Seq<char>, create_error: Seq<char>) -> Seq<char> {
    update_error
        + "\n\nThe previous uninstall also removed the virtual-display device node, and recreating it failed: "@
        + create_error
}

/// The error when the driver update failed and recreating the node failed
/// too: both errors.
pub fn recreate_failure(update_error: &str, create_error: &str) -> (s: String)
    ensures
        s@ == recreate_failure_text(update_error@, create_error@),
{
    let mut v: Vec<char> = Vec::new();
    push_str(&mut v, update_error);
    push_str(&mut v, "\n\nThe previous uninstall also removed the virtual-display device node, and recreating it failed: ");
    push_str(&mut v, create_error);
    string_of(&v)
}

} // verus!
