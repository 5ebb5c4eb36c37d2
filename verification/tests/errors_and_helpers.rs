use corsair_elite_display::admin::{
    admin_exit_code, admin_outcome, admin_result_body, elevation_error, handle_admin_helper, recreate_failure,
    root_device_plan, AdminAction, AdminError, RootDevicePlan,
};
use corsair_elite_display::device::{
    flash_outcome, flash_steps, open_result, release_failure_note, serial_argument, split_multi_sz,
    DeviceError, FlashStep, OptionalExports,
};
use corsair_elite_display::pe::{candidate_dirs, find_dll};
use corsair_elite_display::restore::{open_failure, sweep_outcome, RestoreError, RestoreRun, RestoreStep, SweepError};
use corsair_elite_display::settings::{startup_command, startup_key_error, startup_outcome};
use corsair_elite_display::text::{from_wide, from_wide_strict, multi_sz, wide};
use corsair_elite_display::virtual_display::{
    configure_failure, devices_to_restart, driver_missing, elevation_failure, install_outcome, pnputil_failure,
    switch_outcome, uninstall_outcome, vdd_attached, vdd_device, ActivateError, ConfigFile, DriverError,
};

#[test]
fn device_error_texts() {
    assert_eq!(DeviceError::NotFound.message(), "Waiting for a supported Corsair LCD...");
    assert_eq!(
        DeviceError::Unavailable(5).message(),
        "Corsair LCD found but unavailable (Windows error 5). Close iCUE if it is using the screen."
    );
    assert_eq!(DeviceError::Brightness(31).message(), "HidD_SetFeature (brightness) failed: 31");
    assert_eq!(DeviceError::Rotation(1).message(), "HidD_SetFeature (rotation) failed: 1");
    assert_eq!(DeviceError::Feature(87).message(), "HidD_SetFeature failed with Windows error 87");
    assert_eq!(DeviceError::Write(22).message(), "WriteFile failed with error 22");
}

#[test]
fn opening_picks_the_first_interface_that_opens() {
    assert_eq!(open_result(0, None, 5), Err(DeviceError::NotFound));
    assert_eq!(open_result(3, Some(1), 5), Ok(1));
    assert_eq!(open_result(2, None, 32), Err(DeviceError::Unavailable(32)));
}

#[test]
fn release_notes_describe_the_fallback() {
    assert_eq!(
        release_failure_note("timeout", &Ok(())),
        "Hardware mode switch failed: timeout; black fallback frame sent"
    );
    assert_eq!(
        release_failure_note("timeout", &Err("gone".to_string())),
        "Hardware mode switch failed: timeout; fallback black frame failed: gone"
    );
}

#[test]
fn flashing_calls_the_library_in_order() {
    let all = OptionalExports {
        update_animation: true,
        delete_config: true,
        set_customized: true,
        set_boot: true,
        play_customized: true,
        play_boot: true,
        enter_hardware: true,
    };
    let steps = flash_steps(all);
    assert_eq!(steps.len(), 1 + 1 + 2 + 8 + 3 + 4 + 1 + 1);
    assert_eq!(steps[0], FlashStep::UpdateBackground);
    assert_eq!(steps[1], FlashStep::UpdateAnimation);
    assert_eq!(steps[4], FlashStep::SetVisible(1, 0));
    assert_eq!(steps[11], FlashStep::SetVisible(8, 0));
    assert_eq!(steps[12], FlashStep::SetVisible(0, 1));
    assert_eq!(steps[14], FlashStep::SetHardwareMode(0));
    assert_eq!(*steps.last().unwrap(), FlashStep::EnterHardwareMode);
    let none = OptionalExports {
        update_animation: false,
        delete_config: false,
        set_customized: false,
        set_boot: false,
        play_customized: false,
        play_boot: false,
        enter_hardware: false,
    };
    let steps = flash_steps(none);
    assert_eq!(steps.len(), 1 + 8 + 3 + 1);
    assert_eq!(steps[0], FlashStep::UpdateBackground);
    assert_eq!(steps[1], FlashStep::SetVisible(1, 0));
    assert_eq!(*steps.last().unwrap(), FlashStep::ShowFullScreenImage);
}

#[test]
fn flashing_succeeds_either_way() {
    assert!(flash_outcome(Some(0), false).is_ok());
    assert!(flash_outcome(Some(3), true).is_ok());
    assert!(flash_outcome(None, true).is_ok());
    assert_eq!(
        flash_outcome(Some(1), false).unwrap_err(),
        "Failed to flash image to Corsair Elite LCD. Ensure the device is connected and not locked by another application."
    );
    assert_eq!(serial_argument("AB1"), vec![b'A', b'B', b'1', 0]);
}

#[test]
fn interface_lists_split_at_zeros() {
    let list: Vec<u16> = "ab\0\0cd\0ef".encode_utf16().collect();
    let entries = split_multi_sz(&list);
    assert_eq!(entries, vec![vec![b'a' as u16, b'b' as u16], vec![b'c' as u16, b'd' as u16]]);
}

#[test]
fn restore_runs_and_sweeps() {
    let (mut run, step) = RestoreRun::start(2);
    assert_eq!(step, RestoreStep::Try(0));
    assert_eq!(run.record(Err("first".to_string())), RestoreStep::Try(1));
    assert_eq!(run.record(Err("second".to_string())), RestoreStep::Failed(RestoreError::Failed("second".to_string())));
    let (_, none) = RestoreRun::start(0);
    assert_eq!(none, RestoreStep::Failed(RestoreError::NoDevice));
    assert_eq!(RestoreError::NoDevice.message(), "No supported Corsair LCD found");
    assert_eq!(RestoreError::Unknown.message(), "Unable to restore Corsair LCD hardware mode");
    assert_eq!(open_failure(5), "Could not open Corsair LCD (Windows error 5)");

    assert_eq!(sweep_outcome(&vec![]), Err(SweepError::NoDevice));
    assert_eq!(sweep_outcome(&vec![None, Some(Err("e".to_string())), Some(Ok(()))]), Ok(()));
    assert_eq!(sweep_outcome(&vec![Some(Err("a".to_string())), None]), Err(SweepError::Failed("a".to_string())));
    let none_opened = sweep_outcome(&vec![None, None]).unwrap_err();
    assert_eq!(none_opened, SweepError::NoneOpened);
    assert_eq!(
        none_opened.message(),
        "Unable to open any Corsair LCD interface (check if iCUE has exclusive access)"
    );
}

#[test]
fn admin_helper_round_trip() {
    let args = vec!["app.exe".to_string(), "--ced-admin-uninstall-driver".to_string()];
    assert_eq!(handle_admin_helper(&args), Some(AdminAction::UninstallDriver));
    let both = vec!["--ced-admin-uninstall-driver".to_string(), "--ced-admin-install-driver".to_string()];
    assert_eq!(handle_admin_helper(&both), Some(AdminAction::InstallDriver));
    assert_eq!(handle_admin_helper(&vec!["--background".to_string()]), None);

    let failed: Result<(), String> = Err("driver refused".to_string());
    let body = admin_result_body(&failed);
    assert_eq!(body, "ERROR\ndriver refused\n");
    assert_eq!(admin_exit_code(&failed), 1);
    assert_eq!(admin_outcome(true, 1, &body), Err("driver refused".to_string()));
    assert_eq!(admin_outcome(true, 0, &admin_result_body(&Ok(()))), Ok(()));
    assert_eq!(
        admin_outcome(true, 7, "  "),
        Err("The elevated driver operation failed with exit code 7.".to_string())
    );
    assert_eq!(
        admin_outcome(false, 0, ""),
        Err("Could not read the result of the elevated driver operation.".to_string())
    );
}

#[test]
fn admin_error_texts_and_plans() {
    assert_eq!(elevation_error(1223), AdminError::Cancelled);
    assert_eq!(elevation_error(5).message(), "Windows could not elevate Corsair Elite Display (error 5).");
    assert_eq!(
        AdminError::CreateNode(13).message(),
        "Could not create the Root\\MttVDD device node (error 13)."
    );
    assert_eq!(root_device_plan(true, false), RootDevicePlan::Present);
    assert_eq!(root_device_plan(false, false), RootDevicePlan::RecreateNow);
    assert_eq!(root_device_plan(false, true), RootDevicePlan::WaitThenRecreate);
    assert_eq!(
        recreate_failure("U", "C"),
        "U\n\nThe previous uninstall also removed the virtual-display device node, and recreating it failed: C"
    );
}

#[test]
fn virtual_display_texts_and_checks() {
    assert_eq!(
        configure_failure(ConfigFile::Edid, false, "denied"),
        "Administrator privileges are required to configure the Virtual Screen EDID.\n\nPlease run Corsair Elite Display as Administrator."
    );
    assert_eq!(configure_failure(ConfigFile::Settings, true, "disk full"), "Could not write vdd_settings.xml: disk full");
    assert!(driver_missing(true).is_none());
    assert!(driver_missing(false).unwrap().starts_with("The Corsair Virtual Screen driver is not installed."));
    assert_eq!(elevation_failure(1223), DriverError::ElevationCancelled);
    assert_eq!(
        elevation_failure(2).message(),
        "Failed to request administrator privileges (Windows error 2)."
    );
    assert_eq!(install_outcome(false), Err(DriverError::NotDetected));
    assert_eq!(uninstall_outcome(false), Ok(()));
    assert_eq!(switch_outcome(false), Err("Windows could not change the display layout".to_string()));
    assert_eq!(
        ActivateError::Unavailable.message(),
        "The Corsair Virtual Screen is not available. Please verify the display driver is installed."
    );
    assert_eq!(pnputil_failure(b"out ", b"err"), "Driver installation failed:\nout err");

    let mut id: Vec<u16> = "ROOT\\MttVDD\\0000".encode_utf16().collect();
    id.push(0);
    id.extend("junk".encode_utf16());
    assert!(vdd_device(&id));
    assert!(vdd_attached(&id, 1));
    assert!(!vdd_attached(&id, 8));
    let other: Vec<u16> = "PCI\\VEN_10DE".encode_utf16().collect();
    assert!(!vdd_device(&other));
}

#[test]
fn restart_targets_come_from_the_device_listing() {
    let listing = "Microsoft PnP Utility\r\n\r\nInstance ID:                ROOT\\DISPLAY\\0000\r\nDevice Description:         Virtual Display Driver\r\nStatus: Started\r\n\r\nInstance ID: PCI\\VEN_10DE\r\nDevice Description: NVIDIA GeForce\r\nManufacturer Name: MikeTheTech\n";
    let ids = devices_to_restart(listing.as_bytes());
    assert_eq!(ids, vec!["ROOT\\DISPLAY\\0000".to_string(), "PCI\\VEN_10DE".to_string(), "Root\\MttVDD".to_string()]);
    assert_eq!(devices_to_restart(b"Device Description: MttVDD"), vec!["Root\\MttVDD".to_string()]);
}

#[test]
fn startup_registration_texts() {
    assert_eq!(startup_command("C:\\Apps\\ced.exe"), "\"C:\\Apps\\ced.exe\" --background");
    assert!(startup_outcome(true, 0).is_ok());
    assert!(startup_outcome(false, 2).is_ok());
    assert_eq!(startup_outcome(true, 2), Err("Could not update Windows startup (2)".to_string()));
    assert_eq!(startup_key_error(5), "Could not open the Windows startup key (5)");
}

#[test]
fn locating_the_vendor_library() {
    let dirs = candidate_dirs(&vec!["Zeta".to_string(), "Corsair iCUE5 Software".to_string()]);
    assert_eq!(
        dirs,
        vec![
            "CORSAIR iCUE 4 Software".to_string(),
            "Corsair iCUE 4 Software".to_string(),
            "Corsair iCUE5 Software".to_string(),
            "Zeta".to_string(),
        ]
    );
    assert_eq!(find_dll(&vec![false, true, true]), Ok(1));
    assert_eq!(
        find_dll(&vec![false]),
        Err("Could not find iD_BD_x64_cc021.dll under the Corsair Program Files directory".to_string())
    );
}

#[test]
fn wide_strings() {
    assert_eq!(wide("Ab"), vec![65, 98, 0]);
    assert_eq!(multi_sz("Root"), vec![82, 111, 111, 116, 0, 0]);
    let buf = [72u16, 105, 0, 120];
    assert_eq!(from_wide(&buf), "Hi");
    assert_eq!(from_wide_strict(&buf), Some("Hi".to_string()));
    assert_eq!(from_wide_strict(&[0xD800, 0]), None);
    assert_eq!(from_wide(&[0xD800, 65]), "\u{FFFD}A");
}

#[test]
fn wide_strings_encode_astral_characters_as_surrogate_pairs() {
    assert_eq!(wide("a\u{1F600}"), vec![0x61, 0xD83D, 0xDE00, 0]);
    assert_eq!(wide("\u{10000}\u{10FFFF}"), vec![0xD800, 0xDC00, 0xDBFF, 0xDFFF, 0]);
    let text = "Dä \u{1F4BB} Ω\u{2603}\u{1D11E}";
    let mut expected: Vec<u16> = text.encode_utf16().collect();
    expected.push(0);
    assert_eq!(wide(text), expected);
    assert_eq!(multi_sz("\u{1F600}"), vec![0xD83D, 0xDE00, 0, 0]);
}
