use hiper_supervisor::driver::{
    alternate_steps, apply_toggle, check_installer, check_tap_installed, driver_toggle,
    needs_detection, primary_steps, DriverError, DriverFiles, DriverStep, DriverToggle,
};
use hiper_supervisor::status::StatusText;

fn files(enabled: bool, disabled: bool) -> DriverFiles {
    DriverFiles { enabled, disabled }
}

#[test]
fn primary_mode_disables_the_alternate_driver() {
    assert_eq!(driver_toggle(false, files(true, false)), DriverToggle::Disable);
    assert_eq!(driver_toggle(false, files(true, true)), DriverToggle::Disable);
    assert_eq!(driver_toggle(false, files(false, true)), DriverToggle::Keep);
    assert_eq!(driver_toggle(false, files(false, false)), DriverToggle::Keep);
}

#[test]
fn alternate_mode_enables_the_alternate_driver() {
    assert_eq!(driver_toggle(true, files(false, true)), DriverToggle::Enable);
    assert_eq!(driver_toggle(true, files(true, true)), DriverToggle::Enable);
    assert_eq!(driver_toggle(true, files(true, false)), DriverToggle::Keep);
    assert_eq!(driver_toggle(true, files(false, false)), DriverToggle::Keep);
}

#[test]
fn toggling_twice_renames_once() {
    for use_alternate in [false, true] {
        for enabled in [false, true] {
            for disabled in [false, true] {
                let before = files(enabled, disabled);
                let after = apply_toggle(before, driver_toggle(use_alternate, before));
                assert_eq!(driver_toggle(use_alternate, after), DriverToggle::Keep);
                if !use_alternate {
                    assert!(!after.enabled);
                }
            }
        }
    }
}

#[test]
fn renaming_moves_the_file() {
    assert_eq!(apply_toggle(files(true, false), DriverToggle::Disable), files(false, true));
    assert_eq!(apply_toggle(files(false, true), DriverToggle::Enable), files(true, false));
    assert_eq!(apply_toggle(files(true, true), DriverToggle::Enable), files(true, false));
    assert_eq!(apply_toggle(files(true, true), DriverToggle::Keep), files(true, true));
}

#[test]
fn detection_only_in_primary_mode_on_windows() {
    assert!(needs_detection(true, false));
    assert!(!needs_detection(true, true));
    assert!(!needs_detection(false, false));
    assert!(!needs_detection(false, true));
}

#[test]
fn loaded_driver_is_recognised_by_the_end_of_its_name() {
    let names = vec![b"ntoskrnl.exe".to_vec(), b"tap0901.sys".to_vec()];
    assert!(check_tap_installed(&names));
    let names = vec![b"C:\\Windows\\System32\\drivers\\tap0901.sys".to_vec()];
    assert!(check_tap_installed(&names));
    let names = vec![b"tap0901.sys.bak".to_vec(), b"wintun.sys".to_vec(), b"".to_vec()];
    assert!(!check_tap_installed(&names));
    assert!(!check_tap_installed(&Vec::new()));
}

#[test]
fn alternate_driver_is_fetched_when_missing_on_windows() {
    assert_eq!(
        alternate_steps(true, true, files(false, false)),
        vec![DriverStep::Announce(StatusText::FetchingAlternateDriver), DriverStep::FetchAlternate]
    );
    assert_eq!(alternate_steps(true, true, files(true, false)), vec![]);
    assert_eq!(alternate_steps(true, false, files(false, false)), vec![]);
    assert_eq!(alternate_steps(false, true, files(false, false)), vec![]);
}

#[test]
fn primary_driver_is_installed_when_not_loaded() {
    assert_eq!(primary_steps(true, false), vec![]);
    assert_eq!(primary_steps(true, true), vec![]);
    assert_eq!(
        primary_steps(false, true),
        vec![DriverStep::Announce(StatusText::InstallingDriver), DriverStep::RunInstaller]
    );
    assert_eq!(
        primary_steps(false, false),
        vec![
            DriverStep::Announce(StatusText::FetchingDriverInstaller),
            DriverStep::FetchInstaller,
            DriverStep::Announce(StatusText::InstallingDriver),
            DriverStep::RunInstaller,
        ]
    );
}

#[test]
fn installer_must_exit_with_zero() {
    assert_eq!(check_installer(Some(0)), Ok(()));
    assert_eq!(check_installer(Some(1)), Err(DriverError::InstallerFailed(1)));
    assert_eq!(check_installer(Some(-1)), Err(DriverError::InstallerFailed(-1)));
    assert_eq!(check_installer(None), Err(DriverError::InstallerKilled));
}
