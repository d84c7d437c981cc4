//! The virtual-network drivers: which of the two is active, and what has to be
//! installed.
//!
//! Two drivers exclude each other. The alternate driver is a file in the
//! installation directory; it is switched off by renaming it with a
//! `.disabled` suffix and switched on by renaming it back. The primary driver
//! is a kernel driver, which an installer brings; it is in use whenever the
//! alternate driver is not.

use vstd::prelude::*;
use vstd::string::StringSliceAdditionalSpecFns;
use crate::status::{ErrorKind, StatusText};
use crate::text::{ends_with, has_suffix};

verus! {

/// Which forms of the alternate driver's file exist.
#[derive(Clone, Copy, Debug, PartialEq, Eq, Structural)]
pub struct DriverFiles {
    /// The file exists under its own name: the alternate driver is on.
    pub enabled: bool,
    /// The file exists under its name with the `.disabled` suffix.
    pub disabled: bool,
}

/// A renaming that switches the alternate driver.
#[derive(Clone, Copy, Debug, PartialEq, Eq, Structural)]
pub enum DriverToggle {
    /// The file is already as the mode wants it: nothing is renamed.
    Keep,
    /// Rename the file to its name with the `.disabled` suffix.
    Disable,
    /// Rename the file with the `.disabled` suffix back to its name.
    Enable,
}

/// Why the driver could not be provided.
#[derive(Clone, Copy, Debug, PartialEq, Eq, Structural)]
pub enum DriverError {
    /// The installer did not report its exit status: it was killed.
    InstallerKilled,
    /// The installer ended with the given status, which is not success.
    InstallerFailed(i32),
}

impl DriverError {
    /// The kind of launch error that this error amounts to: every driver
    /// error is an error of installing.
    pub fn kind(self) -> (r: ErrorKind)
        ensures
            r == ErrorKind::Install,
    {
        ErrorKind::Install
    }
}

/// One step of providing a driver.
#[derive(Clone, Copy, Debug, PartialEq, Eq, Structural)]
pub enum DriverStep {
    /// Show what is being done.
    Announce(StatusText),
    /// Download the alternate driver and store it under its name.
    FetchAlternate,
    /// Download the installer of the primary driver and store it.
    FetchInstaller,
    /// Run the installer silently and wait for its exit.
    RunInstaller,
}

/// The end of the file name of the primary driver, by which a loaded driver
/// is recognised.
pub const PRIMARY_DRIVER: &'static str = "tap0901.sys";

/// The bytes of the end of the primary driver's file name.
pub open spec fn primary_driver_name() -> Seq<u8> {
    PRIMARY_DRIVER.spec_bytes()
}

/// The renaming that the mode calls for: in the primary mode an enabled file
/// is disabled, in the alternate mode a disabled file is enabled, and
/// otherwise the files stay.
pub open spec fn toggle_for(use_alternate: bool, files: DriverFiles) -> DriverToggle {
    if !use_alternate && files.enabled {
        DriverToggle::Disable
    } else if use_alternate && files.disabled {
        DriverToggle::Enable
    } else {
        DriverToggle::Keep
    }
}

/// The files after a renaming. A renaming replaces the file of the new name.
pub open spec fn toggled(files: DriverFiles, toggle: DriverToggle) -> DriverFiles {
    match toggle {
        DriverToggle::Keep => files,
        DriverToggle::Disable => DriverFiles { enabled: false, disabled: true },
        DriverToggle::Enable => DriverFiles { enabled: true, disabled: false },
    }
}

/// The primary driver has to be looked for among the loaded drivers: only on
/// the system that needs it, and only in the primary mode.
pub open spec fn detection_needed(windows: bool, use_alternate: bool) -> bool {
    windows && !use_alternate
}

/// The steps that provide the alternate driver: it is fetched in the
/// alternate mode, where the system needs it and its file is missing.
pub open spec fn alternate_sequence(
    windows: bool,
    use_alternate: bool,
    files: DriverFiles,
) -> Seq<DriverStep> {
    if windows && use_alternate && !files.enabled {
        seq![DriverStep::Announce(StatusText::FetchingAlternateDriver), DriverStep::FetchAlternate]
    } else {
        Seq::empty()
    }
}

/// The steps that provide the primary driver: nothing where it is loaded;
/// otherwise the installer is fetched unless it is at hand, and run.
pub open spec fn primary_sequence(loaded: bool, installer_present: bool) -> Seq<DriverStep> {
    if loaded {
        Seq::empty()
    } else if installer_present {
        seq![DriverStep::Announce(StatusText::InstallingDriver), DriverStep::RunInstaller]
    } else {
        seq![
            DriverStep::Announce(StatusText::FetchingDriverInstaller),
            DriverStep::FetchInstaller,
            DriverStep::Announce(StatusText::InstallingDriver),
            DriverStep::RunInstaller,
        ]
    }
}

/// One of the names ends as the file name of the primary driver does.
pub open spec fn driver_listed(names: Seq<Vec<u8>>) -> bool {
    exists|i: int| 0 <= i < names.len() && has_suffix(#[trigger] names[i]@, primary_driver_name())
}

/// Decides which renaming switches the alternate driver as the mode wants
/// it.
pub fn driver_toggle(use_alternate: bool, files: DriverFiles) -> (r: DriverToggle)
    ensures
        r == toggle_for(use_alternate, files),
{
    if !use_alternate && files.enabled {
        DriverToggle::Disable
    } else if use_alternate && files.disabled {
        DriverToggle::Enable
    } else {
        DriverToggle::Keep
    }
}

/// The files as they are after the renaming.
pub fn apply_toggle(files: DriverFiles, toggle: DriverToggle) -> (r: DriverFiles)
    ensures
        r == toggled(files, toggle),
{
    match toggle {
        DriverToggle::Keep => files,
        DriverToggle::Disable => DriverFiles { enabled: false, disabled: true },
        DriverToggle::Enable => DriverFiles { enabled: true, disabled: false },
    }
}

/// Whether the loaded drivers have to be looked through for the primary
/// driver.
pub fn needs_detection(windows: bool, use_alternate: bool) -> (r: bool)
    ensures
        r == detection_needed(windows, use_alternate),
{
    windows && !use_alternate
}

/// Whether the primary driver is among the loaded drivers, given by their
/// file names.
pub fn check_tap_installed(names: &Vec<Vec<u8>>) -> (r: bool)
    ensures
        r == driver_listed(names@),
{
    let wanted = PRIMARY_DRIVER.as_bytes();
    let mut i: usize = 0;
    while i < names.len()
        invariant
            i <= names@.len(),
            wanted@ == primary_driver_name(),
            forall|k: int| 0 <= k < i ==> !has_suffix(#[trigger] names@[k]@, primary_driver_name()),
        decreases names@.len() - i,
    {
        if ends_with(names[i].as_slice(), wanted) {
            return true;
        }
        i += 1;
    }
    false
}

/// The steps that provide the alternate driver, for the files as they are
/// after the renaming.
pub fn alternate_steps(windows: bool, use_alternate: bool, files: DriverFiles) -> (r: Vec<
    DriverStep,
>)
    ensures
        r@ == alternate_sequence(windows, use_alternate, files),
{
    let mut steps: Vec<DriverStep> = Vec::new();
    if windows && use_alternate && !files.enabled {
        steps.push(DriverStep::Announce(StatusText::FetchingAlternateDriver));
        steps.push(DriverStep::FetchAlternate);
    }
    assert(steps@ =~= alternate_sequence(windows, use_alternate, files));
    steps
}

/// The steps that provide the primary driver, by whether it is loaded and
/// whether its installer is at hand.
pub fn primary_steps(loaded: bool, installer_present: bool) -> (r: Vec<DriverStep>)
    ensures
        r@ == primary_sequence(loaded, installer_present),
{
    let mut steps: Vec<DriverStep> = Vec::new();
    if !loaded {
        if !installer_present {
            steps.push(DriverStep::Announce(StatusText::FetchingDriverInstaller));
            steps.push(DriverStep::FetchInstaller);
        }
        steps.push(DriverStep::Announce(StatusText::InstallingDriver));
        steps.push(DriverStep::RunInstaller);
    }
    assert(steps@ =~= primary_sequence(loaded, installer_present));
    steps
}

/// Judges the exit of the installer: success is the exit status 0.
pub fn check_installer(exit_code: Option<i32>) -> (r: Result<(), DriverError>)
    ensures
        r == match exit_code {
            Some(code) => if code == 0 {
                Ok::<(), DriverError>(())
            } else {
                Err(DriverError::InstallerFailed(code))
            },
            None => Err(DriverError::InstallerKilled),
        },
{
    match exit_code {
        Some(code) => if code == 0 {
            Ok(())
        } else {
            Err(DriverError::InstallerFailed(code))
        },
        None => Err(DriverError::InstallerKilled),
    }
}

/// Switching the driver is idempotent: once the renaming that a mode calls
/// for is done, the same mode calls for none. The primary mode leaves the
/// alternate driver off, and the alternate mode leaves it on wherever its file
/// exists in either form.
pub proof fn lemma_toggle_idempotent(use_alternate: bool, files: DriverFiles)
    ensures
        toggle_for(use_alternate, toggled(files, toggle_for(use_alternate, files)))
            == DriverToggle::Keep,
        !use_alternate ==> !toggled(files, toggle_for(use_alternate, files)).enabled,
        use_alternate && (files.enabled || files.disabled) ==> toggled(
            files,
            toggle_for(use_alternate, files),
        ).enabled,
{
}

} // verus!
