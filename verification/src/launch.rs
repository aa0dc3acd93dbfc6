//! Launch gating: an application image may only be flashed when the
//! storage card is mounted and an alternate boot partition exists.
use vstd::prelude::*;
use vstd::string::*;

use crate::textfmt::spec_texts;

verus! {

/// An application artifact the user asked to launch.
#[derive(Debug, Clone)]
pub struct AppLaunch {
    pub path: String,
}

impl AppLaunch {
    /// Wraps the selected image path.
    pub fn from_path(path: String) -> (s: Self)
        ensures
            s.path == path,
    {
        Self { path }
    }
}

/// What the platform found at boot: whether storage mounted and whether an
/// update partition is configured.
#[derive(Debug, Clone, Copy, PartialEq, Eq, Structural)]
pub struct AppContext {
    pub sd_ready: bool,
    pub ota_ready: bool,
}

/// Why a launch was refused.
#[derive(Debug, Clone, Copy, PartialEq, Eq, Structural)]
pub enum AppValidationError {
    MissingSd,
    MissingOta,
}

impl AppContext {
    /// Records the platform's findings.
    pub fn new(sd_ready: bool, ota_ready: bool) -> (s: Self)
        ensures
            s.sd_ready == sd_ready,
            s.ota_ready == ota_ready,
    {
        Self { sd_ready, ota_ready }
    }

    /// Permits a launch exactly when storage is mounted and an update
    /// partition exists; a missing card is reported before a missing
    /// partition.
    pub fn validate_launch(&self, launch: &AppLaunch) -> (r: Result<(), AppValidationError>)
        ensures
            r == (if !self.sd_ready {
                Err::<(), AppValidationError>(AppValidationError::MissingSd)
            } else if !self.ota_ready {
                Err::<(), AppValidationError>(AppValidationError::MissingOta)
            } else {
                Ok::<(), AppValidationError>(())
            }),
    {
        let _ = launch;
        if !self.sd_ready {
            return Err(AppValidationError::MissingSd);
        }
        if !self.ota_ready {
            return Err(AppValidationError::MissingOta);
        }
        Ok(())
    }
}

/// The message lines shown to the user for each refusal.
pub open spec fn spec_validation_lines(e: AppValidationError) -> Seq<Seq<char>> {
    match e {
        AppValidationError::MissingSd => seq![
            "SD card not mounted."@,
            "Insert card and reboot."@,
        ],
        AppValidationError::MissingOta => seq![
            "No OTA partitions found."@,
            "Update partitions.csv and rebuild."@,
        ],
    }
}

impl AppValidationError {
    /// Renders the refusal as message lines for the status screen.
    pub fn to_lines(&self) -> (r: Vec<String>)
        ensures
            spec_texts(r@) == spec_validation_lines(*self),
    {
        let mut r: Vec<String> = Vec::new();
        match self {
            AppValidationError::MissingSd => {
                r.push(String::from_str("SD card not mounted."));
                r.push(String::from_str("Insert card and reboot."));
            },
            AppValidationError::MissingOta => {
                r.push(String::from_str("No OTA partitions found."));
                r.push(String::from_str("Update partitions.csv and rebuild."));
            },
        }
        proof {
            assert(spec_texts(r@) =~= spec_validation_lines(*self));
        }
        r
    }
}

} // verus!
