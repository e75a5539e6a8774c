//! Local settings and the paths of the application's files.
use vstd::prelude::*;
use std::path::PathBuf;

verus! {

#[verifier::external_type_specification]
#[verifier::external_body]
pub struct ExPathBuf(PathBuf);

/// Where the application keeps its files.
#[derive(Clone, Debug)]
pub struct AppPaths {
    pub home_dir: PathBuf,
    pub settings_path: PathBuf,
    pub database_path: PathBuf,
}

/// Whether reverse DNS lookups may be made; they contact outside
/// infrastructure, so they need the user's consent.
#[derive(Clone, Copy, Debug, PartialEq, Eq, Structural)]
pub enum ReverseDnsSetting {
    NotConfigured,
    Enabled,
    Disabled,
}

/// The local settings. The vault path is not saved with them: it is the
/// database path of the running installation, as the platform displays it.
#[derive(Clone, Debug)]
pub struct Settings {
    pub reverse_dns: ReverseDnsSetting,
    pub scan_profile: String,
    pub subnet_detection: String,
    pub logging_mode: String,
    pub vault_path: String,
}

/// `PathBuf::clone`, which the derived `Clone` of `AppPaths` calls: a copy of
/// the same path.
pub assume_specification[ <PathBuf as Clone>::clone ](p: &PathBuf) -> (res: PathBuf)
    ensures
        res == *p,
;

impl Settings {
    /// The settings of a fresh installation: reverse DNS not yet decided,
    /// the medium manual scan profile, the subnet detected before every
    /// scan, and minimal logging of sensitive data.
    pub fn defaults(vault_path: String) -> (res: Settings)
        ensures
            res.reverse_dns == ReverseDnsSetting::NotConfigured,
            res.scan_profile@ == "medium_manual_fake_v0"@,
            res.subnet_detection@ == "detect_every_scan"@,
            res.logging_mode@ == "minimal_sensitive"@,
            res.vault_path@ == vault_path@,
    {
        Settings {
            reverse_dns: ReverseDnsSetting::NotConfigured,
            scan_profile: "medium_manual_fake_v0".to_owned(),
            subnet_detection: "detect_every_scan".to_owned(),
            logging_mode: "minimal_sensitive".to_owned(),
            vault_path,
        }
    }

    /// The settings read back from the settings file, which does not hold
    /// the vault path: it is the database path of the running installation.
    pub fn loaded(
        reverse_dns: ReverseDnsSetting,
        scan_profile: String,
        subnet_detection: String,
        logging_mode: String,
        database_path: String,
    ) -> (res: Settings)
        ensures
            res.reverse_dns == reverse_dns,
            res.scan_profile@ == scan_profile@,
            res.subnet_detection@ == subnet_detection@,
            res.logging_mode@ == logging_mode@,
            res.vault_path@ == database_path@,
    {
        Settings { reverse_dns, scan_profile, subnet_detection, logging_mode, vault_path: database_path }
    }

    /// The copy of the settings that is written to the settings file.
    pub fn clone_for_save(&self) -> (res: Settings)
        ensures
            res.reverse_dns == self.reverse_dns,
            res.scan_profile@ == self.scan_profile@,
            res.subnet_detection@ == self.subnet_detection@,
            res.logging_mode@ == self.logging_mode@,
            res.vault_path@ == self.vault_path@,
    {
        Settings {
            reverse_dns: match self.reverse_dns {
                ReverseDnsSetting::NotConfigured => ReverseDnsSetting::NotConfigured,
                ReverseDnsSetting::Enabled => ReverseDnsSetting::Enabled,
                ReverseDnsSetting::Disabled => ReverseDnsSetting::Disabled,
            },
            scan_profile: self.scan_profile.clone(),
            subnet_detection: self.subnet_detection.clone(),
            logging_mode: self.logging_mode.clone(),
            vault_path: self.vault_path.clone(),
        }
    }
}

} // verus!
