//! Data for endpoints under `api/client/servers/{server}/backups`.

use vstd::prelude::*;
use vstd::string::StringExecFns;

verus! {

/// The parameters to create a backup.
#[derive(Debug, Clone)]
pub struct BackupParams {
    /// The name of the backup, or `None` for a server-chosen one
    pub name: Option<String>,
    /// Whether the backup is locked
    pub is_locked: bool,
}

impl BackupParams {
    /// Creates the default backup parameters: no name, not locked.
    pub fn new() -> (r: Self)
        ensures
            r.name is None,
            !r.is_locked,
    {
        BackupParams { name: None, is_locked: false }
    }

    /// Sets the name of the backup.
    pub fn with_name(self, name: &str) -> (r: Self)
        ensures
            match r.name {
                Some(n) => n@ == name@,
                None => false,
            },
            r.is_locked == self.is_locked,
    {
        BackupParams { name: Some(String::from_str(name)), is_locked: self.is_locked }
    }

    /// Makes the backup locked. Please note that this requires extra
    /// permissions.
    pub fn set_locked(self) -> (r: Self)
        ensures
            r.name == self.name,
            r.is_locked,
    {
        BackupParams { name: self.name, is_locked: true }
    }
}

impl Default for BackupParams {
    /// The default backup parameters: no name, not locked.
    fn default() -> (r: Self)
        ensures
            r.name is None,
            !r.is_locked,
    {
        BackupParams::new()
    }
}

} // verus!
