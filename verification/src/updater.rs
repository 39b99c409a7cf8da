//! Application update metadata and the current version.

use vstd::prelude::*;

verus! {

/// Information about an available update.
pub struct UpdateInfo {
    pub version: String,
    pub current_version: String,
    pub release_notes: Option<String>,
    pub download_url: Option<String>,
    pub published_at: Option<String>,
}

/// The outcome of an update check.
pub struct UpdateStatus {
    pub available: bool,
    pub info: Option<UpdateInfo>,
    pub error: Option<String>,
}

/// How update checks are performed.
pub struct UpdateConfig {
    /// Endpoint queried for the latest release.
    pub endpoint: String,
    /// Hours between checks.
    pub check_interval_hours: u32,
    /// Download updates without asking.
    pub auto_download: bool,
    /// Install downloaded updates on exit.
    pub auto_install: bool,
}

impl Default for UpdateConfig {
    fn default() -> (r: Self)
        ensures
            r.check_interval_hours == 24,
            !r.auto_download,
            !r.auto_install,
    {
        UpdateConfig {
            endpoint: String::from_str("https://your-server.com/api/updates/latest"),
            check_interval_hours: 24,
            auto_download: false,
            auto_install: false,
        }
    }
}

/// The version of this crate.
pub fn get_current_version() -> (r: String)
    ensures
        r@ == "0.1.0"@,
{
    String::from_str("0.1.0")
}

} // verus!
