//! The hosted subscription: the dashboard URL and licence key the teacher entered, and what the
//! subscription card shows of them. Licence verification slots in behind [`view_of`] once the
//! dashboard's endpoint exists.

use crate::paths::{join, path_join};
use std::path::{Path, PathBuf};
use vstd::prelude::*;
use vstd::string::StringExecFns;

verus! {

/// What the subscription card shows (never the licence key itself).
#[derive(Debug, Clone, PartialEq, Eq)]
pub struct SubscriptionView {
    /// The dashboard URL the teacher configured (empty until set).
    pub dashboard_url: String,
    /// Whether a licence key is stored.
    pub has_license: bool,
    /// The plan label: `free` with no key, `custom` (pending verification) once a key is entered.
    pub plan: String,
}

/// The card for a stored dashboard URL and whether a licence key is stored.
pub fn view_of(dashboard_url: String, has_license: bool) -> (v: SubscriptionView)
    ensures
        v.dashboard_url@ == dashboard_url@,
        v.has_license == has_license,
        v.plan@ == (if has_license {
            "custom"@
        } else {
            "free"@
        }),
{
    let plan = if has_license {
        String::from_str("custom")
    } else {
        String::from_str("free")
    };
    SubscriptionView { dashboard_url, has_license, plan }
}

/// Where the dashboard URL (JSON) and the licence key (encrypted bytes) are kept.
pub struct Store {
    config_path: PathBuf,
    key_path: PathBuf,
}

impl Store {
    /// The file holding the dashboard URL.
    pub closed spec fn config_file(&self) -> PathBuf {
        self.config_path
    }

    /// The file holding the encrypted licence key.
    pub closed spec fn key_file(&self) -> PathBuf {
        self.key_path
    }

    /// Uses `subscription.json` and `subscription.key` in the Console data directory.
    pub fn new(data_dir: &Path) -> (s: Self)
        ensures
            s.config_file() == path_join(data_dir, "subscription.json"@),
            s.key_file() == path_join(data_dir, "subscription.key"@),
    {
        Store {
            config_path: join(data_dir, "subscription.json"),
            key_path: join(data_dir, "subscription.key"),
        }
    }

    /// The file holding the dashboard URL.
    pub fn config_path(&self) -> (p: &PathBuf)
        ensures
            *p == self.config_file(),
    {
        &self.config_path
    }

    /// The file holding the encrypted licence key.
    pub fn key_path(&self) -> (p: &PathBuf)
        ensures
            *p == self.key_file(),
    {
        &self.key_path
    }

    /// The card for a stored dashboard URL: the plan follows whether the licence key file exists.
    pub fn view(&self, dashboard_url: String) -> (v: SubscriptionView)
        ensures
            v.dashboard_url@ == dashboard_url@,
            v.plan@ == (if v.has_license {
                "custom"@
            } else {
                "free"@
            }),
    {
        let has_license = crate::paths::path_exists(crate::paths::as_path(&self.key_path));
        view_of(dashboard_url, has_license)
    }
}

} // verus!
