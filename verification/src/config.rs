//! Where sessions are kept, and how long they live.
use vstd::prelude::*;

use crate::paths::{join_path, joined};

verus! {

/// How long a new session lives after its last activity: one hour.
pub const DEFAULT_TTL_SECS: u64 = 3600;

/// The settings of the session store.
#[derive(Debug)]
pub struct SessionConfig {
    /// Lifetime in seconds of new sessions (`None`: they do not expire).
    pub default_ttl: Option<u64>,
    /// The directory where sessions are kept.
    pub storage_dir: String,
}

/// The configuration directory: `XDG_CONFIG_HOME` where it is set, else
/// `.config` in the home directory, or in the working directory where no home
/// directory is known.
pub open spec fn config_base(config_home: Option<Seq<char>>, home: Option<Seq<char>>) -> Seq<char> {
    match config_home {
        Some(c) => c,
        None => joined(
            match home {
                Some(h) => h,
                None => "."@,
            },
            ".config"@,
        ),
    }
}

impl SessionConfig {
    /// The settings for a user whose configuration directory variable holds
    /// `config_home` and whose home directory is `home`: sessions live one hour
    /// and are kept in `rintel/sessions` under the configuration directory.
    pub fn from_locations(config_home: Option<String>, home: Option<String>) -> (c: Self)
        ensures
            c.default_ttl == Some(DEFAULT_TTL_SECS),
            c.storage_dir@ == joined(
                joined(config_base(config_home.deep_view(), home.deep_view()), "rintel"@),
                "sessions"@,
            ),
    {
        let base = match config_home {
            Some(c) => c,
            None => {
                let h = match home {
                    Some(h) => h,
                    None => ".".to_owned(),
                };
                join_path(h.as_str(), ".config")
            },
        };
        let app_dir = join_path(base.as_str(), "rintel");
        let storage_dir = join_path(app_dir.as_str(), "sessions");
        SessionConfig { default_ttl: Some(DEFAULT_TTL_SECS), storage_dir }
    }
}

} // verus!
