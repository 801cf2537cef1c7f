//! Where the program keeps its files under the home directory.

use vstd::prelude::*;

use crate::local_path::{join_path, push_path};

verus! {

/// `~/.config/bucketctl/config.toml`, for the home directory `home`.
pub open spec fn spec_config_path(home: Seq<char>) -> Seq<char> {
    push_path(push_path(push_path(home, ".config"@), "bucketctl"@), "config.toml"@)
}

/// `~/.local/state/bucketctl/history`, for the home directory `home`.
pub open spec fn spec_history_path(home: Seq<char>) -> Seq<char> {
    push_path(push_path(push_path(push_path(home, ".local"@), "state"@), "bucketctl"@), "history"@)
}

/// The default config file; `None` where the home directory is unknown.
pub fn default_config_path(home: Option<&str>) -> (r: Option<String>)
    ensures
        match home {
            Some(h) => r matches Some(p) && p@ == spec_config_path(h@),
            None => r is None,
        },
{
    match home {
        Some(h) => {
            let a = join_path(h, ".config");
            let b = join_path(a.as_str(), "bucketctl");
            Some(join_path(b.as_str(), "config.toml"))
        },
        None => None,
    }
}

/// The shell's history file; `None` where the home directory is unknown.
pub fn history_path(home: Option<&str>) -> (r: Option<String>)
    ensures
        match home {
            Some(h) => r matches Some(p) && p@ == spec_history_path(h@),
            None => r is None,
        },
{
    match home {
        Some(h) => {
            let a = join_path(h, ".local");
            let b = join_path(a.as_str(), "state");
            let c = join_path(b.as_str(), "bucketctl");
            Some(join_path(c.as_str(), "history"))
        },
        None => None,
    }
}

} // verus!
