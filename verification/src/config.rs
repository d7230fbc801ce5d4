//! Application settings and where they are kept.
use vstd::prelude::*;
use crate::domain::ManagedHost;
use crate::path::{join, join_str};
use crate::text::text;

verus! {

/// The settings of the application.
pub struct AppConfig {
    pub profiles_path: String,
    pub hosts: Vec<ManagedHost>,
}

impl Default for AppConfig {
    fn default() -> (r: Self)
        ensures
            r.profiles_path@ == "profiles.json"@,
            r.hosts@.len() == 0,
    {
        proof {
            reveal_strlit("profiles.json");
        }
        AppConfig { profiles_path: text("profiles.json"), hosts: Vec::new() }
    }
}

/// The settings file under a configuration directory, the working directory
/// where there is none.
pub open spec fn config_file_path(config_dir: Option<Seq<char>>) -> Seq<char> {
    join(
        match config_dir {
            Some(d) => d,
            None => "."@,
        },
        "shapeshifter/config.toml"@,
    )
}

/// The user's configuration directory, from `dirs::config_dir` (dirs 7), as
/// text; a path that is not valid UTF-8 is converted lossily. Nothing is claimed
/// of the result: it comes from the environment.
#[verifier::external_body]
fn config_dir() -> (r: Option<String>) {
    dirs::config_dir().map(|p| p.to_string_lossy().into_owned())
}

/// The settings file under `config_dir`.
pub fn config_path_in(config_dir: Option<&str>) -> (r: String)
    ensures
        r@ == config_file_path(match config_dir {
            Some(d) => Some(d@),
            None => None,
        }),
{
    proof {
        reveal_strlit(".");
        reveal_strlit("shapeshifter/config.toml");
    }
    match config_dir {
        Some(d) => join_str(d, "shapeshifter/config.toml"),
        None => join_str(".", "shapeshifter/config.toml"),
    }
}

/// Where the settings are kept.
pub struct AppConfigStore;

impl AppConfigStore {
    /// The settings store of this user.
    pub fn new() -> (r: AppConfigStore) {
        AppConfigStore
    }

    /// The settings file of this user.
    pub fn path(&self) -> (r: String)
        ensures
            exists|d: Option<Seq<char>>| r@ == config_file_path(d),
    {
        let dir = config_dir();
        let r = match &dir {
            Some(d) => config_path_in(Some(d.as_str())),
            None => config_path_in(None),
        };
        assert(r@ == config_file_path(match dir {
            Some(d) => Some(d@),
            None => None,
        }));
        r
    }
}

} // verus!
