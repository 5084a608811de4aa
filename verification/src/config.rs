//! Tool configuration: the task-list credentials and the URL prefix that
//! task identifiers are appended to.

use vstd::prelude::*;
use crate::pbs::AuthConfig;

verus! {

/// The whole configuration of the tool.
pub struct Config {
    pub auth: AuthConfig,
    pub task_url_prefix: String,
}

/// The task URL prefix used when the configuration file does not set one.
pub fn default_task_url_prefix() -> (r: String)
    ensures
        r@ == "https://pbs2.praguebest.cz/main.php?pageid=110&action=detail&id="@,
{
    String::from_str("https://pbs2.praguebest.cz/main.php?pageid=110&action=detail&id=")
}

impl Config {
    /// Builds the configuration, falling back to the default task URL
    /// prefix when the file did not set one.
    pub fn new(auth: AuthConfig, task_url_prefix: Option<String>) -> (r: Config)
        ensures
            r.auth == auth,
            r.task_url_prefix@ == (match task_url_prefix {
                Some(p) => p@,
                None => "https://pbs2.praguebest.cz/main.php?pageid=110&action=detail&id="@,
            }),
    {
        let prefix = match task_url_prefix {
            Some(p) => p,
            None => default_task_url_prefix(),
        };
        Config { auth, task_url_prefix: prefix }
    }
}

} // verus!
