use vstd::prelude::*;
use vstd::string::StringExecFns;

verus! {

/// Application-level settings persisted as a single JSON document.
#[derive(Debug, Clone, Copy)]
pub struct AppSettings {
    pub auto_start: bool,
    pub minimize_to_tray: bool,
    pub auto_start_verdaccio: bool,
    pub default_port: u16,
    pub allow_lan: bool,
}

/// The port the registry listens on when the settings document names none.
pub fn default_port() -> (r: u16)
    ensures
        r == 4873,
{
    4873
}

/// The path of the settings document under the given base directory.
pub fn get_settings_path(home: &str) -> (r: String)
    ensures
        r@ == home@ + "/.mint-verdaccio/settings.json"@,
{
    home.to_owned().concat("/.mint-verdaccio/settings.json")
}

impl Default for AppSettings {
    /// Settings used when no settings document exists yet.
    fn default() -> (r: Self)
        ensures
            !r.auto_start,
            r.minimize_to_tray,
            !r.auto_start_verdaccio,
            r.default_port == 4873,
            !r.allow_lan,
    {
        AppSettings {
            auto_start: false,
            minimize_to_tray: true,
            auto_start_verdaccio: false,
            default_port: 4873,
            allow_lan: false,
        }
    }
}

} // verus!
