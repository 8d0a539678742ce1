//! Where settings and histories are kept, under a base directory that the
//! caller supplies (the user's home directory in the desktop app).
use vstd::prelude::*;
use vstd::string::StringExecFns;

verus! {

/// The application's data directory under the home directory `home`.
pub fn get_pulse_dir(home: &str) -> (r: String)
    ensures
        r@ == home@ + "/.pulse"@,
{
    let mut r = String::from_str(home);
    r.append("/.pulse");
    r
}

/// The settings file in the data directory `dir`.
pub fn get_settings_path(dir: &str) -> (r: String)
    ensures
        r@ == dir@ + "/settings.json"@,
{
    let mut r = String::from_str(dir);
    r.append("/settings.json");
    r
}

/// The history file of app `app_id` in the data directory `dir`.
pub fn get_history_path(dir: &str, app_id: &str) -> (r: String)
    ensures
        r@ == dir@ + "/history/"@ + app_id@ + ".json"@,
{
    let mut r = String::from_str(dir);
    r.append("/history/");
    r.append(app_id);
    r.append(".json");
    r
}

} // verus!
