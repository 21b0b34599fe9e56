//! The fixed settings of a scan and the defaults for what the environment
//! leaves unset.

use vstd::prelude::*;
use vstd::string::StringExecFns;

verus! {

/// The desktop environment assumed where none is configured.
pub open spec fn default_desktop() -> Seq<char> {
    "Hyprland"@
}

/// The active desktop environment: the configured one, or the default where
/// none is configured.
pub open spec fn desktop_or_default(configured: Option<Seq<char>>) -> Seq<char> {
    match configured {
        Some(name) => name,
        None => default_desktop(),
    }
}

/// Settles the active desktop environment from what the environment
/// configures.
pub fn active_desktop(configured: Option<String>) -> (r: String)
    ensures
        r@ == desktop_or_default(configured.deep_view()),
{
    match configured {
        Some(name) => name,
        None => String::from_str("Hyprland"),
    }
}

/// The terminal emulator through which terminal programs are launched.
pub fn terminal_program() -> (r: String)
    ensures
        r@ == "kitty"@,
{
    String::from_str("kitty")
}

/// The directory whose desktop entry files are scanned.
pub fn applications_root() -> (r: String)
    ensures
        r@ == "/usr/share/applications/"@,
{
    String::from_str("/usr/share/applications/")
}

/// The configuration handed to the presentation layer, as JSON.
pub fn get_config() -> (r: String)
    ensures
        r@ == "{\"apps_per_page\": 5}"@,
{
    String::from_str("{\"apps_per_page\": 5}")
}

} // verus!
