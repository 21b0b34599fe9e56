//! The wording of what a scan records about the files it leaves out.

use crate::parser::EntryParseError;
use crate::visibility::Rejection;
use vstd::prelude::*;
use vstd::string::StringExecFns;

verus! {

/// The words for each reason an entry is left out.
pub open spec fn rejection_text(why: Rejection) -> Seq<char> {
    match why {
        Rejection::NotApplication => "Not an application entry"@,
        Rejection::NoExec => "No exec field"@,
        Rejection::Hidden => "Hidden or no display"@,
        Rejection::OnlyShownElsewhere => "Not compatible with current desktop environment"@,
        Rejection::NotShownHere => "Explicitly not shown in current desktop environment"@,
    }
}

/// The line that records why the entry read from `subject` is skipped.
pub open spec fn skip_text(subject: Seq<char>, why: Rejection) -> Seq<char> {
    "Skipping "@ + subject + ": "@ + rejection_text(why)
}

/// Words the record of a skipped entry.
pub fn skip_message(subject: &str, why: Rejection) -> (r: String)
    ensures
        r@ == skip_text(subject@, why),
{
    let reason = match why {
        Rejection::NotApplication => "Not an application entry",
        Rejection::NoExec => "No exec field",
        Rejection::Hidden => "Hidden or no display",
        Rejection::OnlyShownElsewhere => "Not compatible with current desktop environment",
        Rejection::NotShownHere => "Explicitly not shown in current desktop environment",
    };
    String::from_str("Skipping ").concat(subject).concat(": ").concat(reason)
}

/// The line that records that the file at `path` yields no entry.
pub open spec fn failure_text(path: Seq<char>, error: EntryParseError) -> Seq<char> {
    match error {
        EntryParseError::MissingSection => "No [Desktop Entry] section found in "@ + path,
        EntryParseError::Malformed { detail } => "Error parsing desktop file "@ + path + ": "@
            + detail@,
    }
}

/// Words the record of a file that yields no entry.
pub fn failure_message(path: &str, error: &EntryParseError) -> (r: String)
    ensures
        r@ == failure_text(path@, *error),
{
    match error {
        EntryParseError::MissingSection => String::from_str(
            "No [Desktop Entry] section found in ",
        ).concat(path),
        EntryParseError::Malformed { detail } => String::from_str(
            "Error parsing desktop file ",
        ).concat(path).concat(": ").concat(detail.as_str()),
    }
}

/// The line that records that no icon was found for the entry `name`.
pub fn missing_icon_message(name: &str) -> (r: String)
    ensures
        r@ == "No icon path found for "@ + name@,
{
    String::from_str("No icon path found for ").concat(name)
}

/// The home directory assumed where the environment names none.
pub open spec fn home_or_default(home: Option<Seq<char>>) -> Seq<char> {
    match home {
        Some(dir) => dir,
        None => "/home"@,
    }
}

/// Where the diagnostic log of the user with the given home directory lies.
pub fn error_log_path(home: Option<&str>) -> (r: String)
    ensures
        r@ == home_or_default(home.deep_view()) + "/.local/share/slayfi/error.log"@,
{
    let base = match home {
        Some(dir) => dir,
        None => "/home",
    };
    String::from_str(base).concat("/.local/share/slayfi/error.log")
}

/// One line of the diagnostic log: the time in brackets, then the message.
pub fn format_log_line(timestamp: &str, message: &str) -> (r: String)
    ensures
        r@ == "["@ + timestamp@ + "] "@ + message@ + "\n"@,
{
    String::from_str("[").concat(timestamp).concat("] ").concat(message).concat("\n")
}

} // verus!
