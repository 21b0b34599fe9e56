//! Discovery of launchable applications from desktop entry files.
//!
//! A scan reads the text of each desktop entry file, parses it into a
//! [`Descriptor`], decides whether the active desktop environment lists it,
//! normalises its command line, resolves its icon, and builds a catalog with
//! one record per name, in order of name. Reading files, walking
//! directories and looking icons up on disk are left to the caller.

pub mod application;
pub mod catalog;
pub mod command;
pub mod descriptor;
pub mod diagnostics;
pub mod icon;
pub mod order;
pub mod parser;
pub mod scan;
pub mod settings;
pub mod text;
pub mod visibility;

pub use application::Application;
pub use catalog::{build_catalog, is_admitted, InclusionPolicy};
pub use command::{clean_exec_command, launch_command, normalize_exec};
pub use descriptor::{Descriptor, EntryKind, LocaleString};
pub use icon::{
    begin_icon_resolution, continue_icon_resolution, icon_theme_from_query, IconStep, ICON_SIZE,
};
pub use parser::{extract_entry_section, parse_descriptor, EntryParseError};
pub use scan::{examine_descriptor, examine_entry, scan_entries, Candidate, EntryOutcome};
pub use settings::{active_desktop, applications_root, get_config, terminal_program};
pub use visibility::{check_visibility, Rejection, Verdict};
