//! The record that the catalog lists for each launchable application.

use vstd::prelude::*;
use vstd::string::StringExecFns;

verus! {

/// A launchable application as it is handed to whoever presents the catalog.
#[derive(Clone, Debug, PartialEq, Eq)]
pub struct Application {
    /// The display name, in the default locale.
    pub name: String,
    /// The tooltip, in the default locale; may be empty.
    pub comment: String,
    /// The resolved path of the icon file; empty where none was found.
    pub icon: String,
    /// The command line that launches the application.
    pub command: String,
}

/// The mathematical content of an [`Application`].
pub struct ApplicationView {
    pub name: Seq<char>,
    pub comment: Seq<char>,
    pub icon: Seq<char>,
    pub command: Seq<char>,
}

impl View for Application {
    type V = ApplicationView;

    open spec fn view(&self) -> ApplicationView {
        ApplicationView {
            name: self.name@,
            comment: self.comment@,
            icon: self.icon@,
            command: self.command@,
        }
    }
}

/// The multi-line text that shows an application's four fields.
pub open spec fn application_text(a: ApplicationView) -> Seq<char> {
    "\n\tName:\t"@ + a.name + ",\n\tComment:\t"@ + a.comment + ",\n\tIcon:\t"@ + a.icon
        + ",\n\tExec:\t"@ + a.command + "\n"@
}

impl Application {
    /// Puts the four fields together into a record.
    pub fn new(name: String, comment: String, icon: String, command: String) -> (r: Application)
        ensures
            r.name == name,
            r.comment == comment,
            r.icon == icon,
            r.command == command,
    {
        Application { name, comment, icon, command }
    }

    /// A copy with the same four fields.
    pub fn duplicate(&self) -> (r: Application)
        ensures
            r == *self,
    {
        Application {
            name: self.name.clone(),
            comment: self.comment.clone(),
            icon: self.icon.clone(),
            command: self.command.clone(),
        }
    }

    /// The text that shows the record in diagnostics.
    pub fn to_text(&self) -> (r: String)
        ensures
            r@ == application_text(self@),
    {
        String::from_str("\n\tName:\t").concat(self.name.as_str()).concat(",\n\tComment:\t").concat(
            self.comment.as_str(),
        ).concat(",\n\tIcon:\t").concat(self.icon.as_str()).concat(",\n\tExec:\t").concat(
            self.command.as_str(),
        ).concat("\n")
    }
}

} // verus!
