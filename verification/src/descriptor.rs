//! The parsed form of one desktop entry file, before any filtering.

use std::collections::HashMap;
use vstd::prelude::*;

verus! {

/// What kind of thing a desktop entry describes.
#[derive(Clone, Copy, Debug, PartialEq, Eq, Structural)]
pub enum EntryKind {
    /// A program that can be launched.
    Application,
    /// A shortcut to a URL.
    Link,
    /// A menu directory.
    Directory,
    /// Any other declared type.
    Unknown,
}

/// A text with a default value and per-locale variants.
#[derive(Clone, Debug)]
pub struct LocaleString {
    /// The value used when no locale is asked for.
    pub default: String,
    /// The values given for specific locales, by locale identifier.
    pub variants: HashMap<String, String>,
}

/// The mathematical content of a [`LocaleString`].
pub struct LocaleStringView {
    pub default: Seq<char>,
    pub variants: Map<Seq<char>, Seq<char>>,
}

impl View for LocaleString {
    type V = LocaleStringView;

    open spec fn view(&self) -> LocaleStringView {
        LocaleStringView { default: self.default@, variants: self.variants.deep_view() }
    }
}

/// One desktop entry as its file states it.
///
/// A list that the file does not give (`None`) is treated like an empty one,
/// and a flag that it does not give like `false`.
#[derive(Clone, Debug)]
pub struct Descriptor {
    /// The declared type; only applications are listed.
    pub entry_type: EntryKind,
    /// The display name.
    pub name: LocaleString,
    /// The tooltip, if the file gives one.
    pub comment: Option<LocaleString>,
    /// The icon as the file names it: a path or a themed icon name.
    pub icon_reference: Option<String>,
    /// The command line template, possibly with placeholder tokens.
    pub exec_template: Option<String>,
    /// Whether the program must run inside a terminal emulator.
    pub terminal: Option<bool>,
    /// Whether the entry counts as deleted.
    pub hidden: Option<bool>,
    /// Whether the entry is kept out of menus.
    pub no_display: Option<bool>,
    /// The desktop environments that alone show the entry.
    pub only_show_in: Option<Vec<String>>,
    /// The desktop environments that do not show the entry.
    pub not_show_in: Option<Vec<String>>,
}

/// The mathematical content of a [`Descriptor`].
pub struct DescriptorView {
    pub entry_type: EntryKind,
    pub name: LocaleStringView,
    pub comment: Option<LocaleStringView>,
    pub icon_reference: Option<Seq<char>>,
    pub exec_template: Option<Seq<char>>,
    pub terminal: Option<bool>,
    pub hidden: Option<bool>,
    pub no_display: Option<bool>,
    pub only_show_in: Option<Seq<Seq<char>>>,
    pub not_show_in: Option<Seq<Seq<char>>>,
}

impl View for Descriptor {
    type V = DescriptorView;

    open spec fn view(&self) -> DescriptorView {
        DescriptorView {
            entry_type: self.entry_type,
            name: self.name@,
            comment: match self.comment {
                Some(c) => Some(c@),
                None => None,
            },
            icon_reference: self.icon_reference.deep_view(),
            exec_template: self.exec_template.deep_view(),
            terminal: self.terminal,
            hidden: self.hidden,
            no_display: self.no_display,
            only_show_in: self.only_show_in.deep_view(),
            not_show_in: self.not_show_in.deep_view(),
        }
    }
}

} // verus!
