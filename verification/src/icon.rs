//! Resolving an icon reference to a file, one lookup at a time.
//!
//! The lookups themselves read the disk and are made by the caller. This
//! module decides which lookup comes next and what the outcome is: the caller
//! starts with [`begin_icon_resolution`], performs each [`IconStep::Lookup`]
//! it is handed, reports what it found to [`continue_icon_resolution`], and
//! stops at [`IconStep::Done`].

use crate::text::{trim, trimmed};
use vstd::prelude::*;
use vstd::string::StringExecFns;

verus! {

/// The pixel size that themed icons are looked up in.
pub const ICON_SIZE: u16 = 48;

/// Where the resolution of one icon reference stands.
#[derive(Clone, Debug, PartialEq, Eq)]
pub enum IconStep {
    /// The resolution has ended with `path`, which is empty where no icon
    /// was found.
    Done { path: String },
    /// The caller is to look `name` up at `size` pixels, in the named theme
    /// or, where `theme` is `None`, in the default search order.
    Lookup { name: String, theme: Option<String>, size: u16 },
}

/// The mathematical content of an [`IconStep`].
pub enum IconStepView {
    Done { path: Seq<char> },
    Lookup { name: Seq<char>, theme: Option<Seq<char>>, size: u16 },
}

impl View for IconStep {
    type V = IconStepView;

    open spec fn view(&self) -> IconStepView {
        match self {
            IconStep::Done { path } => IconStepView::Done { path: path@ },
            IconStep::Lookup { name, theme, size } => IconStepView::Lookup {
                name: name@,
                theme: theme.deep_view(),
                size: *size,
            },
        }
    }
}

/// Whether `reference` is a path from the root of the file system.
pub open spec fn is_absolute_path(reference: Seq<char>) -> bool {
    reference.len() > 0 && reference[0] == '/'
}

/// Whether `theme` names a theme to fall back on.
pub open spec fn is_usable_theme(theme: Option<Seq<char>>) -> bool {
    theme matches Some(name) && name.len() > 0
}

/// The step that resolution starts with: an absolute path stands for itself,
/// a missing reference resolves to nothing, and any other reference is
/// looked up in the default search order.
pub open spec fn first_step(reference: Option<Seq<char>>) -> IconStepView {
    match reference {
        None => IconStepView::Done { path: Seq::empty() },
        Some(r) => if is_absolute_path(r) {
            IconStepView::Done { path: r }
        } else {
            IconStepView::Lookup { name: r, theme: None, size: ICON_SIZE }
        },
    }
}

/// The step that follows the lookup `asked`, given what it `found`.
///
/// A hit ends the resolution. A miss in the default search order leads to one
/// more lookup in the alternate theme, where there is one; any other miss
/// ends the resolution with the empty path.
pub open spec fn next_step(
    asked: IconStepView,
    found: Option<Seq<char>>,
    alternate_theme: Option<Seq<char>>,
) -> IconStepView {
    match asked {
        IconStepView::Done { path } => IconStepView::Done { path },
        IconStepView::Lookup { name, theme, size } => match found {
            Some(path) => IconStepView::Done { path },
            None => if theme is None && is_usable_theme(alternate_theme) {
                IconStepView::Lookup { name, theme: alternate_theme, size }
            } else {
                IconStepView::Done { path: Seq::empty() }
            },
        },
    }
}

/// The path that the whole chain ends with, given what each lookup finds.
pub open spec fn resolved_icon(
    reference: Option<Seq<char>>,
    found_by_default: Option<Seq<char>>,
    alternate_theme: Option<Seq<char>>,
    found_in_theme: Option<Seq<char>>,
) -> Seq<char> {
    match reference {
        None => Seq::empty(),
        Some(r) => if is_absolute_path(r) {
            r
        } else {
            match found_by_default {
                Some(path) => path,
                None => if is_usable_theme(alternate_theme) {
                    match found_in_theme {
                        Some(path) => path,
                        None => Seq::empty(),
                    }
                } else {
                    Seq::empty()
                },
            }
        },
    }
}

/// Starts the resolution of an icon reference.
pub fn begin_icon_resolution(reference: Option<&str>) -> (r: IconStep)
    ensures
        r@ == first_step(reference.deep_view()),
{
    match reference {
        None => IconStep::Done { path: String::new() },
        Some(text) => {
            if !text.is_empty() && text.get_char(0) == '/' {
                IconStep::Done { path: text.to_owned() }
            } else {
                IconStep::Lookup { name: text.to_owned(), theme: None, size: ICON_SIZE }
            }
        },
    }
}

/// Continues the resolution after the lookup `asked` has been performed and
/// has found `found`.
pub fn continue_icon_resolution(
    asked: IconStep,
    found: Option<String>,
    alternate_theme: Option<&str>,
) -> (r: IconStep)
    ensures
        r@ == next_step(asked@, found.deep_view(), alternate_theme.deep_view()),
{
    match asked {
        IconStep::Done { path } => IconStep::Done { path },
        IconStep::Lookup { name, theme, size } => match found {
            Some(path) => IconStep::Done { path },
            None => match alternate_theme {
                Some(fallback) => {
                    if theme.is_none() && !fallback.is_empty() {
                        IconStep::Lookup { name, theme: Some(fallback.to_owned()), size }
                    } else {
                        IconStep::Done { path: String::new() }
                    }
                },
                None => IconStep::Done { path: String::new() },
            },
        },
    }
}

/// The theme that a configuration query names: its output without the
/// surrounding whitespace, unless the query failed or named nothing.
pub open spec fn theme_of_query(succeeded: bool, output: Seq<char>) -> Option<Seq<char>> {
    if succeeded && trimmed(output).len() > 0 {
        Some(trimmed(output))
    } else {
        None
    }
}

/// Reads the alternate theme from the outcome of a configuration query.
pub fn icon_theme_from_query(succeeded: bool, output: &str) -> (r: Option<String>)
    ensures
        r.deep_view() == theme_of_query(succeeded, output@),
{
    if !succeeded {
        return None;
    }
    let theme = trim(output);
    if theme.as_str().is_empty() {
        None
    } else {
        Some(theme)
    }
}

/// A reference that is an absolute path resolves to that very path, with no
/// lookup made.
pub proof fn law_absolute_path_unchanged(reference: Seq<char>)
    requires
        is_absolute_path(reference),
    ensures
        first_step(Some(reference)) == (IconStepView::Done { path: reference }),
{
}

/// A reference that no lookup finds resolves to the empty path. So it does,
/// after the one lookup made, where the theme query failed and there is no
/// alternate theme to try.
pub proof fn law_unresolved_is_empty(
    reference: Seq<char>,
    alternate_theme: Option<Seq<char>>,
    query_output: Seq<char>,
)
    requires
        !is_absolute_path(reference),
    ensures
        resolved_icon(Some(reference), None, alternate_theme, None) == Seq::<char>::empty(),
        theme_of_query(false, query_output) is None,
        next_step(first_step(Some(reference)), None, theme_of_query(false, query_output)) == (
        IconStepView::Done { path: Seq::empty() }),
{
}

/// Stepping through the chain ends after at most two lookups, and with the
/// path that [`resolved_icon`] gives.
pub proof fn law_steps_follow_chain(
    reference: Option<Seq<char>>,
    found_by_default: Option<Seq<char>>,
    alternate_theme: Option<Seq<char>>,
    found_in_theme: Option<Seq<char>>,
)
    ensures
        ({
            let first = first_step(reference);
            let second = next_step(first, found_by_default, alternate_theme);
            let third = next_step(second, found_in_theme, alternate_theme);
            third == (IconStepView::Done {
                path: resolved_icon(reference, found_by_default, alternate_theme, found_in_theme),
            })
        }),
{
}

} // verus!
