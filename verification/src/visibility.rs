//! Which entries a given desktop environment lists.

use crate::descriptor::{Descriptor, DescriptorView, EntryKind};
use crate::text::same_text;
use vstd::prelude::*;

verus! {

/// Why an entry is left out.
#[derive(Clone, Copy, Debug, PartialEq, Eq, Structural)]
pub enum Rejection {
    /// The entry does not describe an application.
    NotApplication,
    /// The entry gives no command to launch.
    NoExec,
    /// The entry is hidden or asks not to be displayed.
    Hidden,
    /// The entry names the environments that show it, and this is none of them.
    OnlyShownElsewhere,
    /// The entry names this environment among those that do not show it.
    NotShownHere,
}

/// Whether an entry is listed, and why not where it is not.
#[derive(Clone, Copy, Debug, PartialEq, Eq, Structural)]
pub enum Verdict {
    Accept,
    Reject(Rejection),
}

/// The environments that a list names; none where the file gives no list.
pub open spec fn named_desktops(list: Option<Seq<Seq<char>>>) -> Seq<Seq<char>> {
    match list {
        Some(names) => names,
        None => Seq::empty(),
    }
}

/// The verdict on `d` in the environment `desktop`: the first rule that
/// applies decides.
pub open spec fn verdict_of(d: DescriptorView, desktop: Seq<char>) -> Verdict {
    if d.entry_type != EntryKind::Application {
        Verdict::Reject(Rejection::NotApplication)
    } else if d.exec_template is None {
        Verdict::Reject(Rejection::NoExec)
    } else if d.hidden == Some(true) || d.no_display == Some(true) {
        Verdict::Reject(Rejection::Hidden)
    } else if named_desktops(d.only_show_in).len() > 0 && !named_desktops(d.only_show_in).contains(
        desktop,
    ) {
        Verdict::Reject(Rejection::OnlyShownElsewhere)
    } else if named_desktops(d.not_show_in).contains(desktop) {
        Verdict::Reject(Rejection::NotShownHere)
    } else {
        Verdict::Accept
    }
}

/// Whether `list` names `desktop`.
pub fn names_desktop(list: &Option<Vec<String>>, desktop: &str) -> (r: bool)
    ensures
        r == named_desktops(list.deep_view()).contains(desktop@),
{
    match list {
        None => false,
        Some(names) => {
            let ghost texts = names.deep_view();
            let mut i: usize = 0;
            while i < names.len()
                invariant
                    i <= names.len(),
                    texts == names.deep_view(),
                    texts == named_desktops(list.deep_view()),
                    forall|j: int| 0 <= j < i ==> texts[j] != desktop@,
                decreases names.len() - i,
            {
                if same_text(names[i].as_str(), desktop) {
                    assert(texts[i as int] == desktop@);
                    return true;
                }
                i += 1;
            }
            false
        },
    }
}

/// Whether `list` names any environment at all.
pub fn names_any_desktop(list: &Option<Vec<String>>) -> (r: bool)
    ensures
        r == (named_desktops(list.deep_view()).len() > 0),
{
    match list {
        None => false,
        Some(names) => names.len() > 0,
    }
}

/// Decides whether the environment `desktop` lists the entry `d`.
pub fn check_visibility(d: &Descriptor, desktop: &str) -> (r: Verdict)
    ensures
        r == verdict_of(d@, desktop@),
{
    if d.entry_type != EntryKind::Application {
        return Verdict::Reject(Rejection::NotApplication);
    }
    if d.exec_template.is_none() {
        return Verdict::Reject(Rejection::NoExec);
    }
    if is_set(d.hidden) || is_set(d.no_display) {
        return Verdict::Reject(Rejection::Hidden);
    }
    if names_any_desktop(&d.only_show_in) && !names_desktop(&d.only_show_in, desktop) {
        return Verdict::Reject(Rejection::OnlyShownElsewhere);
    }
    if names_desktop(&d.not_show_in, desktop) {
        return Verdict::Reject(Rejection::NotShownHere);
    }
    Verdict::Accept
}

/// Whether a flag is given and true.
pub fn is_set(flag: Option<bool>) -> (r: bool)
    ensures
        r == (flag == Some(true)),
{
    match flag {
        Some(value) => value,
        None => false,
    }
}

/// An entry that is hidden, or that asks not to be displayed, is never
/// accepted, whatever its other fields and whatever the environment.
pub proof fn law_hidden_never_accepted(d: DescriptorView, desktop: Seq<char>)
    requires
        d.hidden == Some(true) || d.no_display == Some(true),
    ensures
        verdict_of(d, desktop) is Reject,
{
}

/// An entry that names the environments showing it is never accepted in an
/// environment it does not name, whatever its `not_show_in` list holds.
pub proof fn law_only_show_in_excludes(d: DescriptorView, desktop: Seq<char>)
    requires
        named_desktops(d.only_show_in).len() > 0,
        !named_desktops(d.only_show_in).contains(desktop),
    ensures
        verdict_of(d, desktop) is Reject,
{
}

/// An entry is never accepted in an environment that its `not_show_in` list
/// names, whatever its `only_show_in` list holds.
pub proof fn law_not_show_in_excludes(d: DescriptorView, desktop: Seq<char>)
    requires
        named_desktops(d.not_show_in).contains(desktop),
    ensures
        verdict_of(d, desktop) is Reject,
{
}

/// The verdict depends on which environments the two lists name, not on the
/// order in which they name them.
pub proof fn law_verdict_ignores_list_order(d: DescriptorView, e: DescriptorView, desktop: Seq<char>)
    requires
        d.entry_type == e.entry_type,
        d.exec_template is None <==> e.exec_template is None,
        d.hidden == e.hidden,
        d.no_display == e.no_display,
        named_desktops(d.only_show_in).to_set() == named_desktops(e.only_show_in).to_set(),
        named_desktops(d.not_show_in).to_set() == named_desktops(e.not_show_in).to_set(),
    ensures
        verdict_of(d, desktop) == verdict_of(e, desktop),
{
    let a = named_desktops(d.only_show_in);
    let b = named_desktops(e.only_show_in);
    lemma_same_members(a, b, desktop);
    lemma_same_members(named_desktops(d.not_show_in), named_desktops(e.not_show_in), desktop);
    if a.len() > 0 {
        assert(a.to_set().contains(a[0]));
        assert(b.contains(a[0]));
    }
    if b.len() > 0 {
        assert(b.to_set().contains(b[0]));
        assert(a.contains(b[0]));
    }
}

proof fn lemma_same_members(a: Seq<Seq<char>>, b: Seq<Seq<char>>, x: Seq<char>)
    requires
        a.to_set() == b.to_set(),
    ensures
        a.contains(x) == b.contains(x),
{
    assert(a.contains(x) == a.to_set().contains(x));
    assert(b.contains(x) == b.to_set().contains(x));
}

} // verus!
