use slayfi::{check_visibility, Descriptor, EntryKind, LocaleString, Rejection, Verdict};
use std::collections::HashMap;

fn entry(name: &str) -> Descriptor {
    Descriptor {
        entry_type: EntryKind::Application,
        name: LocaleString { default: String::from(name), variants: HashMap::new() },
        comment: None,
        icon_reference: None,
        exec_template: Some(String::from("run")),
        terminal: None,
        hidden: None,
        no_display: None,
        only_show_in: None,
        not_show_in: None,
    }
}

fn desktops(list: &[&str]) -> Option<Vec<String>> {
    Some(list.iter().map(|s| String::from(*s)).collect())
}

#[test]
fn plain_application_is_accepted() {
    assert_eq!(check_visibility(&entry("Foo"), "Hyprland"), Verdict::Accept);
}

#[test]
fn other_entry_types_are_rejected() {
    for kind in [EntryKind::Link, EntryKind::Directory, EntryKind::Unknown] {
        let mut d = entry("Foo");
        d.entry_type = kind;
        assert_eq!(
            check_visibility(&d, "Hyprland"),
            Verdict::Reject(Rejection::NotApplication)
        );
    }
}

#[test]
fn entry_without_exec_is_rejected() {
    let mut d = entry("Foo");
    d.exec_template = None;
    assert_eq!(check_visibility(&d, "Hyprland"), Verdict::Reject(Rejection::NoExec));
}

#[test]
fn hidden_entry_is_rejected() {
    let mut d = entry("Foo");
    d.hidden = Some(true);
    assert_eq!(check_visibility(&d, "Hyprland"), Verdict::Reject(Rejection::Hidden));
    let mut d = entry("Foo");
    d.no_display = Some(true);
    assert_eq!(check_visibility(&d, "Hyprland"), Verdict::Reject(Rejection::Hidden));
    let mut d = entry("Foo");
    d.hidden = Some(false);
    d.no_display = Some(false);
    assert_eq!(check_visibility(&d, "Hyprland"), Verdict::Accept);
}

#[test]
fn hidden_entry_is_rejected_whatever_else_it_states() {
    let mut d = entry("Foo");
    d.hidden = Some(true);
    d.only_show_in = desktops(&["Hyprland"]);
    d.not_show_in = desktops(&["KDE"]);
    d.terminal = Some(true);
    assert_eq!(check_visibility(&d, "Hyprland"), Verdict::Reject(Rejection::Hidden));
}

#[test]
fn only_show_in_rejects_other_desktops() {
    let mut d = entry("Foo");
    d.only_show_in = desktops(&["GNOME", "KDE"]);
    assert_eq!(
        check_visibility(&d, "Hyprland"),
        Verdict::Reject(Rejection::OnlyShownElsewhere)
    );
    assert_eq!(check_visibility(&d, "KDE"), Verdict::Accept);
    assert_eq!(check_visibility(&d, "GNOME"), Verdict::Accept);
    // Names are matched whole and with their case.
    assert_eq!(check_visibility(&d, "kde"), Verdict::Reject(Rejection::OnlyShownElsewhere));
    assert_eq!(check_visibility(&d, "KD"), Verdict::Reject(Rejection::OnlyShownElsewhere));
}

#[test]
fn empty_only_show_in_rejects_nothing() {
    let mut d = entry("Foo");
    d.only_show_in = desktops(&[]);
    assert_eq!(check_visibility(&d, "Hyprland"), Verdict::Accept);
}

#[test]
fn not_show_in_rejects_the_named_desktop() {
    let mut d = entry("Foo");
    d.not_show_in = desktops(&["XFCE", "Hyprland"]);
    assert_eq!(check_visibility(&d, "Hyprland"), Verdict::Reject(Rejection::NotShownHere));
    assert_eq!(check_visibility(&d, "XFCE"), Verdict::Reject(Rejection::NotShownHere));
    assert_eq!(check_visibility(&d, "KDE"), Verdict::Accept);
}

#[test]
fn lists_decide_whatever_their_order() {
    let mut a = entry("Foo");
    a.only_show_in = desktops(&["GNOME", "KDE", "Hyprland"]);
    a.not_show_in = desktops(&["XFCE", "LXQt"]);
    let mut b = entry("Foo");
    b.only_show_in = desktops(&["Hyprland", "GNOME", "KDE"]);
    b.not_show_in = desktops(&["LXQt", "XFCE"]);
    for desktop in ["GNOME", "KDE", "Hyprland", "XFCE", "LXQt", "sway"] {
        assert_eq!(check_visibility(&a, desktop), check_visibility(&b, desktop));
    }
}

#[test]
fn desktop_in_both_lists_is_rejected() {
    let mut d = entry("Foo");
    d.only_show_in = desktops(&["KDE"]);
    d.not_show_in = desktops(&["KDE"]);
    assert_eq!(check_visibility(&d, "KDE"), Verdict::Reject(Rejection::NotShownHere));
}

#[test]
fn first_rule_that_applies_gives_the_reason() {
    let mut d = entry("Foo");
    d.entry_type = EntryKind::Link;
    d.exec_template = None;
    d.hidden = Some(true);
    d.only_show_in = desktops(&["KDE"]);
    d.not_show_in = desktops(&["Hyprland"]);
    assert_eq!(check_visibility(&d, "Hyprland"), Verdict::Reject(Rejection::NotApplication));
    d.entry_type = EntryKind::Application;
    assert_eq!(check_visibility(&d, "Hyprland"), Verdict::Reject(Rejection::NoExec));
    d.exec_template = Some(String::from("run"));
    assert_eq!(check_visibility(&d, "Hyprland"), Verdict::Reject(Rejection::Hidden));
    d.hidden = None;
    assert_eq!(
        check_visibility(&d, "Hyprland"),
        Verdict::Reject(Rejection::OnlyShownElsewhere)
    );
    d.only_show_in = None;
    assert_eq!(check_visibility(&d, "Hyprland"), Verdict::Reject(Rejection::NotShownHere));
    d.not_show_in = None;
    assert_eq!(check_visibility(&d, "Hyprland"), Verdict::Accept);
}
