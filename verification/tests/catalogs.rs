use slayfi::{build_catalog, is_admitted, Application, InclusionPolicy};

fn record(name: &str, icon: &str, command: &str) -> Application {
    Application::new(
        String::from(name),
        format!("about {}", name),
        String::from(icon),
        String::from(command),
    )
}

fn names_of(catalog: &[Application]) -> Vec<&str> {
    catalog.iter().map(|a| a.name.as_str()).collect()
}

#[test]
fn empty_input_gives_an_empty_catalog() {
    assert!(build_catalog(&vec![], InclusionPolicy::Permissive).is_empty());
    assert!(build_catalog(&vec![], InclusionPolicy::Strict).is_empty());
}

#[test]
fn catalog_is_sorted_by_name() {
    let apps = vec![
        record("Gimp", "/g.png", "gimp"),
        record("Firefox", "/f.png", "firefox"),
        record("Zathura", "/z.png", "zathura"),
        record("Alacritty", "/a.png", "alacritty"),
    ];
    let catalog = build_catalog(&apps, InclusionPolicy::Permissive);
    assert_eq!(names_of(&catalog), ["Alacritty", "Firefox", "Gimp", "Zathura"]);
    assert_eq!(catalog[1], record("Firefox", "/f.png", "firefox"));
}

#[test]
fn catalog_order_is_by_code_point_not_by_alphabet() {
    let apps = vec![
        record("apple", "", "a"),
        record("Zed", "", "z"),
        record("Éditeur", "", "e"),
        record("zed", "", "z"),
        record("Ze", "", "z"),
        record("10 Things", "", "t"),
        record(" leading space", "", "s"),
        record("😀", "", "s"),
        record("\u{ffff}", "", "s"),
    ];
    let catalog = build_catalog(&apps, InclusionPolicy::Permissive);
    assert_eq!(
        names_of(&catalog),
        [" leading space", "10 Things", "Ze", "Zed", "apple", "zed", "Éditeur", "\u{ffff}", "😀"]
    );
}

#[test]
fn catalog_order_agrees_with_the_order_of_strings() {
    let raw = [
        "b", "a", "", "ab", "aa", "B", "é", "e", "z", "ź", "a b", "a\tb", "日本", "日", "\u{10000}",
        "\u{ffff}", "a", "ab", "~", "A", "aB", "Ab",
    ];
    let apps: Vec<Application> = raw.iter().map(|n| record(n, "", "x")).collect();
    let catalog = build_catalog(&apps, InclusionPolicy::Permissive);
    let mut expected: Vec<&str> = raw.iter().copied().filter(|n| !n.is_empty()).collect();
    expected.sort();
    expected.dedup();
    assert_eq!(names_of(&catalog), expected);
}

#[test]
fn first_record_of_a_name_wins() {
    let apps = vec![
        record("Foo", "/first.png", "foo-one"),
        record("Bar", "/bar.png", "bar"),
        record("Foo", "/second.png", "foo-two"),
        record("Foo", "/third.png", "foo-three"),
    ];
    let catalog = build_catalog(&apps, InclusionPolicy::Permissive);
    assert_eq!(catalog.len(), 2);
    assert_eq!(catalog[0], record("Bar", "/bar.png", "bar"));
    assert_eq!(catalog[1], record("Foo", "/first.png", "foo-one"));
}

#[test]
fn names_that_differ_in_case_are_different_names() {
    let apps = vec![record("foo", "", "a"), record("Foo", "", "b"), record("FOO", "", "c")];
    let catalog = build_catalog(&apps, InclusionPolicy::Permissive);
    assert_eq!(names_of(&catalog), ["FOO", "Foo", "foo"]);
}

#[test]
fn permissive_policy_asks_for_a_name_only() {
    assert!(is_admitted(&record("Foo", "", ""), InclusionPolicy::Permissive));
    assert!(is_admitted(&record(" ", "", ""), InclusionPolicy::Permissive));
    assert!(!is_admitted(&record("", "/i.png", "run"), InclusionPolicy::Permissive));
}

#[test]
fn strict_policy_asks_for_name_icon_and_command() {
    assert!(is_admitted(&record("Foo", "/i.png", "run"), InclusionPolicy::Strict));
    assert!(!is_admitted(&record("Foo", "", "run"), InclusionPolicy::Strict));
    assert!(!is_admitted(&record("Foo", "/i.png", ""), InclusionPolicy::Strict));
    assert!(!is_admitted(&record("", "/i.png", "run"), InclusionPolicy::Strict));
    assert!(!is_admitted(&record("  \t", "/i.png", "run"), InclusionPolicy::Strict));
    assert!(!is_admitted(&record("\u{a0}\u{3000}", "/i.png", "run"), InclusionPolicy::Strict));
    assert!(is_admitted(&record(" x ", "/i.png", "run"), InclusionPolicy::Strict));
}

#[test]
fn policy_decides_what_the_catalog_holds() {
    let apps = vec![
        record("NoIcon", "", "run"),
        record("", "/i.png", "run"),
        record("Full", "/i.png", "run"),
        record("NoCommand", "/i.png", ""),
        record("   ", "/i.png", "run"),
    ];
    let permissive = build_catalog(&apps, InclusionPolicy::Permissive);
    assert_eq!(names_of(&permissive), ["   ", "Full", "NoCommand", "NoIcon"]);
    let strict = build_catalog(&apps, InclusionPolicy::Strict);
    assert_eq!(names_of(&strict), ["Full"]);
}

#[test]
fn record_that_is_not_admitted_does_not_shadow_a_later_one() {
    let apps = vec![record("Foo", "", "first"), record("Foo", "/i.png", "second")];
    let strict = build_catalog(&apps, InclusionPolicy::Strict);
    assert_eq!(strict, vec![record("Foo", "/i.png", "second")]);
    let permissive = build_catalog(&apps, InclusionPolicy::Permissive);
    assert_eq!(permissive, vec![record("Foo", "", "first")]);
}

#[test]
fn catalog_has_no_two_equal_names_and_ascends() {
    let mut apps = Vec::new();
    for round in 0..3 {
        for name in ["delta", "alpha", "charlie", "bravo", "alpha", "echo", "bravo"] {
            apps.push(record(name, "/i.png", &format!("{}-{}", name, round)));
        }
    }
    let catalog = build_catalog(&apps, InclusionPolicy::Strict);
    assert_eq!(names_of(&catalog), ["alpha", "bravo", "charlie", "delta", "echo"]);
    for pair in catalog.windows(2) {
        assert!(pair[0].name < pair[1].name);
    }
    for record in &catalog {
        assert!(record.command.ends_with("-0"));
    }
}

#[test]
fn building_leaves_the_input_untouched() {
    let apps = vec![record("b", "", "b"), record("a", "", "a")];
    let before = apps.clone();
    let _ = build_catalog(&apps, InclusionPolicy::Permissive);
    assert_eq!(apps, before);
}

#[test]
fn record_shows_its_four_fields() {
    let record = Application::new(
        String::from("Foo"),
        String::from("A foo"),
        String::from("/usr/share/pixmaps/foo.png"),
        String::from("foo"),
    );
    assert_eq!(
        record.to_text(),
        "\n\tName:\tFoo,\n\tComment:\tA foo,\n\tIcon:\t/usr/share/pixmaps/foo.png,\n\tExec:\tfoo\n"
    );
    assert_eq!(record.duplicate(), record);
}
