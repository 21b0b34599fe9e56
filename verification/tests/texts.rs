use slayfi::order::text_precedes;
use slayfi::text::{
    char_is_whitespace, find_from, first_non_whitespace, first_whitespace, last_content_end,
    same_text, to_chars, trim,
};

fn chars(s: &str) -> Vec<char> {
    s.chars().collect()
}

#[test]
fn whitespace_is_what_the_standard_library_calls_whitespace() {
    for code in 0u32..=0x10ffff {
        if let Some(c) = char::from_u32(code) {
            assert_eq!(char_is_whitespace(c), c.is_whitespace(), "for U+{:04X}", code);
        }
    }
}

#[test]
fn characters_come_out_in_order() {
    assert_eq!(to_chars(""), Vec::<char>::new());
    assert_eq!(to_chars("aé😀"), vec!['a', 'é', '😀']);
}

#[test]
fn texts_are_the_same_when_every_character_is() {
    assert!(same_text("", ""));
    assert!(same_text("KDE", "KDE"));
    assert!(!same_text("KDE", "kde"));
    assert!(!same_text("KDE", "KD"));
    assert!(!same_text("KD", "KDE"));
    assert!(same_text("é😀", "é😀"));
}

#[test]
fn search_finds_the_first_occurrence_at_or_after_the_start() {
    let hay = chars("abcabcabc");
    let needle = chars("bc");
    assert_eq!(find_from(&hay, &needle, 0, hay.len()), Some(1));
    assert_eq!(find_from(&hay, &needle, 1, hay.len()), Some(1));
    assert_eq!(find_from(&hay, &needle, 2, hay.len()), Some(4));
    assert_eq!(find_from(&hay, &needle, 8, hay.len()), None);
    assert_eq!(find_from(&hay, &needle, 9, hay.len()), None);
    assert_eq!(find_from(&hay, &chars("x"), 0, hay.len()), None);
    assert_eq!(find_from(&hay, &chars("abcabcabcd"), 0, hay.len()), None);
}

#[test]
fn search_stays_below_the_limit() {
    let hay = chars("abcabcabc");
    let needle = chars("bc");
    assert_eq!(find_from(&hay, &needle, 2, 6), Some(4));
    assert_eq!(find_from(&hay, &needle, 2, 5), None);
    assert_eq!(find_from(&hay, &needle, 0, 2), None);
    assert_eq!(find_from(&hay, &needle, 0, 3), Some(1));
    assert_eq!(find_from(&hay, &needle, 0, 0), None);
}

#[test]
fn empty_needle_occurs_wherever_the_search_starts() {
    let hay = chars("abc");
    let empty = chars("");
    assert_eq!(find_from(&hay, &empty, 0, 3), Some(0));
    assert_eq!(find_from(&hay, &empty, 3, 3), Some(3));
    assert_eq!(find_from(&hay, &empty, 2, 1), None);
    assert_eq!(find_from(&empty, &empty, 0, 0), Some(0));
}

#[test]
fn scanning_stops_at_the_first_character_of_the_other_kind() {
    let text = chars("  ab\tcd ");
    assert_eq!(first_non_whitespace(&text, 0), 2);
    assert_eq!(first_non_whitespace(&text, 2), 2);
    assert_eq!(first_non_whitespace(&text, 4), 5);
    assert_eq!(first_non_whitespace(&text, 7), 8);
    assert_eq!(first_non_whitespace(&text, 8), 8);
    assert_eq!(first_whitespace(&text, 0), 0);
    assert_eq!(first_whitespace(&text, 2), 4);
    assert_eq!(first_whitespace(&text, 5), 7);
    assert_eq!(first_whitespace(&chars("abc"), 1), 3);
    assert_eq!(last_content_end(&text), 7);
    assert_eq!(last_content_end(&chars(" \n ")), 0);
    assert_eq!(last_content_end(&chars("")), 0);
    assert_eq!(last_content_end(&chars("x")), 1);
}

#[test]
fn trim_agrees_with_the_standard_library() {
    let samples = [
        "",
        " ",
        "a",
        " a ",
        "\t\n a b \r\n",
        "\u{a0}x\u{3000}",
        "\u{2000}\u{2001} é 😀 \u{205f}",
        "\u{200b} x \u{200b}",
        "  inner  space  ",
    ];
    for text in samples {
        assert_eq!(trim(text), text.trim(), "for {:?}", text);
    }
}

#[test]
fn order_agrees_with_the_order_of_strings() {
    let samples = [
        "", "a", "b", "aa", "ab", "A", "é", "e\u{301}", "z", "日本", "日", "\u{ffff}", "\u{10000}",
        "😀", "~", " ", "a ", "Z", "Zed", "Ze", "zed",
    ];
    for left in samples {
        for right in samples {
            assert_eq!(
                text_precedes(&chars(left), &chars(right)),
                left < right,
                "for {:?} and {:?}",
                left,
                right
            );
        }
    }
}

#[test]
fn order_is_strict() {
    assert!(!text_precedes(&chars("same"), &chars("same")));
    assert!(text_precedes(&chars("sam"), &chars("same")));
    assert!(!text_precedes(&chars("same"), &chars("sam")));
    assert!(text_precedes(&chars(""), &chars("a")));
    assert!(!text_precedes(&chars(""), &chars("")));
}
