use presenter_persistence::snippet::{build_snippet, find_first, try_build_snippet};

fn chars(s: &str) -> Vec<char> {
    s.chars().collect()
}

#[test]
fn blank_text_has_no_snippet() {
    assert_eq!(build_snippet("   \n ", "x"), None);
}

#[test]
fn short_text_is_its_own_snippet() {
    assert_eq!(build_snippet("  Amazing grace  ", "grace"), Some("Amazing grace".to_string()));
}

#[test]
fn long_text_is_cut_around_the_match() {
    let text = format!("{}MATCH{}", "a".repeat(100), "b".repeat(195));
    let expected = format!("\u{2026}{}MATCH{}\u{2026}", "a".repeat(20), "b".repeat(135));
    assert_eq!(build_snippet(&text, "match"), Some(expected));
}

#[test]
fn long_text_without_match_starts_at_the_beginning() {
    let text = "c".repeat(200);
    let expected = format!("{}\u{2026}", "c".repeat(160));
    assert_eq!(build_snippet(&text, "zzz"), Some(expected));
}

#[test]
fn match_near_the_end_keeps_the_tail() {
    let text = format!("{}END", "d".repeat(197));
    let expected = format!("\u{2026}{}END", "d".repeat(20));
    assert_eq!(build_snippet(&text, "end"), Some(expected));
}

#[test]
fn multibyte_text_counts_characters() {
    let text = format!("{}Ziel{}", "é".repeat(50), "x".repeat(200));
    let expected = format!("\u{2026}{}Ziel{}\u{2026}", "é".repeat(20), "x".repeat(136));
    assert_eq!(build_snippet(&text, "ZIEL"), Some(expected));
}

#[test]
fn match_off_a_character_boundary_has_no_snippet() {
    let text = format!("\u{130}\u{20ac}{}", "x".repeat(200));
    assert_eq!(try_build_snippet(&text, "\u{20ac}"), None);
    assert_eq!(try_build_snippet("short", "\u{20ac}"), Some(Some("short".to_string())));
}

#[test]
fn first_occurrence_in_characters() {
    assert_eq!(find_first(&chars("abcabc"), &chars("ca")), Some(2));
    assert_eq!(find_first(&chars("abc"), &chars("")), Some(0));
    assert_eq!(find_first(&chars("abc"), &chars("abcd")), None);
}
