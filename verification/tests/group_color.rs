use presenter_persistence::group_color::{
    fnv1a, generate_color, resolve_group_color, GroupColor, AUTO_PALETTE,
};

#[test]
fn generate_color_is_deterministic() {
    let a = generate_color("TestGroup");
    let b = generate_color("TestGroup");
    assert_eq!(a, b);
}

#[test]
fn generate_color_returns_palette_entry() {
    let color = generate_color("SomeRandomName");
    assert!(
        AUTO_PALETTE.contains(&color),
        "expected a palette entry, got {color}"
    );
}

#[test]
fn fnv1a_matches_reference_values() {
    assert_eq!(fnv1a(""), 0x811c_9dc5);
    assert_eq!(fnv1a("a"), 0xe40c_292c);
    assert_eq!(fnv1a("foobar"), 0xbf9c_f968);
}

#[test]
fn generate_color_uses_hash_modulo_palette() {
    let idx = (fnv1a("Stevo") as usize) % AUTO_PALETTE.len();
    assert_eq!(generate_color("Stevo"), AUTO_PALETTE[idx]);
    assert_eq!(generate_color(""), AUTO_PALETTE[(0x811c_9dc5usize) % 20]);
}

#[test]
fn stored_group_color_wins_over_generated() {
    assert_eq!(
        resolve_group_color(Some("#D62828".to_string()), "Stevo"),
        GroupColor::Stored("#D62828".to_string())
    );
    assert_eq!(
        resolve_group_color(None, "ZZZ_UnknownGroupXYZ"),
        GroupColor::Generated(generate_color("ZZZ_UnknownGroupXYZ"))
    );
}

#[test]
fn fnv1a_continues_over_concatenated_text() {
    assert_eq!(fnv1a(""), 2_166_136_261);
    let (s, t) = ("Ref", "rén");
    let joined = format!("{s}{t}");
    let continued = t
        .bytes()
        .fold(fnv1a(s), |h, b| (h ^ b as u32).wrapping_mul(16_777_619));
    assert_eq!(fnv1a(&joined), continued);
}
