use presenter_persistence::fts::build_fts_query;

#[test]
fn fts_query_prefixes_and_joins_tokens() {
    assert_eq!(build_fts_query("In the beginning"), Some("In* the* beginning*".to_string()));
    assert_eq!(build_fts_query("  so   loved  "), Some("so* loved*".to_string()));
}

#[test]
fn fts_query_drops_short_and_symbol_only_words() {
    assert_eq!(build_fts_query("a I"), None);
    assert_eq!(build_fts_query("   "), None);
    assert_eq!(build_fts_query("\"god's\" -- (love)"), Some("gods* love*".to_string()));
    assert_eq!(build_fts_query("a ** bb"), Some("bb*".to_string()));
}

#[test]
fn fts_query_counts_characters_not_bytes() {
    assert_eq!(build_fts_query("é"), None);
    assert_eq!(build_fts_query("éa"), Some("éa*".to_string()));
    assert_eq!(build_fts_query("Ján 3"), Some("Ján*".to_string()));
}
