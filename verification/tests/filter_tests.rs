use web_scrap_cli::filter::{keep, normalize};

#[test]
fn keep_accepts_prose() {
    assert!(keep("abcd rest of text"));
}

#[test]
fn keep_rejects_numerals() {
    assert!(!keep("123"));
}

#[test]
fn keep_rejects_empty() {
    assert!(!keep(""));
}

#[test]
fn keep_rejects_short_tokens() {
    assert!(!keep("abc"));
    assert!(!keep("ab1d rest"));
    assert!(!keep("   abcd"));
}

#[test]
fn keep_accepts_exactly_four_letters() {
    assert!(keep("abcd"));
    assert!(keep("Word"));
}

#[test]
fn normalize_collapses_runs() {
    assert_eq!(normalize("a   b\t\tc"), "a b c");
}

#[test]
fn normalize_keeps_single_whitespace() {
    assert_eq!(normalize("a b"), "a b");
    assert_eq!(normalize("a\tb"), "a\tb");
}

#[test]
fn normalize_covers_unicode_whitespace() {
    // a run of no-break spaces collapses; a lone one is untouched
    assert_eq!(normalize("a\u{a0}\u{a0}b"), "a b");
    assert_eq!(normalize("a\u{a0}b"), "a\u{a0}b");
    assert_eq!(normalize("a\u{2003}\u{2003}b"), "a b");
}

#[test]
fn normalize_handles_edges() {
    assert_eq!(normalize(""), "");
    assert_eq!(normalize("  leading and trailing  "), " leading and trailing ");
    assert_eq!(normalize("\r\n"), " ");
}
