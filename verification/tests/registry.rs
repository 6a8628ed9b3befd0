use ili::registry::find_repo;

#[test]
fn resolve_first_match_trimmed() {
    let content = b"foo = https://x/foo.git\nbar=https://x/bar.git".to_vec();
    assert_eq!(find_repo(&content, b"foo"), Some(b"https://x/foo.git".to_vec()));
    assert_eq!(find_repo(&content, b"bar"), Some(b"https://x/bar.git".to_vec()));
    assert_eq!(find_repo(&content, b"baz"), None);
}

#[test]
fn resolve_is_case_sensitive_and_exact() {
    let content = b"Foo = https://x/a.git\nfoobar = https://x/b.git".to_vec();
    assert_eq!(find_repo(&content, b"foo"), None);
    assert_eq!(find_repo(&content, b"Foo"), Some(b"https://x/a.git".to_vec()));
}

#[test]
fn resolve_empty_url_is_distinct_from_not_found() {
    let content = b"foo =\nbar = u".to_vec();
    assert_eq!(find_repo(&content, b"foo"), Some(Vec::new()));
    assert_eq!(find_repo(&content, b"missing"), None);
}

#[test]
fn resolve_first_occurrence_wins() {
    let content = b"foo = first\nfoo = second".to_vec();
    assert_eq!(find_repo(&content, b"foo"), Some(b"first".to_vec()));
}

#[test]
fn resolve_tolerates_unparsable_lines_and_crlf() {
    let content = b"# comment\r\n\r\nfoo = https://x/foo.git\r\n".to_vec();
    assert_eq!(find_repo(&content, b"foo"), Some(b"https://x/foo.git".to_vec()));
}
