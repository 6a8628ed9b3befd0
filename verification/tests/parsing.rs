use ili::manifest::{extract_array, extract_string, parse_manifest};

fn full_manifest() -> Vec<u8> {
    b"{\n  \"name\": \"foo\",\n  \"version\": \"1.0\",\n  \"entry\": \"src/main\",\n  \"dependencies\": [\"b\", \"c\"]\n}\n"
        .to_vec()
}

#[test]
fn parse_well_formed_manifest() {
    let m = parse_manifest(&full_manifest()).expect("manifest should parse");
    assert_eq!(m.name, b"foo".to_vec());
    assert_eq!(m.version, b"1.0".to_vec());
    assert_eq!(m.entry, b"src/main".to_vec());
    assert_eq!(m.dependencies, vec![b"b".to_vec(), b"c".to_vec()]);
}

#[test]
fn parse_without_dependencies_key() {
    let text = b"\"name\": \"foo\"\n\"version\": \"2\"\n\"entry\": \"lib\"\n".to_vec();
    let m = parse_manifest(&text).expect("manifest should parse");
    assert_eq!(m.name, b"foo".to_vec());
    assert!(m.dependencies.is_empty());
}

#[test]
fn parse_missing_scalar_field_is_absent() {
    let text = b"{\n  \"name\": \"foo\",\n  \"entry\": \"src/main\"\n}\n".to_vec();
    assert!(parse_manifest(&text).is_none());
}

#[test]
fn parse_malformed_scalar_line_invalidates_whole_manifest() {
    // the version line has only three quotes, so the whole manifest is absent
    let text = b"\"name\": \"foo\"\n\"version\": \"1.0\n\"entry\": \"lib\"\n".to_vec();
    assert!(parse_manifest(&text).is_none());
}

#[test]
fn parse_last_assignment_wins() {
    let text =
        b"\"name\": \"first\"\n\"name\": \"second\"\n\"version\": \"1\"\n\"entry\": \"e\"\n"
            .to_vec();
    let m = parse_manifest(&text).expect("manifest should parse");
    assert_eq!(m.name, b"second".to_vec());
}

#[test]
fn extract_string_takes_span_after_key() {
    let line = b"\"name\": \"hello world\",".to_vec();
    assert_eq!(extract_string(&line), Some(b"hello world".to_vec()));
}

#[test]
fn extract_string_fails_with_too_few_quotes() {
    assert_eq!(extract_string(b"\"name\": oops"), None);
    assert_eq!(extract_string(b"no quotes at all"), None);
}

#[test]
fn extract_array_drops_malformed_tokens() {
    let text = b"\"dependencies\": [\"a\", b, \"c\" , 42]".to_vec();
    let deps = extract_array(&text).expect("array should be found");
    assert_eq!(deps, vec![b"a".to_vec(), b"c".to_vec()]);
}

#[test]
fn extract_array_uses_first_brackets_in_whole_text() {
    // the first [ and ] anywhere win, not the ones after the key
    let text = b"\"other\": [\"x\"]\n\"dependencies\": [\"y\"]".to_vec();
    let deps = extract_array(&text).expect("array should be found");
    assert_eq!(deps, vec![b"x".to_vec()]);
}

#[test]
fn extract_array_absent_when_brackets_missing_or_reversed() {
    assert!(extract_array(b"no array here").is_none());
    assert!(extract_array(b"] before [").is_none());
}

#[test]
fn extract_array_empty_brackets_give_no_dependencies() {
    let deps = extract_array(b"\"dependencies\": []").expect("array should be found");
    assert!(deps.is_empty());
}
