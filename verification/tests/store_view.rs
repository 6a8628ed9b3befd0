use ili::store::{list_report, visible_libraries, DirEntry, ListEntry, ListLine};

#[test]
fn enumeration_sees_only_directories_with_a_manifest() {
    let entries = vec![
        DirEntry { name: b"good".to_vec(), is_dir: true, has_manifest: true },
        DirEntry { name: b"bare".to_vec(), is_dir: true, has_manifest: false },
        DirEntry { name: b"file".to_vec(), is_dir: false, has_manifest: false },
    ];
    let visible = visible_libraries(&entries);
    assert_eq!(visible, vec![b"good".to_vec()]);
}

#[test]
fn enumeration_of_empty_directory_is_empty() {
    let visible = visible_libraries(&Vec::new());
    assert!(visible.is_empty());
}

#[test]
fn enumeration_keeps_directory_order() {
    let entries = vec![
        DirEntry { name: b"b".to_vec(), is_dir: true, has_manifest: true },
        DirEntry { name: b"a".to_vec(), is_dir: true, has_manifest: true },
    ];
    let visible = visible_libraries(&entries);
    assert_eq!(visible, vec![b"b".to_vec(), b"a".to_vec()]);
}

#[test]
fn listing_shows_manifest_fields_or_marks_invalid() {
    let valid = b"\"name\": \"lib\"\n\"version\": \"2.1\"\n\"entry\": \"e\"\n".to_vec();
    let entries = vec![
        ListEntry { name: b"dir1".to_vec(), manifest_text: Some(valid) },
        ListEntry { name: b"dir2".to_vec(), manifest_text: Some(b"junk".to_vec()) },
        ListEntry { name: b"dir3".to_vec(), manifest_text: None },
    ];
    let lines = list_report(entries);
    assert_eq!(lines.len(), 3);
    assert!(
        matches!(&lines[0], ListLine::Valid { name, version } if name == b"lib" && version == b"2.1")
    );
    assert!(matches!(&lines[1], ListLine::Invalid { name } if name == b"dir2"));
    assert!(matches!(&lines[2], ListLine::Invalid { name } if name == b"dir3"));
}
