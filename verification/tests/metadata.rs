use wavnote::metadata::FileMetadata;

#[test]
fn tags_accumulate_across_confirmations() {
    let mut record = FileMetadata::new();
    record.append_tags("a, b, , c");
    let expected: Vec<String> = vec!["a".to_string(), "b".to_string(), "c".to_string()];
    assert_eq!(record.tags, expected);
    record.append_tags("d");
    let grown: Vec<String> = vec![
        "a".to_string(),
        "b".to_string(),
        "c".to_string(),
        "d".to_string(),
    ];
    assert_eq!(record.tags, grown);
}

#[test]
fn location_is_overwritten_not_appended() {
    let mut record = FileMetadata::new();
    record.set_location("  old barn  ");
    assert_eq!(record.location.as_deref(), Some("old barn"));
    record.set_location(" river bank ");
    assert_eq!(record.location.as_deref(), Some("river bank"));
}

#[test]
fn tags_field_joins_or_stays_absent() {
    let mut record = FileMetadata::new();
    assert!(record.tags_field().is_none());
    record.append_tags("wind, rain");
    assert_eq!(record.tags_field().as_deref(), Some("wind, rain"));
}
