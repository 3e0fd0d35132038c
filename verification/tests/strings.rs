use wavnote::strings::{trim_of, split_tags, join_tags, flac_output_path, has_wav_extension};

#[test]
fn trim_removes_surrounding_whitespace() {
    assert_eq!(trim_of("  a b  ").as_str(), "a b");
    assert_eq!(trim_of("\t mountain top \n").as_str(), "mountain top");
    assert_eq!(trim_of("plain").as_str(), "plain");
}

#[test]
fn trim_of_all_whitespace_is_empty() {
    assert_eq!(trim_of(" \t\r\n").as_str(), "");
    assert_eq!(trim_of("").as_str(), "");
}

#[test]
fn split_tags_drops_empty_and_trims() {
    let tags = split_tags("a, b, , c");
    let expected: Vec<String> = vec!["a".to_string(), "b".to_string(), "c".to_string()];
    assert_eq!(tags, expected);
}

#[test]
fn split_tags_single_and_empty() {
    assert_eq!(split_tags("solo"), vec!["solo".to_string()]);
    let none: Vec<String> = Vec::new();
    assert_eq!(split_tags(""), none);
    assert_eq!(split_tags(" , ,, "), none);
}

#[test]
fn join_tags_uses_comma_space() {
    let tags = vec!["a".to_string(), "b".to_string(), "c".to_string()];
    assert_eq!(join_tags(&tags).as_str(), "a, b, c");
    assert_eq!(join_tags(&vec!["one".to_string()]).as_str(), "one");
    assert_eq!(join_tags(&Vec::new()).as_str(), "");
}

#[test]
fn flac_output_path_swaps_extension() {
    assert_eq!(flac_output_path("dir/take1.wav").as_str(), "dir/take1.flac");
    assert_eq!(flac_output_path("noext").as_str(), "noext.flac");
    assert_eq!(flac_output_path("twice.wav.wav").as_str(), "twice.flac");
}

#[test]
fn wav_extension_detection() {
    assert!(has_wav_extension("a.wav"));
    assert!(has_wav_extension("deep/dir/b.wav"));
    assert!(!has_wav_extension("a.mp3"));
    assert!(!has_wav_extension("wav"));
    assert!(!has_wav_extension("a.WAV"));
}
