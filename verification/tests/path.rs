use aiscript_engine::common::path::NamePath;
use aiscript_engine::common::string::{Utf16Str, Utf16String};

fn utf16(s: &str) -> Utf16Str {
    let units: Vec<u16> = s.encode_utf16().collect();
    Utf16Str::new(&units)
}

#[test]
fn from_segments() {
    let path = NamePath::from_segments(&[utf16("Ns"), utf16("id")]);
    let expected = NamePath::from(utf16("Ns:id"));
    assert_eq!(path, expected);
}

#[test]
fn edit() {
    let mut path = NamePath::from(utf16("Ns"));
    path.append(&utf16("id"));
    let expected = NamePath::from(utf16("Ns:id"));
    assert_eq!(path, expected);
}

#[test]
fn path_display() {
    let path = NamePath::from(utf16("Ns:id"));
    assert_eq!(path.to_display_string(), "Ns:id");
}

#[test]
fn segment_count_counts_colons() {
    assert_eq!(NamePath::new().segment_count(), 0);
    assert_eq!(NamePath::from(utf16("a")).segment_count(), 1);
    assert_eq!(NamePath::from(utf16("Ns:Ns:c")).segment_count(), 3);
}

#[test]
fn append_to_empty_path_has_no_separator() {
    let mut path = NamePath::new();
    path.append(&utf16("a"));
    assert_eq!(path, NamePath::from(utf16("a")));
    assert!(!path.is_empty());
}

#[test]
fn append_path_adds_all_segments() {
    let mut path = NamePath::from(utf16("A"));
    path.append_path(&NamePath::from_string(Utf16String::from("B:c")));
    assert_eq!(path, NamePath::from(utf16("A:B:c")));
    assert_eq!(path.segment_count(), 3);
}
