use aiscript_engine::common::string::{Utf16Str, Utf16String};

fn units(s: &str) -> Vec<u16> {
    s.encode_utf16().collect()
}

#[test]
fn utf16_macro() {
    let data = units("abc");
    let s = Utf16Str::new(&data);
    assert_eq!(Utf16String::from("abc").as_utf16_str(), &s);
}

#[test]
fn string_len() {
    let s = Utf16Str::new(&units("abc"));
    assert_eq!(s.len(), 3);
    let s = Utf16Str::new(&units("🥰"));
    assert_eq!(s.len(), 2);
}

#[test]
fn len() {
    let s = Utf16String::from_iter(&units("abc"));
    assert_eq!(s.len(), 3);
    let s = Utf16String::from_iter(&units("🥰"));
    assert_eq!(s.len(), 2);
}

#[test]
fn join() {
    let sep = Utf16Str::new(&units(" "));

    assert_eq!(Utf16String::join(&[], &sep), Utf16String::new());

    let strings = [Utf16Str::new(&units("abc")), Utf16Str::new(&units("123"))];
    assert_eq!(Utf16String::join(&strings, &sep), Utf16String::from_iter(&units("abc 123")));
}

#[test]
fn to_owned() {
    let s = Utf16Str::new(&units("abc"));
    assert_eq!(s.to_owned(), Utf16String::from_iter(&units("abc")));
}

#[test]
fn string_index() {
    let data = units("abc");
    let s = Utf16Str::new(&data);
    assert_eq!(s.get(0), units("a")[0]);

    let mut s = Utf16Str::new(&data);
    s.set(0, units("1")[0]);
    assert_eq!(s.get(0), units("1")[0]);

    let s = Utf16String::from_iter(&units("abc"));
    assert_eq!(s.get(0), units("a")[0]);

    let mut s = Utf16String::from_iter(&units("abc"));
    s.set(0, units("1")[0]);
    assert_eq!(s.get(0), units("1")[0]);
}

#[test]
fn string_display() {
    let s = Utf16Str::new(&units("abc"));
    assert_eq!(s.to_display_string(), "abc");

    let data = units("🥰");
    let s0 = Utf16Str::new(&data[0..1]);
    let s1 = Utf16Str::new(&data[1..2]);
    assert_eq!(s0.to_display_string(), "\u{FFFD}");
    assert_eq!(s1.to_display_string(), "\u{FFFD}");
}

#[test]
fn display() {
    let original = "abc";
    assert_eq!(Utf16String::from("abc").to_display_string(), original);
}

#[test]
fn string_debug() {
    let s = Utf16Str::new(&units("abc"));
    assert_eq!(s.debug_text(), "abc");

    let data = units("🥰");
    let s0 = Utf16Str::new(&data[0..1]);
    let s1 = Utf16Str::new(&data[1..2]);
    assert_eq!(s0.debug_text(), "\u{FFFD}");
    assert_eq!(s1.debug_text(), "\u{FFFD}");
}

#[test]
fn debug() {
    let original = "abc";
    assert_eq!(Utf16String::from("abc").debug_text(), original);
}

#[test]
fn borrow() {
    let mut s = Utf16String::from_iter(&units("abc"));
    let s_mut: &mut Utf16Str = s.as_mut_utf16_str();
    s_mut.set(2, units("1")[0]);
    let s_immutable: &Utf16Str = s.as_utf16_str();
    assert_eq!(s_immutable, &Utf16Str::new(&units("ab1")));
}

#[test]
fn deref() {
    let s = Utf16String::from_iter(&units("abc"));
    assert_eq!(s.as_utf16_str(), &Utf16Str::new(&units("abc")));

    let mut s = Utf16String::from_iter(&units("abc"));
    s.as_mut_utf16_str().set(0, units("1")[0]);
    assert_eq!(s.as_utf16_str(), &Utf16Str::new(&units("1bc")));
}

#[test]
fn into_iter() {
    let mut iter = Utf16String::from_iter(&units("abc")).into_iter();
    assert_eq!(iter.next(), Some(units("a")[0]));
    assert_eq!(iter.next(), Some(units("b")[0]));
    assert_eq!(iter.next(), Some(units("c")[0]));
    assert_eq!(iter.next(), None);
}

#[test]
fn string_add_assign() {
    let mut buf = Utf16String::from_iter(&units("abc"));
    buf.push_str(&Utf16Str::new(&units("123")));
    assert_eq!(buf.as_utf16_str(), &Utf16Str::new(&units("abc123")));
    buf.push(units("4")[0]);
    assert_eq!(buf.as_utf16_str(), &Utf16Str::new(&units("abc1234")));
}

#[test]
fn add() {
    let buf = Utf16String::from_iter(&units("abc"));
    assert_eq!(
        buf.concat(&Utf16Str::new(&units("123"))).as_utf16_str(),
        &Utf16Str::new(&units("abc123"))
    );

    let buf = Utf16String::from_iter(&units("abc"));
    assert_eq!(buf.concat_unit(units("d")[0]).as_utf16_str(), &Utf16Str::new(&units("abcd")));
}

#[test]
fn join_single_and_empty_parts() {
    let sep = Utf16Str::new(&units(", "));
    let one = [Utf16Str::new(&units("x"))];
    assert_eq!(Utf16String::join(&one, &sep), Utf16String::from("x"));
    let with_empty = [Utf16Str::new(&units("")), Utf16Str::new(&units(""))];
    assert_eq!(Utf16String::join(&with_empty, &sep), Utf16String::from(", "));
}

#[test]
fn from_str_encodes_surrogate_pairs() {
    let s = Utf16String::from("a🥰");
    assert_eq!(s.as_u16s(), &[0x61u16, 0xD83E, 0xDD70][..]);
    assert_eq!(s.to_display_string(), "a🥰");
}

#[test]
fn equality_of_code_units() {
    let a = Utf16String::from("abc");
    let b = Utf16String::from_iter(&units("abc"));
    let c = Utf16String::from("abd");
    assert!(a.eq_str(&b));
    assert!(!a.eq_str(&c));
    assert!(a.as_utf16_str().eq_u16s(&units("abc")));
}

#[test]
fn convert() {
    let data: Vec<u16> = "abc".encode_utf16().collect();
    let s = Utf16Str::new(&data);
    assert_eq!(s.as_u16s(), &data[..]);

    let mut_data = data.to_owned();
    let mut s_mut = Utf16Str::new(&mut_data);
    assert_eq!(s_mut.as_mut_u16s(), &data[..]);
}

#[test]
fn encoding_splits_astral_characters_into_surrogates() {
    let s = Utf16String::from("a\u{1F600}é");
    assert_eq!(s.as_u16s(), &[0x61u16, 0xD83D, 0xDE00, 0xE9][..]);
    let lone = Utf16String::from_iter(&[0x62u16, 0xDC00, 0x63]);
    assert_eq!(lone.to_display_string(), "b\u{FFFD}c");
}
