use hakkit::text::{find_char, is_whitespace, same_chars, strip_prefix, to_chars, trim};

fn chars(s: &str) -> Vec<char> {
    s.chars().collect()
}

#[test]
fn white_space_is_the_unicode_property() {
    let mut c = '\0';
    loop {
        assert_eq!(is_whitespace(c), c.is_whitespace(), "U+{:04X}", c as u32);
        if c == char::MAX {
            break;
        }
        c = char::from_u32(c as u32 + 1).unwrap_or('\u{E000}');
    }
}

#[test]
fn trimming() {
    for s in [
        "",
        " ",
        "a",
        " a",
        "a ",
        "  a b  ",
        "\t\r\n x \u{3000}",
        "\u{a0}\u{2003}key\u{85}",
        "   ",
        "no_space",
        " = ",
    ] {
        let t = chars(s);
        let got: String = trim(&t).iter().collect();
        assert_eq!(got, s.trim(), "{s:?}");
    }
}

#[test]
fn searching() {
    let t = chars("name = value = more");
    assert_eq!(find_char(&t, '=', 0), 5);
    assert_eq!(find_char(&t, '=', 5), 5);
    assert_eq!(find_char(&t, '=', 6), 13);
    assert_eq!(find_char(&t, '=', 14), t.len());
    assert_eq!(find_char(&t, '=', t.len()), t.len());
    assert_eq!(find_char(&t, '#', 0), t.len());
    assert_eq!(find_char(&[], 'x', 0), 0);
}

#[test]
fn prefixes() {
    let t = chars("key_area_key_ocean_0a");
    let rest = strip_prefix(&t, &chars("key_area_key_ocean_")).unwrap();
    assert_eq!(rest, &['0', 'a']);
    assert_eq!(strip_prefix(&t, &chars("")).unwrap().len(), t.len());
    assert_eq!(strip_prefix(&t, &t).unwrap().len(), 0);
    assert!(strip_prefix(&t, &chars("key_area_key_system_")).is_none());
    assert!(strip_prefix(&t, &chars("key_area_key_ocean_0a0")).is_none());
    assert!(same_chars(&t, &chars("key_area_key_ocean_0a")));
    assert!(!same_chars(&t, &chars("key_area_key_ocean_0b")));
    assert!(!same_chars(&t, &chars("key_area_key_ocean_0")));
    assert!(same_chars(&[], &[]));
}

#[test]
fn strings_become_their_characters() {
    assert_eq!(to_chars(""), Vec::<char>::new());
    assert_eq!(to_chars("a=b"), vec!['a', '=', 'b']);
    assert_eq!(to_chars("h\u{e9}\u{1F600}"), vec!['h', '\u{e9}', '\u{1F600}']);
}
