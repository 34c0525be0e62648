use dep_session::digest::{checkout_dir_name, mirror_dir_name};
use dep_session::text::{push_decimal, push_hex, text_equal, text_less};

#[test]
fn mirror_name_has_the_known_digits() {
    assert_eq!(mirror_dir_name("a", "https://example.com/a.git"), "a-05dea89bc1025237");
    assert_eq!(mirror_dir_name("a", "https://example.com/b.git"), "a-ac91cc91486b4007");
    assert_eq!(mirror_dir_name("", ""), "-786a02f742015903");
}

#[test]
fn mirror_name_is_the_same_every_time() {
    let first = mirror_dir_name("a", "https://example.com/a.git");
    for _ in 0..3 {
        assert_eq!(mirror_dir_name("a", "https://example.com/a.git"), first);
    }
    assert_ne!(mirror_dir_name("a", "https://example.com/b.git"), first);
    assert_eq!(first.len(), "a".len() + 17);
}

#[test]
fn checkout_name_depends_on_the_root() {
    let one = checkout_dir_name("a", "https://example.com/a.git", "/home/user/one");
    let two = checkout_dir_name("a", "https://example.com/a.git", "/home/user/two");
    assert_eq!(one, "a-43da1a72d1461746");
    assert_eq!(two, "a-eaf844efac50e857");
    assert_ne!(one, two);
    assert_eq!(checkout_dir_name("a", "https://example.com/a.git", "/home/user/one"), one);
}

#[test]
fn checkout_name_takes_the_root_as_it_is_written_in_quotes() {
    assert_eq!(checkout_dir_name("dep", "u", "/a \"b\""), "dep-4254838dd90d1380");
}

#[test]
fn hex_has_two_lower_case_digits_a_byte() {
    let mut out = String::from("x");
    push_hex(&mut out, &[0x00, 0x0f, 0xa5, 0xff, 0x10], 4);
    assert_eq!(out, "x000fa5ff");
    push_hex(&mut out, &[], 0);
    assert_eq!(out, "x000fa5ff");
}

#[test]
fn decimal_has_no_leading_zeros() {
    let mut out = String::new();
    push_decimal(&mut out, 0);
    out.push(' ');
    push_decimal(&mut out, 9);
    out.push(' ');
    push_decimal(&mut out, 100);
    out.push(' ');
    push_decimal(&mut out, 4096);
    assert_eq!(out, "0 9 100 4096");
}

#[test]
fn texts_are_ordered_by_their_bytes() {
    assert!(text_less("a", "b"));
    assert!(text_less("", "a"));
    assert!(text_less("ab", "abc"));
    assert!(text_less("Z", "a"));
    assert!(text_less("z", "é"));
    assert!(!text_less("b", "a"));
    assert!(!text_less("abc", "abc"));
    assert!(!text_less("", ""));
    for (a, b) in [("abc", "abd"), ("10", "9"), ("é", "z"), ("x", "")] {
        assert_eq!(text_less(a, b), a < b);
    }
}

#[test]
fn texts_are_equal_when_their_characters_are() {
    assert!(text_equal("", ""));
    assert!(text_equal("héllo", "héllo"));
    assert!(!text_equal("hello", "hellp"));
    assert!(!text_equal("hello", "hell"));
}
