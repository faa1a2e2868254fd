use wexe::tag::{is_reserved_tag, is_valid_app_tag};

#[test]
fn accepts_plain_and_separated_tags() {
    assert!(is_valid_app_tag("foo"));
    assert!(is_valid_app_tag("foo-bar"));
    assert!(is_valid_app_tag("foo2-bar3_baz"));
}

#[test]
fn rejects_malformed_tags() {
    assert!(!is_valid_app_tag(""));
    assert!(!is_valid_app_tag("1foo"));
    assert!(!is_valid_app_tag("_foo"));
    assert!(!is_valid_app_tag("-foo"));
    assert!(!is_valid_app_tag("Foo"));
    assert!(!is_valid_app_tag("fOo"));
    assert!(!is_valid_app_tag("foo--bar"));
    assert!(!is_valid_app_tag("foo-_bar"));
    assert!(!is_valid_app_tag("foo-"));
    assert!(!is_valid_app_tag("foo.bar"));
    assert!(!is_valid_app_tag("foo\n"));
    assert!(!is_valid_app_tag("foo bar"));
    assert!(!is_valid_app_tag("f\u{e9}"));
}

#[test]
fn reserved_tags_are_the_two_tools() {
    assert!(is_reserved_tag("wexe"));
    assert!(is_reserved_tag("wexecfg"));
    assert!(!is_reserved_tag("wexe2"));
    assert!(!is_reserved_tag("WEXE"));
}
