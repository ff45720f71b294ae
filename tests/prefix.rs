use s3_source::{find_prefix, listing_prefix};

#[test]
fn glob_prefix() {
    assert_eq!(&find_prefix("foo/**"), "foo/");
    assert_eq!(&find_prefix("foo/"), "foo/");
    assert_eq!(&find_prefix(""), "");
    assert_eq!(&find_prefix("**/*.json"), "");
    assert_eq!(&find_prefix(r"foo/\*/bar/*.json"), r"foo/*/bar/");
    assert_eq!(&find_prefix("foo/[*]/**"), "foo/");
    assert_eq!(&find_prefix("foo/{a,b}"), "foo/");
    assert_eq!(&find_prefix(r"class/\[*.json"), "class/[");
    assert_eq!(&find_prefix(r"class/\[ab]/**"), "class/[ab]/");
    assert_eq!(&find_prefix(r"alt/\{a,b}/**"), "alt/{a,b}/");
}

#[test]
fn trailing_backslash_is_dropped() {
    assert_eq!(&find_prefix(r"foo\"), "foo");
    assert_eq!(&find_prefix(r"a\\b*"), r"a\b");
}

#[test]
fn prefix_of_non_ascii_pattern() {
    assert_eq!(&find_prefix("données/é*"), "données/é");
}

#[test]
fn listing_prefix_follows_pattern() {
    assert_eq!(listing_prefix(None), None);
    assert_eq!(listing_prefix(Some("logs/2020-*/x")), Some("logs/2020-".to_string()));
}
