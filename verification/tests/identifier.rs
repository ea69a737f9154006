use rspack_plugins::identifier::to_identifier;
use rspack_plugins::text::{contains_any_char, contains_str};

#[test]
fn identifiers_stay() {
    assert_eq!(to_identifier("foo"), "foo");
    assert_eq!(to_identifier("$x1"), "$x1");
    assert_eq!(to_identifier("_private"), "_private");
}

#[test]
fn leading_character_is_prefixed() {
    assert_eq!(to_identifier("1abc"), "_1abc");
    assert_eq!(to_identifier("-x"), "_x");
}

#[test]
fn runs_collapse_to_one_underscore() {
    assert_eq!(to_identifier("a-b"), "a_b");
    assert_eq!(to_identifier("a__b"), "a_b");
    assert_eq!(to_identifier("a.b[0]"), "a_b_0_");
    assert_eq!(to_identifier("my module/index.js"), "my_module_index_js");
    assert_eq!(to_identifier("ä"), "_");
}

#[test]
fn empty_name() {
    assert_eq!(to_identifier(""), "");
}

#[test]
fn identifier_is_stable() {
    for name in ["1abc", "a.b[0]", "-x", "__", "x--y", "$"] {
        let once = to_identifier(name);
        assert_eq!(to_identifier(&once), once);
        assert!(once.chars().all(|c| c.is_ascii_alphanumeric() || c == '$' || c == '_'));
        assert!(!once.chars().next().unwrap().is_ascii_digit());
    }
}

#[test]
fn text_search() {
    assert!(contains_any_char("obj.p", "[]()."));
    assert!(!contains_any_char("value", "[]()."));
    assert!(contains_str("Module is an entry point", "entry point"));
    assert!(contains_str("abc", ""));
    assert!(!contains_str("ab", "abc"));
}
