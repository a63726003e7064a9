use slugify_rs::builder::slugify as build;
use slugify_rs::{slugify, try_slugify, Case, SlugError};

#[test]
fn error_on_zero_randomness_length() {
    let r = try_slugify("hello world", "", "-", None, true, 0, None);
    assert!(matches!(r, Err(SlugError::InvalidRandomnessLength)));
}

#[test]
fn try_slugify_ok_matches_slugify() {
    let r = try_slugify("hello world", "", "-", None, false, 5, None);
    assert_eq!(r, Ok("hello-world".to_owned()));
}

#[test]
fn try_execute_error_on_zero_randomness_length() {
    let r = build("hello world".to_owned())
        .with_randomness(true)
        .with_randomness_length(0)
        .try_execute();
    assert!(matches!(r, Err(SlugError::InvalidRandomnessLength)));
}

#[test]
fn randomness_length_one_appends_only_separator() {
    let s = slugify("hello", "", "-", None, true, 1, None);
    assert_eq!(s, "hello-");
}

#[test]
fn slug_of_a_slug_is_unchanged() {
    let once = slugify("Hello World", "", "-", None, false, 5, None);
    let twice = slugify(&once, "", "-", None, false, 5, None);
    assert_eq!(twice, once);
    let messy_once = slugify("1000 reasons you are #1", "", "-", None, false, 5, None);
    let messy_twice = slugify(&messy_once, "", "-", None, false, 5, None);
    assert_eq!(messy_twice, messy_once);
}

#[test]
fn no_double_or_edge_separator_on_messy_input() {
    let s = slugify("--a@@b--", "", "-", None, false, 5, None);
    assert_eq!(s, "a-b");
    let t = slugify("  ?! hello ... world !?  ", "", "-", None, false, 5, None);
    assert_eq!(t, "hello-world");
    assert!(!t.contains("--"));
    assert!(!t.starts_with('-') && !t.ends_with('-'));
}

#[test]
fn empty_and_unrepresentable_inputs() {
    assert_eq!(slugify("", "", "-", None, false, 5, None), "");
    assert_eq!(slugify("???", "", "-", None, false, 5, None), "");
    assert_eq!(slugify("hello", "", "-", Some(0), false, 5, None), "");
}

#[test]
fn truncation_never_exceeds_limit() {
    for n in 0..14 {
        let s = slugify("the quick brown fox", "", "-", Some(n), false, 5, None);
        assert!(s.len() <= n);
    }
    assert_eq!(slugify("the quick brown fox", "", "-", Some(9), false, 5, None), "the-quick");
}

#[test]
fn case_contract_holds_with_randomness() {
    let up = slugify("hello world", "", "-", None, true, 5, Some(Case::Upper));
    assert!(!up.chars().any(|c| c.is_ascii_lowercase()));
    let low = slugify("HELLO WORLD", "", "-", None, true, 5, Some(Case::Lower));
    assert!(!low.chars().any(|c| c.is_ascii_uppercase()));
}

#[test]
fn del_is_not_preserved_by_transliteration() {
    // DEL is ASCII but the transliteration table rewrites it to nothing, so
    // it never reaches the filtering stage as a boundary; only characters
    // below U+007F are passed through unchanged.
    assert_eq!(slugify("a\u{7f}b", "", "-", None, false, 5, None), "ab");
}

#[test]
fn stop_word_matches_inside_words() {
    let s = slugify("feather the", "the", "-", None, false, 5, None);
    assert_eq!(s, "fea-r");
}

#[test]
fn stop_words_apply_in_given_order() {
    let s = slugify("abc abcd", "abc,d", "-", None, false, 5, None);
    assert_eq!(s, "");
}
