use slugify_rs::builder::{slugify, SlugBuilder};
use slugify_rs::Case;

#[test]
fn build_basic() {
    assert_eq!(slugify("Hello World".to_owned()).execute(), "hello-world");
    assert_eq!(
        slugify("Hello World".to_owned())
            .with_stop_words("world".to_owned())
            .execute(),
        "hello"
    );
    assert_eq!(
        slugify("hello world".to_owned())
            .with_sep("+".to_owned())
            .execute(),
        "hello+world"
    );
    assert_eq!(
        slugify("hello world".to_owned())
            .with_randomness(true)
            .execute()
            .len(),
        "hello-world".len() + 5
    );
    assert_eq!(
        slugify("hello world".to_owned())
            .with_transform(Case::Upper)
            .execute(),
        "HELLO-WORLD"
    );
    assert_eq!(
        slugify("Lorem ipsum is placeholder text commonly used in the graphic, print, and publishing industries for previewing layouts and visual mockups".to_owned())
            .with_sep("+".to_owned())
            .with_max_length(6)
            .with_transform(Case::Same)
            .execute(),
        "Lorem"
    );
}

#[test]
fn build_matches_positional() {
    let built = slugify("the hello world".to_owned())
        .with_stop_words("the".to_owned())
        .with_max_length(20)
        .execute();
    let direct =
        slugify_rs::slugify("the hello world", "the", "-", Some(20), false, 5, Some(Case::Lower));
    assert_eq!(built, direct);
    assert_eq!(built, "hello-world");
}

#[test]
fn build_default_is_empty() {
    assert_eq!(SlugBuilder::default().execute(), "");
}

#[test]
fn build_randomness_length() {
    let s = slugify("hello world".to_owned())
        .with_randomness(true)
        .with_randomness_length(8)
        .execute();
    assert_eq!(s.len(), "hello-world".len() + 8);
}
