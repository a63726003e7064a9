use slugify_rs::{slugify, Case};

#[test]
fn basic() {
    assert_eq!(slugify("hello world", "", "-", None, false, 5, None), "hello-world");
    assert_eq!(slugify("hello world-", "", "-", None, false, 5, None), "hello-world");
    assert_eq!(slugify("hello world ", "", "-", None, false, 5, None), "hello-world");
    assert_eq!(
        slugify("hello world ", "", "-", None, true, 5, None).len(),
        "hello-world".len() + 5
    );
    assert_eq!(
        slugify("hello world ", "", "-", None, false, 5, Some(Case::Upper)),
        "HELLO-WORLD"
    );
    assert_eq!(
        slugify("Hello World ", "", "-", None, false, 5, Some(Case::Same)),
        "Hello-World"
    );
    assert_eq!(slugify("hello world ", "", "", None, false, 5, None), "helloworld");
}

#[test]
fn test_email() {
    assert_eq!(slugify("alice@bob.com", "", "-", None, false, 5, None), "alice-bob-com");
    assert_eq!(slugify("alice@bob.com", "", "-", None, false, 5, None), "alice-bob-com");
}

#[test]
fn test_randomness() {
    assert_eq!(
        slugify("hello world", "", "-", None, true, 5, None).len(),
        "hello-world".len() + 5
    );
}

#[test]
fn test_starts_with_number() {
    assert_eq!(
        slugify("10 amazing secrets", "", "-", None, false, 5, None),
        "10-amazing-secrets"
    );
}

#[test]
fn test_contains_numbers() {
    assert_eq!(
        slugify("the 101 Dalmatians", "", "-", None, false, 5, None),
        "the-101-dalmatians"
    );
    assert_eq!(
        slugify("the 101 dalmatians", "", "-", None, true, 5, None).len(),
        "the-101-dalmatians".len() + 5
    );
}

#[test]
fn test_ends_with_number() {
    assert_eq!(slugify("lucky number 7", "", "-", None, false, 5, None), "lucky-number-7");
}

#[test]
fn test_numbers_only() {
    assert_eq!(slugify("101", "", "-", None, false, 5, None), "101");
}

#[test]
fn test_numbers_and_symbols() {
    assert_eq!(
        slugify("1000 reasons you are #1", "", "-", None, false, 5, None),
        "1000-reasons-you-are-1"
    );
}

#[test]
fn test_stop_words() {
    assert_eq!(slugify("hello world", "world", "-", None, false, 5, None), "hello");
    assert_eq!(slugify("hello world", "world", "-", None, false, 5, None), "hello");
    assert_eq!(
        slugify("hello world", "world", "-", None, true, 5, None).len(),
        "hello".len() + 5
    );
}

#[test]
fn test_differently_cased_stopword_match() {
    assert_eq!(slugify("Foo A FOO B foo C", "foo", "-", None, false, 5, None), "a-b-c");
}

#[test]
fn test_multiple_stop_words() {
    assert_eq!(
        slugify("the quick brown fox jumps over the lazy dog", "the", "-", None, false, 5, None),
        "quick-brown-fox-jumps-over-lazy-dog"
    );
    assert_eq!(
        slugify(
            "the quick brown fox jumps over the lazy dog",
            "the,fox",
            "-",
            None,
            false,
            5,
            None
        ),
        "quick-brown-jumps-over-lazy-dog"
    );
    assert_eq!(
        slugify(
            "the quick brown fox jumps over the lazy dog",
            "the,fox",
            "-",
            None,
            false,
            5,
            None
        ),
        "quick-brown-jumps-over-lazy-dog"
    );
}

#[test]
fn test_stopwords_with_different_separator() {
    assert_eq!(
        slugify("the quick brown fox jumps over the lazy dog", "the", " ", None, false, 5, None),
        "quick brown fox jumps over lazy dog"
    );
    assert_eq!(
        slugify("the quick brown fox jumps over the lazy dog", "the", " ", None, true, 8, None)
            .len(),
        "quick brown fox jumps over lazy dog".len() + 8
    );
    assert_eq!(
        slugify("the quick brown fox jumps over the lazy dog", "the", " ", None, false, 5, None),
        "quick brown fox jumps over lazy dog"
    );
    assert_eq!(
        slugify("the quick brown fox jumps over the lazy dog", "the", " ", None, true, 5, None)
            .len(),
        "quick brown fox jumps over lazy dog".len() + 5
    );
    assert_eq!(
        slugify("the quick brown fox jumps over the lazy dog", "the", " ", None, true, 10, None)
            .len(),
        "quick brown fox jumps over lazy dog".len() + 10
    );
}

#[test]
fn test_separator() {
    assert_eq!(slugify("hello world", "", ".", None, false, 5, None), "hello.world");
    assert_eq!(slugify("hello world", "", "_", None, false, 5, None), "hello_world");
    assert_eq!(slugify("hello world", "", "_", None, false, 5, None), "hello_world");
    assert_eq!(
        slugify("hello world-", "", "_", None, true, 5, None).len(),
        "hello_world".len() + 5
    );
}

#[test]
fn test_phonetic_conversion() {
    assert_eq!(slugify("影師嗎", "", "-", None, false, 5, Some(Case::Same)), "Ying-Shi-Ma");
    assert_eq!(slugify("影師嗎", "", "-", None, false, 5, Some(Case::Lower)), "ying-shi-ma");
    assert_eq!(slugify("影師嗎", "", "-", None, false, 5, None), "ying-shi-ma");
}

#[test]
fn test_accented_text() {
    assert_eq!(slugify("hello world", "", ".", None, false, 5, None), "hello.world");
    assert_eq!(
        slugify("Nín hǎo. Wǒ shì zhōng guó rén", "", "-", None, false, 5, Some(Case::Lower)),
        "nin-hao-wo-shi-zhong-guo-ren"
    );
    assert_eq!(
        slugify("Nín hǎo. Wǒ shì zhōng guó rén", "", "-", None, false, 5, None),
        "nin-hao-wo-shi-zhong-guo-ren"
    );
    assert_eq!(
        slugify("Nín hǎo. Wǒ shì zhōng guó rén", "", "-", None, false, 5, Some(Case::Same)),
        "Nin-hao-Wo-shi-zhong-guo-ren"
    );
}

#[test]
fn test_convert_case() {
    assert_eq!(slugify("Hello World", "", "-", None, false, 5, None), "hello-world");
    assert_eq!(
        slugify("Hello World", "", "-", None, false, 5, Some(Case::Lower)),
        "hello-world"
    );
    assert_eq!(
        slugify("hello world", "", "-", None, false, 5, Some(Case::Upper)),
        "HELLO-WORLD"
    );
    assert_eq!(
        slugify("Hello World", "", "-", None, false, 5, Some(Case::Same)),
        "Hello-World"
    );
}

#[test]
fn test_accented_text_non_word_chars() {
    assert_eq!(
        slugify("jaja---lol-méméméoo--a", "", "-", None, false, 5, None),
        "jaja-lol-mememeoo-a"
    );
}

#[test]
fn test_cyrillic_text() {
    assert_eq!(slugify("Компьютер", "", "-", None, false, 5, None), "komp-iuter");
}

#[test]
fn test_macro() {
    assert_eq!(slugify("Компьютер", "", "-", None, false, 5, None), "komp-iuter");
    assert_eq!(slugify("hello world", "", "-", None, false, 5, None), "hello-world");
    assert_eq!(slugify("hello world", "", " ", None, false, 5, None), "hello world");
    assert_eq!(slugify("hello world", "", "-", Some(5), false, 5, None), "hello");
    assert_eq!(slugify("hello world", "", "-", Some(6), false, 5, None), "hello");
    assert_eq!(slugify("Hello world", "", " ", Some(8), false, 5, None), "hello wo");
    assert_eq!(slugify("hello world", "", "x", Some(8), false, 5, None), "helloxwo");
    assert_eq!(
        slugify("the hello world", "the", "-", None, false, 5, Some(Case::Upper)),
        "HELLO-WORLD"
    );
    assert_eq!(
        slugify("The Great Khan", "the", "-", None, false, 5, Some(Case::Lower)),
        "great-khan"
    );
    assert_eq!(slugify("the hello world", "the", "-", Some(5), false, 5, None), "hello");
    assert_eq!(
        slugify("The Hello World", "the", "-", Some(5), false, 5, Some(Case::Lower)),
        "hello"
    );
    assert_eq!(
        slugify("the hello world", "the", "-", Some(10), false, 5, None),
        "hello-worl"
    );
    assert_eq!(
        slugify("the hello world", "the", "-", Some(20), false, 5, None),
        "hello-world"
    );
}
