use pagoda_runtime::slug::{InvalidSlugError, Slug};

#[test]
fn test_new_trims_only_leading_replacement_chars() {
    let slug = Slug::new("___hello_world__".to_string());
    assert_eq!(slug.as_ref(), "hello_world__");

    let already_clean = Slug::new("hello_world".to_string());
    assert_eq!(already_clean.as_ref(), "hello_world");

    let only_replacements = Slug::new("____".to_string());
    assert_eq!(only_replacements.as_ref(), "");
}

#[test]
fn test_from_string_slugify_display_as_ref_and_partial_eq() {
    let slug = Slug::from_string("__Hello World-42!");

    assert_eq!(slug.as_ref(), "hello_world-42_");
    assert_eq!(slug.to_string(), "hello_world-42_");
    assert!(<Slug as PartialEq<str>>::eq(&slug, "hello_world-42_"));
    assert!(!<Slug as PartialEq<str>>::eq(&slug, "different"));

    let slugified = Slug::slugify("A-b_C 9!");
    assert_eq!(slugified.as_ref(), "a-b_c_9_");

    let leading_underscore = Slug::slugify("___valid_name");
    assert_eq!(leading_underscore.as_ref(), "valid_name");
}

#[test]
fn test_slugify_unique_is_deterministic_and_disambiguates() {
    let input = "Hello-World";
    let hash = blake3::hash(input.as_bytes()).to_string();
    let expected = format!("hello_world_{}", &hash[(hash.len() - 8)..]);

    let slug1 = Slug::slugify_unique(input);
    let slug2 = Slug::slugify_unique(input);
    assert_eq!(slug1.as_ref(), expected);
    assert_eq!(slug1, slug2);

    let case1 = Slug::slugify_unique("Hello");
    let case2 = Slug::slugify_unique("HELLO");
    assert_ne!(case1, case2);
    assert!(case1.as_ref().starts_with("hello_"));
    assert!(case2.as_ref().starts_with("hello_"));

    let trimmed = Slug::slugify_unique("-hello");
    assert!(trimmed.as_ref().starts_with("hello_"));
    assert!(!trimmed.as_ref().starts_with('_'));
}

#[test]
fn test_try_from_variants_and_invalid_slug_error_display() {
    let from_str = Slug::try_from("abc-123_slug").unwrap();
    let from_string = Slug::try_from("abc-123_slug".to_string()).unwrap();
    assert_eq!(from_str, from_string);
    assert_eq!(from_str.as_ref(), "abc-123_slug");

    let uppercase_err = Slug::try_from("Abc").unwrap_err();
    assert_eq!(
        uppercase_err.to_string(),
        "Invalid char 'A'. String can only contain a-z, 0-9, - and _."
    );

    let punctuation_err = Slug::try_from("abc!def".to_string()).unwrap_err();
    assert_eq!(
        punctuation_err.to_string(),
        "Invalid char '!'. String can only contain a-z, 0-9, - and _."
    );

    let manual_err = InvalidSlugError('!');
    assert_eq!(
        manual_err.to_string(),
        "Invalid char '!'. String can only contain a-z, 0-9, - and _."
    );
}

#[test]
fn default_slug_is_empty() {
    assert_eq!(Slug::default().as_ref(), "");
    assert_eq!(Slug::default(), Slug::try_from("").unwrap());
}

#[test]
fn slug_of_a_slug_is_itself() {
    for text in ["A b/C", "Ünïcode Name", "___", "x-Y.z", "İstanbul"] {
        let once = Slug::slugify(text);
        let twice = Slug::slugify(once.as_ref());
        assert_eq!(once, twice);
        assert_eq!(Slug::try_from(once.as_ref()).unwrap(), once);
    }
}

#[test]
fn letters_beyond_ascii_are_lowered_and_replaced() {
    assert_eq!(Slug::slugify("ÀB").as_ref(), "b");
    assert_eq!(Slug::slugify("BÀ").as_ref(), "b_");
}

#[test]
fn first_invalid_char_is_reported() {
    assert_eq!(Slug::try_from("ok!NO").unwrap_err().0, '!');
    assert_eq!(Slug::try_from("_lead").unwrap().as_ref(), "_lead");
}

#[test]
fn suffix_is_appended_after_the_readable_part() {
    assert_eq!(Slug::with_suffix("My-Model", "01234567").as_ref(), "my_model_01234567");
    assert_eq!(Slug::with_suffix("--", "89abcdef").as_ref(), "89abcdef");
}
