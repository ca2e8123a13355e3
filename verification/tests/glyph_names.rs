use runebender::glyph_names::{
    codepoints_for_glyph, glyph_name_for_char, glyph_name_for_glyph, is_valid_glyph_name,
    validate_and_standardize_name, IllegalName, GLYPH_NAME_COUNT,
};

#[test]
fn glyph_names_smoke_test() {
    assert_eq!(glyph_name_for_char('c'), Some("c"));
    assert_eq!(glyph_name_for_glyph("c"), Some("c"));
    assert_eq!(glyph_name_for_char('C'), Some("C"));
    assert_eq!(glyph_name_for_glyph("C"), Some("C"));

    assert_eq!(glyph_name_for_char('é'), Some("eacute"));
    assert_eq!(glyph_name_for_glyph("é"), Some("eacute"));

    assert_eq!(glyph_name_for_char('<'), Some("less"));
    assert_eq!(glyph_name_for_glyph("ء"), None);
    assert_eq!(glyph_name_for_glyph("!"), Some("exclam"));
}

#[test]
fn codepoints_for_glyph_() {
    assert_eq!(codepoints_for_glyph("A"), Some(vec!['A']));
    assert_eq!(codepoints_for_glyph("eacute"), Some(vec!['é']));
    assert_eq!(codepoints_for_glyph("some-string"), None);
}

#[test]
fn filtering() {
    assert!(validate_and_standardize_name("hi_this_is_fine.11").is_ok());
    assert!(validate_and_standardize_name("hi_this_is_fine 11").is_err());
    assert!(validate_and_standardize_name("ZAa09.s_is_finz.11").is_ok());
    assert!(validate_and_standardize_name("newGlyph.69").is_ok());
}

#[test]
fn multi_char_glyph_has_no_name() {
    assert_eq!(glyph_name_for_glyph("ab"), None);
    assert_eq!(glyph_name_for_glyph(""), None);
}

#[test]
fn standardize_uses_list_name() {
    assert_eq!(validate_and_standardize_name("é").ok(), Some("eacute".to_string()));
    assert_eq!(validate_and_standardize_name("!").ok(), Some("exclam".to_string()));
    assert_eq!(validate_and_standardize_name("fine_name").ok(), Some("fine_name".to_string()));
}

#[test]
fn illegal_name_message() {
    let err = validate_and_standardize_name("not ok").err();
    assert_eq!(err, Some(IllegalName));
    assert_eq!(
        IllegalName.message(),
        "Glyph names can only include a-z, A-Z, 0-9, '.', '_'."
    );
}

#[test]
fn single_unlisted_char_is_its_own_codepoint() {
    assert_eq!(codepoints_for_glyph("ء"), Some(vec!['ء']));
    assert_eq!(codepoints_for_glyph(""), None);
}

#[test]
fn valid_names() {
    assert!(is_valid_glyph_name("a.b_c09"));
    assert!(is_valid_glyph_name(""));
    assert!(!is_valid_glyph_name("a-b"));
    assert!(!is_valid_glyph_name("é"));
}

#[test]
fn list_names_round_trip() {
    // every listed character's name leads back to that character
    for c in ['A', 'z', '0', '~', 'é', 'ß', '\u{2126}', '€', '→'] {
        let name = glyph_name_for_char(c).unwrap();
        assert_eq!(codepoints_for_glyph(name), Some(vec![c]));
    }
    assert!(GLYPH_NAME_COUNT > 500);
}
