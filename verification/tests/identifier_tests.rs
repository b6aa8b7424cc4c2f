use mcdl::identifiers::{GeneratedIdentifier, IdentifierParseError, NamedId, IDENTIFIER_LENGTH};

#[test]
fn id_parse_invalid_length() {
    let err = "abc".parse::<GeneratedIdentifier>().unwrap_err();
    match err {
        IdentifierParseError::InvalidLength(3) => {}
        _ => panic!("unexpected error: {err:?}"),
    }
}

#[test]
fn id_parse_invalid_character() {
    // length is checked first
    let err = "abcdefghij".parse::<GeneratedIdentifier>().unwrap_err();
    match err {
        IdentifierParseError::InvalidLength(10) => {}
        _ => panic!("unexpected error: {err:?}"),
    }

    // a valid-length string with an invalid character
    let err = "0123456789ab!".parse::<GeneratedIdentifier>().unwrap_err();
    match err {
        IdentifierParseError::InvalidCharacter('!') => {}
        _ => panic!("unexpected error: {err:?}"),
    }
}

#[test]
fn id_roundtrip() {
    for value in [0u64, 1, 255, 4096, 0x0123456789abcdef, u64::MAX] {
        let id = GeneratedIdentifier { value };
        let s = id.as_str();
        assert_eq!(s.len(), IDENTIFIER_LENGTH);
        let parsed = s.parse::<GeneratedIdentifier>().unwrap();
        assert_eq!(id.value, parsed.value);
    }
}

#[test]
fn id_rendering_matches_the_encoding() {
    // The zero identifier renders as thirteen zero symbols.
    let id = GeneratedIdentifier { value: 0 };
    assert_eq!(id.as_str(), "0000000000000");
    // A nonzero identifier matches what the encoding crate itself
    // produces for the same specification.
    let mut spec = data_encoding::Specification::new();
    spec.symbols.push_str("0123456789abcdefghjkmnpqrstvwxyz");
    spec.translate.from.push_str("OoIiLlABCDEFGHJKMNPQRSTVWXYZ");
    spec.translate.to.push_str("001111abcdefghjkmnpqrstvwxyz");
    let enc = spec.encoding().unwrap();
    let value = 0x0123456789abcdefu64;
    let id = GeneratedIdentifier { value };
    assert_eq!(id.as_str(), enc.encode(&value.to_le_bytes()));
}

#[test]
fn id_parse_translates_confusables() {
    // `O` and `o` read as zero, `I`, `i`, `L` and `l` as one.
    let zero = GeneratedIdentifier::parse("0000000000000").unwrap();
    let confused = GeneratedIdentifier::parse("OoOoOoOoOoOoO").unwrap();
    assert_eq!(zero.value, confused.value);
}

#[test]
fn named_id_display() {
    let named = NamedId::new("my-server".to_string());
    let shown = named.to_string();
    assert!(shown.starts_with("my-server ("));
    assert!(shown.ends_with(')'));
    assert_eq!(shown.len(), "my-server".len() + 2 + IDENTIFIER_LENGTH + 1);
    assert_eq!(NamedId::default().name, "unnamed");
}

#[test]
fn fresh_ids_have_the_right_shape() {
    let id = GeneratedIdentifier::new();
    let s = id.as_str();
    assert_eq!(s.len(), IDENTIFIER_LENGTH);
    assert!(s
        .chars()
        .all(|c| c.is_ascii_digit() || (c.is_ascii_lowercase() && !"ilou".contains(c))));
}
