//! The token cache and the token record format.
use mtd_vat_cli::auth::Token;
use mtd_vat_cli::error::Error;
use mtd_vat_cli::io::cache_dir;
use mtd_vat_cli::io::cache_file_name;
use mtd_vat_cli::io::read_token;
use mtd_vat_cli::io::write_token;
use mtd_vat_cli::json::parse_access_token;
use mtd_vat_cli::json::serialize_record;

#[test]
fn cache_file_name_appends_suffix() {
    assert_eq!(cache_file_name("123456789"), "123456789.access.json");
}

#[test]
fn cache_dir_ends_with_tool_subdirectory() {
    if let Some(dir) = cache_dir() {
        assert!(dir.ends_with("/mtd-vat-cli"));
    }
}

#[test]
fn write_then_read_round_trips() {
    let token = Token {
        access_token: "abc".to_string(),
    };
    let (name, contents) = write_token("123456789", &token);
    assert_eq!(name, "123456789.access.json");
    assert_eq!(contents, "{\"access_token\":\"abc\"}");
    let read = read_token(Some(&contents)).unwrap();
    assert_eq!(read, Some(token));
}

#[test]
fn round_trip_with_escaped_characters() {
    let token = Token {
        access_token: "a\"b\\c\nd\te".to_string(),
    };
    let (_, contents) = write_token("k", &token);
    let read = read_token(Some(&contents)).unwrap();
    assert_eq!(read, Some(token));
}

#[test]
fn serializer_escapes_exactly() {
    assert_eq!(serialize_record("a\"b"), "{\"access_token\":\"a\\\"b\"}");
    assert_eq!(serialize_record("a\\b"), "{\"access_token\":\"a\\\\b\"}");
    assert_eq!(serialize_record("a\nb"), "{\"access_token\":\"a\\u000ab\"}");
    assert_eq!(serialize_record(""), "{\"access_token\":\"\"}");
}

#[test]
fn read_absent_file_is_none_not_error() {
    assert_eq!(read_token(None).unwrap(), None);
}

#[test]
fn read_invalid_json_is_deserialization_error() {
    let r = read_token(Some("not json"));
    assert!(matches!(r, Err(Error::DeserializationError { .. })));
    let r = read_token(Some("{\"access_token\":"));
    assert!(matches!(r, Err(Error::DeserializationError { .. })));
}

#[test]
fn read_wrong_member_type_is_error() {
    let r = read_token(Some("{\"access_token\": 5}"));
    assert!(matches!(r, Err(Error::DeserializationError { .. })));
}

#[test]
fn read_missing_member_is_error() {
    let r = read_token(Some("{}"));
    assert!(matches!(r, Err(Error::DeserializationError { .. })));
    let r = read_token(Some("{\"other\":\"x\"}"));
    assert!(matches!(r, Err(Error::DeserializationError { .. })));
}

#[test]
fn parser_accepts_flat_object_with_extra_members() {
    let text = "{\"access_token\":\"x\",\"expires_in\":3600,\"token_type\":\"bearer\",\"ok\":true,\"n\":null}";
    assert_eq!(parse_access_token(text), Some("x".to_string()));
}

#[test]
fn parser_accepts_whitespace_and_member_order() {
    let text = " {\n\t\"token_type\" : \"bearer\" ,\r\n \"access_token\" : \"tok\" } ";
    assert_eq!(parse_access_token(text), Some("tok".to_string()));
}

#[test]
fn parser_decodes_string_escapes() {
    let text = "{\"access_token\":\"A\\u0042\\\"\\\\\\/\\n\\t\\r\\b\\f\"}";
    assert_eq!(
        parse_access_token(text),
        Some("AB\"\\/\n\t\r\u{8}\u{c}".to_string())
    );
}

#[test]
fn parser_refuses_duplicate_access_token() {
    let text = "{\"access_token\":\"a\",\"access_token\":\"b\"}";
    assert_eq!(parse_access_token(text), None);
}

#[test]
fn parser_refuses_trailing_text() {
    assert_eq!(parse_access_token("{\"access_token\":\"a\"} x"), None);
}

#[test]
fn parser_refuses_nested_values() {
    assert_eq!(parse_access_token("{\"access_token\":\"a\",\"b\":{}}"), None);
    assert_eq!(parse_access_token("{\"access_token\":\"a\",\"b\":[1]}"), None);
}

#[test]
fn parser_refuses_bad_literals_and_controls() {
    assert_eq!(parse_access_token("{\"access_token\":\"a\",\"b\":tru}"), None);
    assert_eq!(parse_access_token("{\"access_token\":\"a\",\"b\":nul}"), None);
    assert_eq!(parse_access_token("{\"access_token\":\"a\tb\"}"), None);
    assert_eq!(parse_access_token("{\"access_token\":\"a\",\"b\":e5}"), None);
}

#[test]
fn parser_accepts_numbers() {
    assert_eq!(
        parse_access_token("{\"n\":-1.5e3,\"access_token\":\"a\",\"m\":0}"),
        Some("a".to_string())
    );
}
