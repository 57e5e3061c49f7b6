use provider_history::error::ProviderError;
use provider_history::ident::{is_safe_storage_id, is_valid_uuid, MAX_STORAGE_ID_LEN};
use provider_history::model::Provider;
use provider_history::vpath::{decode_pair, decode_storage_id, decode_uuid, encode, encode_pair, strip_scheme};

#[test]
fn test_is_valid_uuid() {
    assert!(is_valid_uuid("cffd0fb5-5188-4961-aca8-a1f4e53e6f08"));
    assert!(is_valid_uuid("00000000-0000-0000-0000-000000000000"));
    assert!(!is_valid_uuid(""));
    assert!(!is_valid_uuid("not-a-uuid"));
    assert!(!is_valid_uuid("cffd0fb5_5188_4961_aca8_a1f4e53e6f08"));
    assert!(!is_valid_uuid("cffd0fb5-5188-4961-aca8-a1f4e53e6f0")); // too short
    assert!(!is_valid_uuid("../../../etc/passwd"));
}

#[test]
fn uuid_accepts_upper_case_digits() {
    assert!(is_valid_uuid("CFFD0FB5-5188-4961-ACA8-A1F4E53E6F08"));
}

#[test]
fn uuid_rejects_a_digit_in_place_of_a_hyphen() {
    assert!(!is_valid_uuid("cffd0fb505188-4961-aca8-a1f4e53e6f08"));
    assert!(!is_valid_uuid("cffd0fb5-5188-4961-aca8aa1f4e53e6f08"));
}

#[test]
fn uuid_rejects_a_hyphen_in_place_of_a_digit() {
    assert!(!is_valid_uuid("-ffd0fb5-5188-4961-aca8-a1f4e53e6f08"));
    assert!(!is_valid_uuid("cffd0fb5-5188-4961-aca8-a1f4e53e6f0-"));
}

#[test]
fn uuid_rejects_other_letters_and_longer_text() {
    assert!(!is_valid_uuid("gffd0fb5-5188-4961-aca8-a1f4e53e6f08"));
    assert!(!is_valid_uuid("cffd0fb5-5188-4961-aca8-a1f4e53e6f080"));
    // 36 bytes, but fewer characters
    assert!(!is_valid_uuid("cffd0fb5-5188-4961-aca8-a1f4e53e6fé"));
}

#[test]
fn storage_id_rejects_separators_and_parent() {
    assert!(!is_safe_storage_id("a/b"));
    assert!(!is_safe_storage_id("a\\b"));
    assert!(!is_safe_storage_id(".."));
    assert!(!is_safe_storage_id("a..b"));
    assert!(!is_safe_storage_id("../../../etc/passwd"));
}

#[test]
fn storage_id_accepts_hex_and_hyphens() {
    assert!(is_safe_storage_id("0a1b2c3d4e5f"));
    assert!(is_safe_storage_id("cffd0fb5-5188-4961-aca8-a1f4e53e6f08"));
    assert!(is_safe_storage_id("a"));
}

#[test]
fn storage_id_charset_and_length() {
    assert!(is_safe_storage_id("ses_01ABC.v2"));
    assert!(!is_safe_storage_id(""));
    assert!(!is_safe_storage_id("a b"));
    assert!(!is_safe_storage_id("a:b"));
    assert!(!is_safe_storage_id("caf\u{e9}"));
    assert!(!is_safe_storage_id("a\0b"));
    let longest = "a".repeat(MAX_STORAGE_ID_LEN);
    assert!(is_safe_storage_id(&longest));
    let too_long = "a".repeat(MAX_STORAGE_ID_LEN + 1);
    assert!(!is_safe_storage_id(&too_long));
}

#[test]
fn encode_prefixes_the_provider() {
    assert_eq!(encode(Provider::Cursor, "abc123"), "cursor://abc123");
    assert_eq!(encode(Provider::OpenCode, "alpha"), "opencode://alpha");
    assert_eq!(encode(Provider::Codex, ""), "codex://");
    assert_eq!(encode_pair(Provider::OpenCode, "alpha", "ses_9"), "opencode://alpha/ses_9");
}

#[test]
fn strip_scheme_tolerates_a_bare_id() {
    assert_eq!(strip_scheme(Provider::Cursor, "cursor://abc"), "abc");
    assert_eq!(strip_scheme(Provider::Cursor, "abc"), "abc");
    assert_eq!(strip_scheme(Provider::Cursor, "opencode://abc"), "opencode://abc");
    assert_eq!(strip_scheme(Provider::Cursor, "cursor://cursor://abc"), "cursor://abc");
}

#[test]
fn storage_id_round_trip() {
    let path = encode(Provider::Cursor, "0a1b2c3d4e5f");
    assert_eq!(
        decode_storage_id(Provider::Cursor, &path, "Invalid workspace hash: "),
        Ok("0a1b2c3d4e5f".to_string())
    );
    assert_eq!(
        decode_storage_id(Provider::Cursor, "0a1b2c3d4e5f", "Invalid workspace hash: "),
        Ok("0a1b2c3d4e5f".to_string())
    );
}

#[test]
fn uuid_round_trip() {
    let id = "cffd0fb5-5188-4961-aca8-a1f4e53e6f08";
    let path = encode(Provider::Cursor, id);
    assert_eq!(decode_uuid(Provider::Cursor, &path, "Invalid composer ID: "), Ok(id.to_string()));
}

#[test]
fn pair_round_trip() {
    let path = encode_pair(Provider::OpenCode, "proj-1", "ses_2");
    assert_eq!(
        decode_pair(Provider::OpenCode, &path, "Invalid OpenCode session path: "),
        Ok(("proj-1".to_string(), "ses_2".to_string()))
    );
}

#[test]
fn decoding_rejects_traversal() {
    assert_eq!(
        decode_storage_id(Provider::Cursor, "cursor://../../etc", "Invalid workspace hash: "),
        Err(ProviderError::InvalidIdentifier("Invalid workspace hash: ../../etc".to_string()))
    );
    assert_eq!(
        decode_uuid(Provider::Cursor, "cursor://../../../etc/passwd", "Invalid composer ID: "),
        Err(ProviderError::InvalidIdentifier(
            "Invalid composer ID: ../../../etc/passwd".to_string()
        ))
    );
}

#[test]
fn pair_needs_two_safe_parts() {
    let label = "Invalid OpenCode session path: ";
    assert_eq!(
        decode_pair(Provider::OpenCode, "opencode://only-project", label),
        Err(ProviderError::InvalidIdentifier(
            "Invalid OpenCode session path: opencode://only-project".to_string()
        ))
    );
    assert_eq!(
        decode_pair(Provider::OpenCode, "opencode://p/a/b", label),
        Err(ProviderError::InvalidIdentifier(
            "Invalid OpenCode session path: opencode://p/a/b".to_string()
        ))
    );
    assert_eq!(
        decode_pair(Provider::OpenCode, "opencode://p/..", label),
        Err(ProviderError::InvalidIdentifier(
            "Invalid OpenCode session path: opencode://p/..".to_string()
        ))
    );
    assert_eq!(
        decode_pair(Provider::OpenCode, "opencode:///s", label),
        Err(ProviderError::InvalidIdentifier(
            "Invalid OpenCode session path: opencode:///s".to_string()
        ))
    );
    assert_eq!(
        decode_pair(Provider::OpenCode, "p/s", label),
        Ok(("p".to_string(), "s".to_string()))
    );
}

#[test]
fn provider_tags() {
    assert_eq!(Provider::Cursor.tag(), "cursor");
    assert_eq!(Provider::OpenCode.tag(), "opencode");
    assert_eq!(Provider::Codex.tag(), "codex");
    assert_eq!(Provider::from_tag("cursor"), Some(Provider::Cursor));
    assert_eq!(Provider::from_tag("opencode"), Some(Provider::OpenCode));
    assert_eq!(Provider::from_tag("codex"), Some(Provider::Codex));
    assert_eq!(Provider::from_tag("Cursor"), None);
    assert_eq!(Provider::from_tag(""), None);
}

#[test]
fn error_messages() {
    assert_eq!(ProviderError::NotFound("Cursor not found".to_string()).message(), "Cursor not found");
    assert_eq!(ProviderError::Store("disk I/O error".to_string()).message(), "disk I/O error");
    assert_eq!(ProviderError::Decode("bad".to_string()).message(), "bad");
    assert_eq!(ProviderError::InvalidIdentifier("x".to_string()).message(), "x");
    assert_eq!(ProviderError::UnknownProvider("y".to_string()).message(), "y");
}
