use base64::Engine;
use user_auth::basic_auth::{extract_basic_credentials, split_first_colon, MalformedRequest};

fn basic(payload: &[u8]) -> String {
    format!("Basic {}", base64::engine::general_purpose::STANDARD.encode(payload))
}

#[test]
fn extracts_identifier_and_secret() {
    let header = basic(b"alice@example.com:secret123");
    let c = extract_basic_credentials(Some(&header)).unwrap();
    assert_eq!(c.identifier, "alice@example.com");
    assert_eq!(c.secret, "secret123");
}

#[test]
fn bearer_scheme_is_malformed() {
    assert_eq!(extract_basic_credentials(Some("Bearer xyz")), Err(MalformedRequest));
}

#[test]
fn payload_without_colon_is_malformed() {
    let header = basic(b"nocolon");
    assert_eq!(extract_basic_credentials(Some(&header)), Err(MalformedRequest));
}

#[test]
fn absent_header_is_malformed() {
    assert_eq!(extract_basic_credentials(None), Err(MalformedRequest));
}

#[test]
fn scheme_is_case_sensitive() {
    let header = format!(
        "basic {}",
        base64::engine::general_purpose::STANDARD.encode(b"a:b")
    );
    assert_eq!(extract_basic_credentials(Some(&header)), Err(MalformedRequest));
    assert_eq!(extract_basic_credentials(Some("Basic")), Err(MalformedRequest));
    assert_eq!(extract_basic_credentials(Some("")), Err(MalformedRequest));
}

#[test]
fn invalid_base64_is_malformed() {
    assert_eq!(extract_basic_credentials(Some("Basic !!!not-base64")), Err(MalformedRequest));
    assert_eq!(extract_basic_credentials(Some("Basic YWJj\u{e9}")), Err(MalformedRequest));
}

#[test]
fn non_utf8_payload_is_malformed() {
    let header = basic(&[0x61, 0x3a, 0xff, 0xfe]);
    assert_eq!(extract_basic_credentials(Some(&header)), Err(MalformedRequest));
}

#[test]
fn splits_at_first_colon_only() {
    let header = basic(b"bob:pa:ss:word");
    let c = extract_basic_credentials(Some(&header)).unwrap();
    assert_eq!(c.identifier, "bob");
    assert_eq!(c.secret, "pa:ss:word");
}

#[test]
fn empty_identifier_and_secret_are_kept() {
    let header = basic(b":");
    let c = extract_basic_credentials(Some(&header)).unwrap();
    assert_eq!(c.identifier, "");
    assert_eq!(c.secret, "");
}

#[test]
fn no_trimming_or_case_folding() {
    let header = basic(" Alice@Example.COM : Secret ".as_bytes());
    let c = extract_basic_credentials(Some(&header)).unwrap();
    assert_eq!(c.identifier, " Alice@Example.COM ");
    assert_eq!(c.secret, " Secret ");
}

#[test]
fn non_ascii_credentials() {
    let header = basic("jürgen:pässwörd".as_bytes());
    let c = extract_basic_credentials(Some(&header)).unwrap();
    assert_eq!(c.identifier, "jürgen");
    assert_eq!(c.secret, "pässwörd");
}

#[test]
fn split_first_colon_cases() {
    let c = split_first_colon("x:y").unwrap();
    assert_eq!((c.identifier.as_str(), c.secret.as_str()), ("x", "y"));
    assert!(split_first_colon("").is_none());
    assert!(split_first_colon("xy").is_none());
    let c = split_first_colon(":tail:").unwrap();
    assert_eq!((c.identifier.as_str(), c.secret.as_str()), ("", "tail:"));
}
