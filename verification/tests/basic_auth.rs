use base64::Engine;
use server_scaffold::newsletter::{basic_authentication, BasicAuthError, PublishError};

#[test]
fn decodes_well_formed_basic_credentials() {
    // "user:pass" in base64; the username and password must come back
    // decoded, which fails if the decoding stage hands its input through.
    let creds = basic_authentication(Some("Basic dXNlcjpwYXNz")).unwrap();
    assert_eq!(creds.username, "user");
    assert_eq!(creds.password, "pass");
}

#[test]
fn splits_at_the_first_colon_only() {
    let header = format!(
        "Basic {}",
        base64::engine::general_purpose::STANDARD.encode("alice:p:ss:word")
    );
    let creds = basic_authentication(Some(&header)).unwrap();
    assert_eq!(creds.username, "alice");
    assert_eq!(creds.password, "p:ss:word");
}

#[test]
fn accepts_an_empty_password() {
    let header = format!("Basic {}", base64::engine::general_purpose::STANDARD.encode("alice:"));
    let creds = basic_authentication(Some(&header)).unwrap();
    assert_eq!(creds.username, "alice");
    assert_eq!(creds.password, "");
}

#[test]
fn rejects_a_missing_header() {
    assert_eq!(basic_authentication(None).unwrap_err(), BasicAuthError::MissingHeader);
}

#[test]
fn rejects_non_basic_schemes() {
    assert_eq!(
        basic_authentication(Some("Bearer abcdef")).unwrap_err(),
        BasicAuthError::NotBasicScheme
    );
    assert_eq!(basic_authentication(Some("Basic")).unwrap_err(), BasicAuthError::NotBasicScheme);
}

#[test]
fn rejects_malformed_base64() {
    assert_eq!(
        basic_authentication(Some("Basic !!!not-base64!!!")).unwrap_err(),
        BasicAuthError::InvalidBase64
    );
}

#[test]
fn rejects_credentials_that_are_not_utf8() {
    let header = format!(
        "Basic {}",
        base64::engine::general_purpose::STANDARD.encode([0xffu8, 0xfe, 0xfd])
    );
    assert_eq!(basic_authentication(Some(&header)).unwrap_err(), BasicAuthError::InvalidUtf8);
}

#[test]
fn rejects_credentials_without_a_password() {
    let header = format!("Basic {}", base64::engine::general_purpose::STANDARD.encode("alice"));
    assert_eq!(basic_authentication(Some(&header)).unwrap_err(), BasicAuthError::MissingPassword);
}

#[test]
fn auth_failures_challenge_and_other_failures_are_500() {
    let challenge = PublishError::AuthError("bad credentials".to_string()).error_response();
    assert_eq!(challenge.status_code, 401);
    assert_eq!(
        challenge.headers,
        vec![("WWW-Authenticate".to_string(), "Basic realm=\"publish\"".to_string())]
    );
    assert_eq!(challenge.body, "");

    let other = PublishError::UnexpectedError("database gone".to_string()).error_response();
    assert_eq!(other.status_code, 500);
    assert!(other.headers.is_empty());
}
