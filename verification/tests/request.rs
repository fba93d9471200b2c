use kubernetes_auth::request::{presented_credential_kind, RequestCredentials};

fn request(authorization: Option<&[u8]>, certificate: bool) -> RequestCredentials {
    RequestCredentials {
        authorization: authorization.map(|value| value.to_vec()),
        client_certificate: if certificate { Some(vec![1]) } else { None },
    }
}

#[test]
fn bearer_token_is_the_rest_of_the_header() {
    assert_eq!(request(Some(b"Bearer abc"), false).bearer_token(), Some("abc".to_string()));
    assert_eq!(request(Some(b"Bearer "), false).bearer_token(), Some(String::new()));
    assert_eq!(request(Some(b"Bearer  a b\t"), false).bearer_token(), Some(" a b\t".to_string()));
    assert_eq!(
        request(Some(b"Bearer Bearer x"), false).bearer_token(),
        Some("Bearer x".to_string())
    );
}

#[test]
fn other_headers_hold_no_bearer_token() {
    assert_eq!(request(None, false).bearer_token(), None);
    assert_eq!(request(Some(b""), false).bearer_token(), None);
    assert_eq!(request(Some(b"Bearer"), false).bearer_token(), None);
    assert_eq!(request(Some(b"bearer abc"), false).bearer_token(), None);
    assert_eq!(request(Some(b"Basic abc"), false).bearer_token(), None);
    // Not visible ASCII.
    assert_eq!(request(Some(b"Bearer \xc3\xa9"), false).bearer_token(), None);
    assert_eq!(request(Some(b"Bearer a\nb"), false).bearer_token(), None);
    assert_eq!(request(Some(b"Bearer a\x7f"), false).bearer_token(), None);
}

#[test]
fn token_comes_before_certificate() {
    assert_eq!(presented_credential_kind(&request(Some(b"Bearer x"), true)), Some("token"));
    assert_eq!(presented_credential_kind(&request(Some(b"Bearer x"), false)), Some("token"));
    assert_eq!(presented_credential_kind(&request(Some(b"Basic x"), true)), Some("certificate"));
    assert_eq!(presented_credential_kind(&request(None, true)), Some("certificate"));
    assert_eq!(presented_credential_kind(&request(Some(b"Basic x"), false)), None);
    assert_eq!(presented_credential_kind(&request(None, false)), None);
}
