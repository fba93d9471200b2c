use kubernetes_auth::pem::{der_to_pem, normalize_certificate_pem};

#[test]
fn empty_certificate_has_an_empty_line() {
    assert_eq!(der_to_pem(&[]), "-----BEGIN CERTIFICATE-----\n\n-----END CERTIFICATE-----");
}

#[test]
fn short_certificate_is_one_padded_line() {
    assert_eq!(
        der_to_pem(b"hello"),
        "-----BEGIN CERTIFICATE-----\naGVsbG8=\n-----END CERTIFICATE-----"
    );
    assert_eq!(der_to_pem(&[0]), "-----BEGIN CERTIFICATE-----\nAA==\n-----END CERTIFICATE-----");
    assert_eq!(
        der_to_pem(&[0xfb, 0xff, 0xff]),
        "-----BEGIN CERTIFICATE-----\n+///\n-----END CERTIFICATE-----"
    );
}

#[test]
fn lines_have_sixty_four_characters() {
    // 48 bytes are 64 characters, one full line and nothing after it.
    let full = format!(
        "-----BEGIN CERTIFICATE-----\n{}\n-----END CERTIFICATE-----",
        "A".repeat(64)
    );
    assert_eq!(der_to_pem(&[0; 48]), full);
    let longer = format!(
        "-----BEGIN CERTIFICATE-----\n{}\nAA==\n-----END CERTIFICATE-----",
        "A".repeat(64)
    );
    assert_eq!(der_to_pem(&[0; 49]), longer);
    let twice = format!(
        "-----BEGIN CERTIFICATE-----\n{}\n{}\n-----END CERTIFICATE-----",
        "A".repeat(64),
        "A".repeat(64)
    );
    assert_eq!(der_to_pem(&[0; 96]), twice);
}

#[test]
fn normal_form_of_pem_is_base64() {
    assert_eq!(normalize_certificate_pem(&der_to_pem(b"hello")), "aGVsbG8=");
    assert_eq!(normalize_certificate_pem(&der_to_pem(&[0; 49])), format!("{}AA==", "A".repeat(64)));
}

#[test]
fn normal_form_ignores_line_ends_and_white_space() {
    let pem = der_to_pem(&[7; 100]);
    let crlf = pem.replace('\n', "\r\n");
    assert_ne!(pem, crlf);
    assert_eq!(normalize_certificate_pem(&pem), normalize_certificate_pem(&crlf));
    assert_eq!(normalize_certificate_pem("  aG\tVs\u{a0}bG8=\u{3000} \n\n"), "aGVsbG8=");
    assert_eq!(normalize_certificate_pem(&format!("\n{pem}\n")), normalize_certificate_pem(&pem));
}

#[test]
fn normal_form_drops_boundary_lines_only() {
    assert_eq!(normalize_certificate_pem("-----X\nabc\n-----Y"), "abc");
    assert_eq!(normalize_certificate_pem("----X\n -----Y"), "----X-----Y");
    assert_eq!(normalize_certificate_pem(""), "");
    assert_eq!(normalize_certificate_pem("-----"), "");
    // A lone carriage return does not end a line.
    assert_eq!(normalize_certificate_pem("a\r-----b"), "a-----b");
}

#[test]
fn normal_form_separates_certificates() {
    let a = normalize_certificate_pem(&der_to_pem(&[0]));
    let b = normalize_certificate_pem(&der_to_pem(&[0, 0]));
    assert_ne!(a, b);
}
