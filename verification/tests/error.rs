use kubernetes_auth::error::{access_denied, unauthorized, AuthError};

fn reported(error: AuthError<&'static str>) -> (u16, String) {
    let error = error.into_error().unwrap();
    (error.status().as_u16(), error.to_string())
}

#[test]
fn unauthorized_names_the_credentials() {
    let error = unauthorized();
    assert_eq!(error.status().as_u16(), 401);
    assert_eq!(
        error.to_string(),
        "Unauthorized: provide a valid Bearer token or client certificate"
    );
}

#[test]
fn access_denied_names_the_target() {
    let error = access_denied("prod");
    assert_eq!(error.status().as_u16(), 403);
    assert_eq!(error.to_string(), "Access denied to target: prod");
}

#[test]
fn errors_are_reported() {
    assert_eq!(
        reported(AuthError::Unauthorized),
        (401, "Unauthorized: provide a valid Bearer token or client certificate".to_string())
    );
    assert_eq!(
        reported(AuthError::AccessDenied { target_name: "prod".to_string() }),
        (403, "Access denied to target: prod".to_string())
    );
    assert_eq!(
        reported(AuthError::TargetNotFound { target_name: "prod".to_string() }),
        (404, "Kubernetes target not found: prod".to_string())
    );
    assert_eq!(
        reported(AuthError::SsoResolution { reason: "down".to_string() }),
        (500, "SSO user resolution failed: down".to_string())
    );
    assert_eq!(
        reported(AuthError::UserNotFound { username: "bob".to_string() }),
        (401, "User not found after SSO resolution: bob".to_string())
    );
    assert_eq!(
        reported(AuthError::UserConversion { reason: "bad json".to_string() }),
        (500, "Failed to convert user model: bad json".to_string())
    );
    assert_eq!(
        reported(AuthError::CertificateValidation { reason: "db".to_string() }),
        (500, "Client certificate validation failed: db".to_string())
    );
}

#[test]
fn faults_of_the_gateway_report_themselves() {
    assert!(matches!(AuthError::Backend("db").into_error(), Err("db")));
}
