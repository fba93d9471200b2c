use kubernetes_auth::client::{
    authenticated_client, combine_pem, create_authenticated_client, ClientAction, ClientCredential,
    ClientError, ClientEvent, ClientSetup, ClientStep, EksClusterInfo, KubernetesTargetAuth,
    TargetKubernetesOptions, TlsOptions,
};

type Built = Result<reqwest::ClientBuilder, ClientError<&'static str>>;

const VERIFY: TlsOptions = TlsOptions { verify: true };

fn options(auth: KubernetesTargetAuth) -> TargetKubernetesOptions {
    TargetKubernetesOptions { cluster_url: "https://k8s".to_string(), tls: VERIFY, auth }
}

fn section(label: &str) -> String {
    format!("-----BEGIN {label}-----\nAAAA\n-----END {label}-----\n\n")
}

fn certificate() -> ClientCredential {
    ClientCredential::Certificate {
        certificate: section("CERTIFICATE"),
        private_key: section("PRIVATE KEY"),
    }
}

#[test]
fn token_goes_into_the_authorization_header() {
    let built: Built = authenticated_client(VERIFY, &ClientCredential::Token("abc".to_string()));
    let shown = format!("{:?}", built.unwrap());
    assert!(shown.contains("\"authorization\": \"Bearer abc\""), "{shown}");
    assert!(shown.contains("\"accept\": \"*/*\""), "{shown}");
    assert!(!shown.contains("danger_accept_invalid_certs"), "{shown}");
}

#[test]
fn eks_token_goes_into_the_authorization_header() {
    let built: Built = authenticated_client(VERIFY, &ClientCredential::EksToken("k8s-aws".to_string()));
    assert!(format!("{:?}", built.unwrap()).contains("\"authorization\": \"Bearer k8s-aws\""));
}

#[test]
fn verification_is_skipped_only_on_demand() {
    let lax = TlsOptions { verify: false };
    let built: Built = authenticated_client(lax, &ClientCredential::Token("abc".to_string()));
    let shown = format!("{:?}", built.unwrap());
    assert!(shown.contains("danger_accept_invalid_certs: true"), "{shown}");
    assert!(shown.contains("\"authorization\": \"Bearer abc\""), "{shown}");
}

#[test]
fn token_that_is_no_header_value_is_refused() {
    let token: Built = authenticated_client(VERIFY, &ClientCredential::Token("a\nb".to_string()));
    let error = token.unwrap_err();
    assert!(matches!(error, ClientError::AuthorizationHeader(_)));
    assert_eq!(error.context(), Some("setting Authorization header"));
    let token: Built = authenticated_client(VERIFY, &ClientCredential::EksToken("\u{7f}".to_string()));
    let error = token.unwrap_err();
    assert!(matches!(error, ClientError::EksAuthorizationHeader(_)));
    assert_eq!(error.context(), Some("setting Authorization header for EKS token"));
    // Bytes beyond ASCII may stand in a header.
    let token: Built = authenticated_client(VERIFY, &ClientCredential::Token("\u{e9}".to_string()));
    assert!(token.is_ok());
}

#[test]
fn certificate_is_presented_as_identity() {
    let built: Built = authenticated_client(VERIFY, &certificate());
    let builder = built.unwrap();
    assert!(!format!("{builder:?}").contains("\"authorization\":"));
    // The identity is well-formed PEM around a key that is none: the client cannot be built with
    // it, while it can be built without.
    assert!(builder.build().is_err());
    let plain: Built = authenticated_client(VERIFY, &ClientCredential::Token("abc".to_string()));
    assert!(plain.unwrap().build().is_ok());
}

#[test]
fn bundle_without_key_is_refused() {
    let credential = ClientCredential::Certificate {
        certificate: section("CERTIFICATE"),
        private_key: "no key".to_string(),
    };
    let built: Built = authenticated_client(VERIFY, &credential);
    let error = built.unwrap_err();
    assert!(matches!(error, ClientError::ClientCertificate(_)));
    assert_eq!(error.context(), Some("Invalid client certificate/key for Kubernetes upstream"));
}

#[test]
fn bundle_has_one_line_feed_after_each_part() {
    assert_eq!(combine_pem("cert\n\n\n", "key"), "cert\nkey\n");
    assert_eq!(combine_pem("cert", "key\n"), "cert\nkey\n");
    assert_eq!(combine_pem("a\r\n", "\n"), "a\r\n\n");
}

#[test]
fn token_target_reveals_its_token() {
    let options = options(KubernetesTargetAuth::Token);
    let setup: ClientSetup<'_, &'static str> = create_authenticated_client(&options);
    assert!(matches!(setup.pending(), ClientAction::RevealToken));
    match setup.resume(ClientEvent::Revealed(Ok("abc".to_string()))).step {
        ClientStep::Done(Ok(ClientCredential::Token(token))) => assert_eq!(token, "abc"),
        other => panic!("{other:?}"),
    }
    let setup: ClientSetup<'_, &'static str> = create_authenticated_client(&options);
    match setup.resume(ClientEvent::Revealed(Err("sealed"))).step {
        ClientStep::Done(Err(error)) => {
            assert!(matches!(error, ClientError::Reveal("sealed")));
            assert_eq!(error.context(), None);
        }
        other => panic!("{other:?}"),
    }
}

#[test]
fn certificate_target_reveals_its_key() {
    let options = options(KubernetesTargetAuth::Certificate { certificate: "cert".to_string() });
    let setup: ClientSetup<'_, &'static str> = create_authenticated_client(&options);
    assert!(matches!(setup.pending(), ClientAction::RevealPrivateKey));
    match setup.resume(ClientEvent::Revealed(Ok("key".to_string()))).step {
        ClientStep::Done(Ok(ClientCredential::Certificate { certificate, private_key })) => {
            assert_eq!((certificate.as_str(), private_key.as_str()), ("cert", "key"));
        }
        other => panic!("{other:?}"),
    }
}

#[test]
fn role_target_generates_a_token_for_its_cluster() {
    let options = options(KubernetesTargetAuth::IamRole);
    let setup: ClientSetup<'_, &'static str> = create_authenticated_client(&options);
    assert!(matches!(setup.pending(), ClientAction::FindEksCluster(url) if url == "https://k8s"));
    let cluster = EksClusterInfo { name: "prod".to_string(), region: "eu-west-1".to_string() };
    let setup = setup.resume(ClientEvent::EksCluster(Ok(cluster)));
    match setup.pending() {
        ClientAction::GenerateEksToken(cluster) => {
            assert_eq!((cluster.name.as_str(), cluster.region.as_str()), ("prod", "eu-west-1"));
        }
        other => panic!("{other:?}"),
    }
    match setup.resume(ClientEvent::EksToken(Ok("k8s-aws".to_string()))).step {
        ClientStep::Done(Ok(ClientCredential::EksToken(token))) => assert_eq!(token, "k8s-aws"),
        other => panic!("{other:?}"),
    }
}

#[test]
fn role_target_faults_say_what_was_done() {
    let options = options(KubernetesTargetAuth::IamRole);
    let lookup: ClientSetup<'_, &'static str> = create_authenticated_client(&options);
    match lookup.resume(ClientEvent::EksCluster(Err("aws"))).step {
        ClientStep::Done(Err(error)) => {
            assert!(matches!(error, ClientError::ClusterLookup("aws")));
            assert_eq!(error.context(), Some("EKS cluster lookup"));
        }
        other => panic!("{other:?}"),
    }
    let cluster = EksClusterInfo { name: String::new(), region: String::new() };
    let token: ClientSetup<'_, &'static str> = create_authenticated_client(&options);
    let token = token.resume(ClientEvent::EksCluster(Ok(cluster)));
    match token.resume(ClientEvent::EksToken(Err("aws"))).step {
        ClientStep::Done(Err(error)) => {
            assert!(matches!(error, ClientError::TokenGeneration("aws")));
            assert_eq!(error.context(), Some("EKS token generation"));
        }
        other => panic!("{other:?}"),
    }
}

#[test]
fn unexpected_client_answer_is_an_error() {
    let options = options(KubernetesTargetAuth::Token);
    let setup: ClientSetup<'_, &'static str> = create_authenticated_client(&options);
    match setup.resume(ClientEvent::EksToken(Ok("abc".to_string()))).step {
        ClientStep::Done(Err(error)) => {
            assert!(matches!(error, ClientError::UnexpectedAnswer));
            assert_eq!(error.context(), None);
        }
        other => panic!("{other:?}"),
    }
}

#[test]
fn prepared_client_follows_the_target() {
    let options = TargetKubernetesOptions {
        cluster_url: "https://k8s".to_string(),
        tls: TlsOptions { verify: false },
        auth: KubernetesTargetAuth::Token,
    };
    let setup: ClientSetup<'_, &'static str> = create_authenticated_client(&options);
    let setup = setup.resume(ClientEvent::Revealed(Ok("abc".to_string())));
    let shown = format!("{:?}", setup.into_client().unwrap());
    assert!(shown.contains("danger_accept_invalid_certs: true"), "{shown}");
    assert!(shown.contains("\"authorization\": \"Bearer abc\""), "{shown}");
}

#[test]
fn client_is_not_made_before_its_time() {
    let options = options(KubernetesTargetAuth::Token);
    let early: ClientSetup<'_, &'static str> = create_authenticated_client(&options);
    assert!(matches!(early.into_client(), Err(ClientError::UnexpectedAnswer)));
    let failed: ClientSetup<'_, &'static str> = create_authenticated_client(&options);
    let failed = failed.resume(ClientEvent::Revealed(Err("sealed")));
    assert!(matches!(failed.into_client(), Err(ClientError::Reveal("sealed"))));
}
