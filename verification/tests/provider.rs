use base64::Engine;
use interlink::common::identity::{IdentityProvider, SpiffeId};
use interlink::identity::provider::{
    account_of_subject, KubernetesIdentityProvider, WorkloadSources,
};

fn token(payload: &str) -> String {
    let payload_b64 = base64::engine::general_purpose::URL_SAFE_NO_PAD.encode(payload);
    format!("header.{}.signature", payload_b64)
}

#[test]
fn test_extract_service_account_from_token() {
    // Build a JWT with payload { "sub": "system:serviceaccount:default:my-sa" }.
    let payload = r#"{"sub":"system:serviceaccount:default:my-sa"}"#;
    let payload_b64 = base64::engine::general_purpose::URL_SAFE_NO_PAD.encode(payload);
    let token = format!("header.{}.signature", payload_b64);

    let sa = KubernetesIdentityProvider::extract_service_account_from_token(&token).unwrap();
    assert_eq!(sa, "my-sa");
}

#[test]
fn test_extract_service_account_malformed_sub() {
    let payload = r#"{"sub":"not-a-serviceaccount-sub"}"#;
    let payload_b64 = base64::engine::general_purpose::URL_SAFE_NO_PAD.encode(payload);
    let token = format!("header.{}.signature", payload_b64);

    assert!(KubernetesIdentityProvider::extract_service_account_from_token(&token).is_none());
}

#[test]
fn a_token_without_a_subject_names_no_account() {
    for token in [
        String::new(),
        "one-part".to_string(),
        "header.***.signature".to_string(),
        token("no json"),
        token("[1]"),
        token("{}"),
        token(r#"{"sub":1}"#),
    ] {
        assert_eq!(
            KubernetesIdentityProvider::extract_service_account_from_token(&token),
            None,
            "{token}"
        );
    }
}

#[test]
fn a_subject_has_four_parts() {
    assert_eq!(account_of_subject("system:serviceaccount:ns:sa").as_deref(), Some("sa"));
    assert_eq!(account_of_subject("system:serviceaccount:ns:").as_deref(), Some(""));
    assert_eq!(account_of_subject("system:serviceaccount:ns"), None);
    assert_eq!(account_of_subject("system:serviceaccount:ns:sa:x"), None);
    assert_eq!(account_of_subject("system:user:ns:sa"), None);
    assert_eq!(account_of_subject("System:serviceaccount:ns:sa"), None);
}

#[test]
fn an_identity_is_taken_from_the_best_source() {
    let provided = |sources: WorkloadSources| {
        KubernetesIdentityProvider::new("td.local", sources).map(|p| p.get_identity().unwrap())
    };
    let error = |sources: WorkloadSources| provided(sources).unwrap_err().message();
    let full = WorkloadSources {
        identity: Some("spiffe://configured/ns/a/sa/b".into()),
        namespace_file: Some("  file-ns\n".into()),
        kubernetes_namespace: Some("k8s-ns".into()),
        pod_namespace: Some("pod-ns".into()),
        token_file: Some(format!("{}\n", token(r#"{"sub":"system:serviceaccount:x:token-sa"}"#))),
        service_account: Some("env-sa".into()),
    };
    assert_eq!(provided(full.clone()).unwrap(), SpiffeId::new("configured", "a", "b"));
    let without = WorkloadSources { identity: Some("not valid".into()), ..full.clone() };
    assert_eq!(provided(without.clone()).unwrap(), SpiffeId::new("td.local", "file-ns", "token-sa"));
    let without = WorkloadSources { namespace_file: Some(" \n".into()), ..without };
    assert_eq!(provided(without.clone()).unwrap(), SpiffeId::new("td.local", "k8s-ns", "token-sa"));
    let without = WorkloadSources { kubernetes_namespace: None, token_file: None, ..without };
    assert_eq!(provided(without.clone()).unwrap(), SpiffeId::new("td.local", "pod-ns", "env-sa"));
    assert_eq!(
        error(WorkloadSources { service_account: None, ..without.clone() }),
        "Identity error: could not determine Kubernetes service account"
    );
    assert_eq!(
        error(WorkloadSources { pod_namespace: None, ..without.clone() }),
        "Identity error: could not determine Kubernetes namespace"
    );
    assert_eq!(
        error(WorkloadSources { service_account: Some(String::new()), ..without }),
        "Identity error: service account must not be empty"
    );
    let provider = KubernetesIdentityProvider::new("td.local", full).unwrap();
    assert_eq!(provider.get_trust_domain().name, "td.local");
    assert!(provider.get_trust_domain().ca_certs.is_empty());
}
