use base64::Engine;
use sha2::Digest;

use account_setup::flow::{Flow, FlowError, ListenFailure};
use account_setup::pkce::{token_chars, PkceMaterial};
use account_setup::redirect::{parse_redirect_target, RedirectResult};
use account_setup::store::SecretDescriptor;
use account_setup::store::SecretError;
use account_setup::urls::{OAuth2Endpoint, OAuth2Method};
use account_setup::wizard::{
    add_scope, build_smtp_config, default_port, persist_tokens, require_confirmation,
    require_selection, secret_key, AuthConfig, Protocol, TokenStoreBackend,
};

fn test_endpoint(pkce: bool) -> OAuth2Endpoint {
    OAuth2Endpoint {
        client_id: "cid".to_string(),
        client_secret: "sec".to_string(),
        authorization_url: "https://auth.example/authorize".to_string(),
        token_url: "https://auth.example/token".to_string(),
        redirect_host: "localhost".to_string(),
        redirect_port: 9090,
        scopes: vec!["mail.send".to_string(), "openid".to_string()],
        pkce_enabled: pkce,
        method: OAuth2Method::XOAuth2,
    }
}

fn is_url_safe(c: char) -> bool {
    c.is_ascii_alphanumeric() || c == '-' || c == '_'
}

#[test]
fn pkce_challenge_is_sha256_base64url_of_verifier() {
    let m = PkceMaterial::generate().unwrap();
    assert!(m.verifier.len() >= 43 && m.verifier.len() <= 128);
    assert_eq!(m.verifier.len(), 43);
    assert!(m.verifier.chars().all(is_url_safe));
    let digest = sha2::Sha256::digest(m.verifier.as_bytes());
    let expected = base64::engine::general_purpose::URL_SAFE_NO_PAD.encode(digest);
    assert_eq!(m.challenge, expected);
}

#[test]
fn pkce_verifiers_are_fresh_across_attempts() {
    let mut seen: Vec<String> = Vec::new();
    for _ in 0..64 {
        let m = PkceMaterial::generate().unwrap();
        assert!(!seen.contains(&m.verifier), "verifier repeated");
        seen.push(m.verifier);
    }
}

#[test]
fn csrf_mismatch_is_rejected() {
    let (mut flow, _url) = Flow::start(test_endpoint(true)).unwrap();
    let mut tampered = flow.csrf.clone();
    // change the last character by even one
    let last = tampered.pop().unwrap();
    tampered.push(if last == 'A' { 'B' } else { 'A' });
    let r = RedirectResult::Success {
        code: "abc".to_string(),
        state: tampered,
    };
    let res = flow.on_redirect(&r);
    assert!(matches!(res, Err(FlowError::CsrfMismatch)));
}

#[test]
fn matching_csrf_reaches_the_exchange() {
    let (mut flow, _url) = Flow::start(test_endpoint(false)).unwrap();
    let r = RedirectResult::Success {
        code: "abc".to_string(),
        state: flow.csrf.clone(),
    };
    let req = flow.on_redirect(&r).unwrap();
    assert_eq!(req.token_url, "https://auth.example/token");
    assert_eq!(
        req.body,
        "grant_type=authorization_code&code=abc\
         &redirect_uri=http%3A%2F%2Flocalhost%3A9090\
         &client_id=cid&client_secret=sec"
    );
}

#[test]
fn denial_fails_with_the_providers_reason() {
    let (mut flow, _url) = Flow::start(test_endpoint(true)).unwrap();
    let r = RedirectResult::Denied {
        error: "access_denied".to_string(),
        error_description: Some("the user said no".to_string()),
    };
    match flow.on_redirect(&r) {
        Err(FlowError::AuthorizationDenied { reason }) => assert_eq!(reason, "access_denied"),
        other => panic!("unexpected result: {:?}", other.is_ok()),
    }
}

#[test]
fn listener_failures_map_to_flow_errors() {
    let (mut flow, _url) = Flow::start(test_endpoint(false)).unwrap();
    assert!(matches!(
        flow.on_listener_failure(ListenFailure::Bind),
        FlowError::BindError
    ));
    let (mut flow, _url) = Flow::start(test_endpoint(false)).unwrap();
    assert!(matches!(
        flow.on_listener_failure(ListenFailure::Timeout),
        FlowError::RedirectTimeout
    ));
    let (mut flow, _url) = Flow::start(test_endpoint(false)).unwrap();
    assert!(matches!(
        flow.on_listener_failure(ListenFailure::Aborted),
        FlowError::UserAborted
    ));
}

#[test]
fn authorization_url_without_pkce_has_exact_shape() {
    let (flow, url) = Flow::start(test_endpoint(false)).unwrap();
    let expected = format!(
        "https://auth.example/authorize?response_type=code&client_id=cid\
         &redirect_uri=http%3A%2F%2Flocalhost%3A9090\
         &scope=mail.send%20openid&state={}",
        flow.csrf
    );
    assert_eq!(url, expected);
    assert!(!url.contains("code_challenge"));
}

#[test]
fn pkce_off_omits_challenge_and_verifier() {
    let (mut flow, url) = Flow::start(test_endpoint(false)).unwrap();
    assert!(!url.contains("code_challenge"));
    assert!(!url.contains("code_challenge_method"));
    let r = RedirectResult::Success {
        code: "abc".to_string(),
        state: flow.csrf.clone(),
    };
    let req = flow.on_redirect(&r).unwrap();
    assert!(!req.body.contains("code_verifier"));
}

#[test]
fn pkce_on_carries_challenge_and_verifier() {
    let (mut flow, url) = Flow::start(test_endpoint(true)).unwrap();
    let challenge = flow.pkce.as_ref().unwrap().challenge.clone();
    let verifier = flow.pkce.as_ref().unwrap().verifier.clone();
    assert!(url.contains(&format!("&code_challenge={}", challenge)));
    assert!(url.ends_with("&code_challenge_method=S256"));
    let r = RedirectResult::Success {
        code: "abc".to_string(),
        state: flow.csrf.clone(),
    };
    let req = flow.on_redirect(&r).unwrap();
    assert!(req.body.ends_with(&format!("&code_verifier={}", verifier)));
    assert!(!req.body.contains(&challenge));
}

#[test]
fn round_trip_persists_both_tokens() {
    let (mut flow, _url) = Flow::start(test_endpoint(true)).unwrap();
    let target = format!("/?code=thecode&state={}", flow.csrf);
    let redirect = parse_redirect_target(&target).unwrap();
    let _req = flow.on_redirect(&redirect).unwrap();
    let body = "{\"access_token\":\"A\", \"refresh_token\":\"R\"}";
    let pair = flow.on_token_response(body).unwrap();
    assert_eq!(pair.access_token, "A");
    assert_eq!(pair.refresh_token.as_deref(), Some("R"));
    let (access, refresh) = persist_tokens(TokenStoreBackend::Raw, "work", "smtp", &pair).unwrap();
    assert_eq!(access.key, "work-smtp-oauth2-access-token");
    assert_eq!(access.descriptor.resolve().unwrap(), "A");
    let refresh = refresh.unwrap();
    assert_eq!(refresh.key, "work-smtp-oauth2-refresh-token");
    assert_eq!(refresh.descriptor.resolve().unwrap(), "R");
}

#[test]
fn exchange_rejects_a_malformed_response() {
    let (mut flow, _url) = Flow::start(test_endpoint(false)).unwrap();
    let r = RedirectResult::Success {
        code: "abc".to_string(),
        state: flow.csrf.clone(),
    };
    let _req = flow.on_redirect(&r).unwrap();
    let res = flow.on_token_response("{\"token_type\":\"Bearer\"}");
    assert!(matches!(res, Err(FlowError::TokenExchangeError { .. })));
}

#[test]
fn starttls_defaults_to_port_587() {
    let auth = AuthConfig::PasswordAuth {
        passwd: SecretDescriptor::Raw {
            value: "pw".to_string(),
        },
    };
    let cfg = build_smtp_config(
        "smtp.example".to_string(),
        Protocol::StartTls,
        None,
        "user@example".to_string(),
        auth,
    );
    assert_eq!(cfg.port, 587);
    assert_eq!(cfg.starttls, Some(true));
    assert_eq!(cfg.ssl, None);
}

#[test]
fn protocol_default_ports() {
    assert_eq!(default_port(Protocol::SslTls), 465);
    assert_eq!(default_port(Protocol::StartTls), 587);
    assert_eq!(default_port(Protocol::Plain), 25);
    let auth = AuthConfig::PasswordAuth {
        passwd: SecretDescriptor::Raw {
            value: "pw".to_string(),
        },
    };
    let cfg = build_smtp_config(
        "smtp.example".to_string(),
        Protocol::SslTls,
        Some(2525),
        "u".to_string(),
        auth,
    );
    assert_eq!(cfg.port, 2525);
    assert_eq!(cfg.ssl, Some(true));
    assert_eq!(cfg.starttls, None);
}

#[test]
fn command_secret_resolves_with_newline_trimmed() {
    let d = SecretDescriptor::Command {
        shell: "echo hunter2".to_string(),
    };
    assert_eq!(d.resolve().unwrap(), "hunter2");
}

#[test]
fn failing_command_reports_its_exit_code() {
    let d = SecretDescriptor::Command {
        shell: "exit 3".to_string(),
    };
    match d.resolve() {
        Err(SecretError::CommandFailed { exit_code }) => assert_eq!(exit_code, Some(3)),
        _ => panic!("expected CommandFailed"),
    }
}

#[test]
fn raw_secret_resolves_to_its_value() {
    let d = SecretDescriptor::Raw {
        value: "s3cret".to_string(),
    };
    assert_eq!(d.resolve().unwrap(), "s3cret");
}

#[test]
fn secret_keys_follow_the_naming_convention() {
    assert_eq!(secret_key("work", "smtp", "passwd"), "work-smtp-passwd");
    assert_eq!(
        secret_key("home", "smtp", "oauth2-access-token"),
        "home-smtp-oauth2-access-token"
    );
}

#[test]
fn scopes_accumulate_in_order() {
    let mut scopes = vec!["mail.send".to_string()];
    add_scope(&mut scopes, "openid".to_string());
    add_scope(&mut scopes, "profile".to_string());
    assert_eq!(scopes, vec!["mail.send", "openid", "profile"]);
}

#[test]
fn failed_exchange_surfaces_the_providers_error_code() {
    let (mut flow, _url) = Flow::start(test_endpoint(false)).unwrap();
    let r = RedirectResult::Success {
        code: "abc".to_string(),
        state: flow.csrf.clone(),
    };
    let _req = flow.on_redirect(&r).unwrap();
    match flow.on_token_response("{\"error\":\"invalid_grant\"}") {
        Err(FlowError::TokenExchangeError { cause }) => assert_eq!(cause, "invalid_grant"),
        _ => panic!("expected TokenExchangeError"),
    }
    let (mut flow, _url) = Flow::start(test_endpoint(false)).unwrap();
    let r = RedirectResult::Success {
        code: "abc".to_string(),
        state: flow.csrf.clone(),
    };
    let _req = flow.on_redirect(&r).unwrap();
    match flow.on_token_response("not json at all") {
        Err(FlowError::TokenExchangeError { cause }) => {
            assert_eq!(cause, "malformed token response")
        }
        _ => panic!("expected TokenExchangeError"),
    }
}

#[test]
fn exchange_network_failure_fails_the_attempt() {
    let (mut flow, _url) = Flow::start(test_endpoint(false)).unwrap();
    let r = RedirectResult::Success {
        code: "abc".to_string(),
        state: flow.csrf.clone(),
    };
    let _req = flow.on_redirect(&r).unwrap();
    match flow.on_exchange_failure("connection refused".to_string()) {
        FlowError::TokenExchangeError { cause } => assert_eq!(cause, "connection refused"),
        _ => panic!("expected TokenExchangeError"),
    }
}

#[test]
fn token_characters_follow_the_alphabet_mapping() {
    let bytes = vec![0u8, 25, 26, 51, 52, 61, 62, 63, 64, 255];
    let chars = token_chars(&bytes);
    assert_eq!(
        chars,
        vec!['A', 'Z', 'a', 'z', '0', '9', '-', '_', 'A', '_']
    );
}

#[test]
fn cancelled_prompts_abort_the_wizard() {
    assert!(matches!(require_selection(Some(2)), Ok(2)));
    assert!(matches!(
        require_selection(None),
        Err(FlowError::UserAborted)
    ));
    assert!(matches!(require_confirmation(Some(false)), Ok(false)));
    assert!(matches!(
        require_confirmation(None),
        Err(FlowError::UserAborted)
    ));
}
