use base64::Engine;
use shapeshifter::auth::{
    code_challenge_for, AuthError, BrowserAuthOptions, CodexAuthService, DeviceCodeResponse,
    DevicePoll, PkceVerifier, TokenResponse,
};
use shapeshifter::domain::{AuthTokens, ChatgptPlanType, OAuthSession};

fn jwt(payload: &str) -> String {
    format!(
        "header.{}.sig",
        base64::engine::general_purpose::URL_SAFE_NO_PAD.encode(payload.as_bytes())
    )
}

fn pairs(items: &[(&str, &str)]) -> Vec<(String, String)> {
    items.iter().map(|(k, v)| (k.to_string(), v.to_string())).collect()
}

#[test]
fn builds_browser_authorize_url() {
    let service = CodexAuthService::new();
    let options = BrowserAuthOptions::default();
    let prompt = service.begin_browser_login(&options).ok().unwrap();
    let url = prompt.authorize_url.as_str();

    assert!(url.contains("/oauth/authorize"));
    assert!(url.contains("client_id=app_EMoamEEZ73f0CkXaXp7hrann"));
    assert!(url.contains("code_challenge_method=S256"));
}

#[test]
fn browser_prompt_uses_given_pkce_values() {
    let service = CodexAuthService::new();
    let options = BrowserAuthOptions {
        issuer: "https://issuer.example/".to_string(),
        client_id: "cid".to_string(),
        port: 8080,
        open_browser: false,
        timeout_secs: 5,
    };
    let pkce = PkceVerifier {
        state: "st".to_string(),
        code_verifier: "ver".to_string(),
        code_challenge: "chal".to_string(),
    };
    let prompt = service.browser_prompt(&options, pkce).ok().unwrap();
    assert_eq!(prompt.redirect_url, "http://localhost:8080/auth/callback");
    assert!(prompt.authorize_url.starts_with("https://issuer.example/oauth/authorize?response_type=code&client_id=cid"));
    assert!(prompt.authorize_url.contains("redirect_uri=http%3A%2F%2Flocalhost%3A8080%2Fauth%2Fcallback"));
    assert!(prompt.authorize_url.contains("code_challenge=chal"));
    assert!(prompt.authorize_url.contains("state=st"));
    assert!(prompt.authorize_url.ends_with("originator=codex_cli_rs"));
    assert_eq!(prompt.pkce.code_verifier, "ver");
}

#[test]
fn default_options_and_service_values() {
    let options = BrowserAuthOptions::default();
    assert_eq!(options.issuer, "https://auth.openai.com");
    assert_eq!(options.client_id, "app_EMoamEEZ73f0CkXaXp7hrann");
    assert_eq!(options.port, 1455);
    assert!(options.open_browser);
    assert_eq!(options.timeout_secs, 900);
    let service = CodexAuthService::new();
    assert_eq!(service.default_issuer(), "https://auth.openai.com");
    assert_eq!(service.default_client_id(), "app_EMoamEEZ73f0CkXaXp7hrann");
}

#[test]
fn pkce_challenge_is_sha256_in_url_safe_base64() {
    assert_eq!(code_challenge_for("test"), "n4bQgYhMfWWaL-qgxVrQFaO_TxsrC4Is0V1sFbDwCgg");
    let pkce = PkceVerifier::generate();
    assert_eq!(pkce.code_verifier.len(), 32);
    assert!(pkce.code_verifier.chars().all(|c| c.is_ascii_hexdigit() && !c.is_ascii_uppercase()));
    assert_eq!(pkce.state.len(), 36);
    assert_eq!(pkce.code_challenge, code_challenge_for(&pkce.code_verifier));
    assert_eq!(pkce.code_challenge.len(), 43);
    let v: Vec<char> = pkce.code_verifier.chars().collect();
    assert_eq!(v[12], '4');
    assert!("89ab".contains(v[16]));
    let st: Vec<char> = pkce.state.chars().collect();
    assert_eq!(st[14], '4');
    assert!("89ab".contains(st[19]));
}

#[test]
fn callback_code_checks_state_then_error_then_code() {
    let service = CodexAuthService::new();
    let ok = service.callback_code(&pairs(&[("state", "s1"), ("code", "c1")]), "s1");
    assert_eq!(ok.ok().unwrap(), "c1");
    let last_wins = service.callback_code(&pairs(&[("code", "old"), ("state", "s1"), ("code", "new")]), "s1");
    assert_eq!(last_wins.ok().unwrap(), "new");
    assert!(matches!(
        service.callback_code(&pairs(&[("state", "other"), ("code", "c1")]), "s1"),
        Err(AuthError::StateMismatch)
    ));
    assert!(matches!(
        service.callback_code(&pairs(&[("code", "c1")]), "s1"),
        Err(AuthError::StateMismatch)
    ));
    match service.callback_code(&pairs(&[("state", "s1"), ("error", "access_denied")]), "s1") {
        Err(AuthError::Authorization(m)) => assert_eq!(m, "access_denied"),
        _ => panic!("expected authorization error"),
    }
    match service.callback_code(&pairs(&[("state", "s1")]), "s1") {
        Err(AuthError::Authorization(m)) => assert_eq!(m, "missing authorization code"),
        _ => panic!("expected missing code"),
    }
}

#[test]
fn callback_query_reads_the_request_line() {
    let service = CodexAuthService::new();
    let q = service
        .callback_query("GET /auth/callback?code=abc&state=x%20y HTTP/1.1\r\nHost: localhost\r\n\r\n")
        .ok()
        .unwrap();
    assert_eq!(q, pairs(&[("code", "abc"), ("state", "x y")]));
    match service.callback_query("GARBAGE") {
        Err(AuthError::Callback(m)) => assert_eq!(m, "invalid callback request"),
        _ => panic!("expected invalid request"),
    }
    assert!(service.callback_query("").is_err());
    assert!(service.callback_reply(&pairs(&[("error", "x")])).starts_with("HTTP/1.1 400"));
    assert!(service.callback_reply(&pairs(&[("code", "x")])).starts_with("HTTP/1.1 200"));
}

#[test]
fn device_prompt_and_polling() {
    let service = CodexAuthService::new();
    let prompt = service.device_prompt(
        "https://auth.openai.com/",
        DeviceCodeResponse {
            device_auth_id: "dev1".to_string(),
            user_code: None,
            usercode: Some("ABCD".to_string()),
            interval: Some("7".to_string()),
        },
    );
    assert_eq!(prompt.verification_url, "https://auth.openai.com/codex/device");
    assert_eq!(prompt.user_code, "ABCD");
    assert_eq!(prompt.device_auth_id, "dev1");
    assert_eq!(prompt.interval_seconds, 7);
    let fallback = service.device_prompt(
        "https://i",
        DeviceCodeResponse {
            device_auth_id: "d".to_string(),
            user_code: Some("U".to_string()),
            usercode: Some("V".to_string()),
            interval: Some("soon".to_string()),
        },
    );
    assert_eq!(fallback.user_code, "U");
    assert_eq!(fallback.interval_seconds, 5);
    assert_eq!(service.device_poll(Some(403), true), DevicePoll::Wait);
    assert_eq!(service.device_poll(Some(404), true), DevicePoll::Wait);
    assert_eq!(service.device_poll(Some(404), false), DevicePoll::Fail);
    assert_eq!(service.device_poll(Some(500), true), DevicePoll::Fail);
    assert_eq!(service.device_poll(None, true), DevicePoll::Fail);
}

#[test]
fn device_grant_fields() {
    let service = CodexAuthService::new();
    let ok = service
        .device_grant(br#"{"authorization_code":"ac","code_verifier":"cv"}"#)
        .ok()
        .unwrap();
    assert_eq!(ok, ("ac".to_string(), "cv".to_string()));
    match service.device_grant(br#"{"code_verifier":"cv"}"#) {
        Err(AuthError::Authorization(m)) => {
            assert_eq!(m, "device auth response missing authorization_code")
        }
        _ => panic!("expected missing code"),
    }
    match service.device_grant(br#"{"authorization_code":"ac"}"#) {
        Err(AuthError::Authorization(m)) => assert_eq!(m, "device auth response missing code_verifier"),
        _ => panic!("expected missing verifier"),
    }
}

#[test]
fn endpoints_and_forms() {
    let service = CodexAuthService::new();
    assert_eq!(
        service.device_code_url("https://i//"),
        "https://i/api/accounts/deviceauth/usercode"
    );
    assert_eq!(service.device_token_url("https://i"), "https://i/api/accounts/deviceauth/token");
    assert_eq!(service.device_redirect_uri("https://i/"), "https://i/deviceauth/callback");
    assert_eq!(service.token_url("https://i/"), "https://i/oauth/token");
    assert_eq!(
        service.code_exchange_form("c", "r", "id", "v"),
        pairs(&[
            ("grant_type", "authorization_code"),
            ("code", "c"),
            ("redirect_uri", "r"),
            ("client_id", "id"),
            ("code_verifier", "v"),
        ])
    );
    let mut session = OAuthSession {
        issuer: "https://i".to_string(),
        client_id: "cid".to_string(),
        email: None,
        chatgpt_account_id: None,
        plan: ChatgptPlanType::Unknown,
        tokens: AuthTokens::default(),
    };
    match service.refresh_form(&session) {
        Err(AuthError::Authorization(m)) => assert_eq!(m, "missing refresh token"),
        _ => panic!("expected missing refresh token"),
    }
    session.tokens.refresh_token = Some("rt".to_string());
    assert_eq!(
        service.refresh_form(&session).ok().unwrap(),
        pairs(&[("grant_type", "refresh_token"), ("client_id", "cid"), ("refresh_token", "rt")])
    );
}

#[test]
fn session_from_token_response_reads_claims() {
    let service = CodexAuthService::new();
    let access = jwt(r#"{"https://api.openai.com/auth":{"chatgpt_account_id":"acct-9"}}"#);
    let id = jwt(r#"{"email":"user@example.com"}"#);
    let session = service.session_from_token_response(
        "https://i",
        "cid",
        TokenResponse {
            access_token: access.clone(),
            refresh_token: Some("rt".to_string()),
            id_token: Some(id.clone()),
            expires_in: Some(3600),
            scope: None,
            token_type: Some("Bearer".to_string()),
        },
    );
    assert_eq!(session.issuer, "https://i");
    assert_eq!(session.client_id, "cid");
    assert_eq!(session.email.as_deref(), Some("user@example.com"));
    assert_eq!(session.chatgpt_account_id.as_deref(), Some("acct-9"));
    assert_eq!(session.tokens.account_id.as_deref(), Some("acct-9"));
    assert_eq!(session.tokens.access_token, access);
    assert_eq!(session.tokens.expires_in, Some(3600));
    let file = service.auth_file_from_session(session);
    assert_eq!(file.auth_mode.as_deref(), Some("chatgpt"));
    assert_eq!(file.tokens.refresh_token.as_deref(), Some("rt"));
}

#[test]
fn error_messages() {
    assert_eq!(AuthError::Http("x".into()).message(), "http auth request failed: x");
    assert_eq!(AuthError::Callback("y".into()).message(), "oauth callback listener failed: y");
    assert_eq!(AuthError::CallbackTimeout.message(), "oauth callback timed out");
    assert_eq!(AuthError::StateMismatch.message(), "oauth state mismatch");
    assert_eq!(AuthError::Authorization("z".into()).message(), "oauth authorization failed: z");
    assert_eq!(AuthError::BrowserOpen("w".into()).message(), "browser open failed: w");
}
