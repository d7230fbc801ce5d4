use base64::Engine;
use shapeshifter::config::{config_path_in, AppConfig, AppConfigStore};
use shapeshifter::domain::{
    extract_account_id_from_access_token, AuthFile, AuthTokens, ChatgptPlanType, OAuthSession,
};

fn jwt(payload: &str) -> String {
    format!(
        "h.{}.s",
        base64::engine::general_purpose::URL_SAFE_NO_PAD.encode(payload.as_bytes())
    )
}

#[test]
fn reads_account_id_claim() {
    let token = jwt(r#"{"https://api.openai.com/auth":{"chatgpt_account_id":"acct-7"}}"#);
    assert_eq!(extract_account_id_from_access_token(&token).as_deref(), Some("acct-7"));
    assert_eq!(extract_account_id_from_access_token("not-a-jwt"), None);
    assert_eq!(extract_account_id_from_access_token(&jwt(r#"{"sub":"x"}"#)), None);
    assert_eq!(extract_account_id_from_access_token("a.!!!.c"), None);
}

#[test]
fn auth_file_session_round_trip() {
    let session = OAuthSession {
        issuer: "https://i".to_string(),
        client_id: "c".to_string(),
        email: None,
        chatgpt_account_id: None,
        plan: ChatgptPlanType::Unknown,
        tokens: AuthTokens {
            access_token: jwt(r#"{"https://api.openai.com/auth":{"chatgpt_account_id":"acct-1"}}"#),
            id_token: Some(jwt(r#"{"email":"e@x.io"}"#)),
            ..AuthTokens::default()
        },
    };
    let file = AuthFile::from_oauth_session(session.clone());
    assert_eq!(file.auth_mode.as_deref(), Some("chatgpt"));
    assert!(file.openai_api_key.is_none());
    let back = file.to_session("https://i", "c");
    assert_eq!(back.issuer, "https://i");
    assert_eq!(back.email.as_deref(), Some("e@x.io"));
    assert_eq!(back.chatgpt_account_id.as_deref(), Some("acct-1"));
    assert_eq!(back.tokens.access_token, session.tokens.access_token);

    let mut stored = file.clone();
    stored.tokens.account_id = Some("stored".to_string());
    assert_eq!(stored.to_session("i", "c").chatgpt_account_id.as_deref(), Some("stored"));
}

#[test]
fn defaults() {
    let f = AuthFile::default();
    assert!(f.tokens.access_token.is_empty());
    assert_eq!(ChatgptPlanType::default(), ChatgptPlanType::Unknown);
    let c = AppConfig::default();
    assert_eq!(c.profiles_path, "profiles.json");
    assert!(c.hosts.is_empty());
}

#[test]
fn config_paths() {
    assert_eq!(config_path_in(Some("/home/u/.config")), "/home/u/.config/shapeshifter/config.toml");
    assert_eq!(config_path_in(None), "./shapeshifter/config.toml");
    assert!(AppConfigStore::new().path().ends_with("shapeshifter/config.toml"));
}
