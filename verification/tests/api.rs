use codex_usage::api::{
    build_usage_url, classify_status, normalize_base_url, parse_chatgpt_base_url, PlanType,
    StatusClass,
};
use codex_usage::auth::{credentials_from_auth, is_blank, AuthError, AuthTokens};

#[test]
fn test_plan_tag_round_trip() {
    for tag in [
        "guest",
        "free",
        "go",
        "plus",
        "pro",
        "free_workspace",
        "team",
        "business",
        "education",
        "quorum",
        "k12",
        "enterprise",
        "edu",
    ] {
        let p = PlanType::from_tag(tag.to_string());
        assert!(!matches!(p, PlanType::Unknown(_)));
        assert_eq!(p.as_tag(), tag);
    }
    let p = PlanType::from_tag("galactic".to_string());
    assert!(matches!(p, PlanType::Unknown(_)));
    assert_eq!(p.as_tag(), "galactic");
}

#[test]
fn test_classify_status_codes() {
    assert_eq!(classify_status(200), StatusClass::Success);
    assert_eq!(classify_status(204), StatusClass::Success);
    assert_eq!(classify_status(299), StatusClass::Success);
    assert_eq!(classify_status(401), StatusClass::Unauthorized);
    assert_eq!(classify_status(403), StatusClass::Unauthorized);
    assert_eq!(classify_status(404), StatusClass::Failure);
    assert_eq!(classify_status(500), StatusClass::Failure);
    assert_eq!(classify_status(300), StatusClass::Failure);
}

#[test]
fn test_normalize_base_url_rules() {
    assert_eq!(normalize_base_url("https://chatgpt.com"), "https://chatgpt.com/backend-api");
    assert_eq!(
        normalize_base_url("https://chat.openai.com/"),
        "https://chat.openai.com/backend-api"
    );
    assert_eq!(
        normalize_base_url("  https://chatgpt.com/backend-api/  "),
        "https://chatgpt.com/backend-api"
    );
    assert_eq!(normalize_base_url("https://example.com/api///"), "https://example.com/api");
    assert_eq!(normalize_base_url(""), "https://chatgpt.com/backend-api/");
    assert_eq!(normalize_base_url("   "), "https://chatgpt.com/backend-api/");
}

#[test]
fn test_build_usage_url_paths() {
    assert_eq!(
        build_usage_url("https://chatgpt.com/backend-api"),
        "https://chatgpt.com/backend-api/wham/usage"
    );
    assert_eq!(
        build_usage_url("https://chatgpt.com/backend-api/"),
        "https://chatgpt.com/backend-api/wham/usage"
    );
    assert_eq!(build_usage_url("https://example.com"), "https://example.com/api/codex/usage");
}

#[test]
fn test_parse_chatgpt_base_url_lines() {
    let config = "# settings\nmodel = \"m\"\nchatgpt_base_url = \"https://one.test\"  # note\nchatgpt_base_url = \"https://two.test\"\n";
    assert_eq!(parse_chatgpt_base_url(config).as_deref(), Some("https://one.test"));
    assert_eq!(
        parse_chatgpt_base_url("chatgpt_base_url = 'https://q.test'").as_deref(),
        Some("https://q.test")
    );
    assert_eq!(
        parse_chatgpt_base_url("  chatgpt_base_url =   https://bare.test  ").as_deref(),
        Some("https://bare.test")
    );
    assert_eq!(parse_chatgpt_base_url("model = \"m\"\n# chatgpt_base_url = \"x\"\n"), None);
    assert_eq!(parse_chatgpt_base_url(""), None);
    assert_eq!(
        parse_chatgpt_base_url("a = 1\r\nchatgpt_base_url = \"https://crlf.test\"\r\n").as_deref(),
        Some("https://crlf.test")
    );
}

#[test]
fn test_credentials_prefer_api_key() {
    let creds = credentials_from_auth(
        Some("sk-live".to_string()),
        Some(AuthTokens { access_token: "tok".to_string(), account_id: Some("acct".to_string()) }),
    )
    .unwrap();
    assert_eq!(creds.access_token, "sk-live");
    assert!(creds.account_id.is_none());
}

#[test]
fn test_credentials_blank_key_falls_back_to_tokens() {
    let creds = credentials_from_auth(
        Some("   ".to_string()),
        Some(AuthTokens { access_token: "tok".to_string(), account_id: Some("acct".to_string()) }),
    )
    .unwrap();
    assert_eq!(creds.access_token, "tok");
    assert_eq!(creds.account_id.as_deref(), Some("acct"));
}

#[test]
fn test_credentials_missing_everything() {
    let err = credentials_from_auth(None, None).unwrap_err();
    assert_eq!(err, AuthError::MissingTokens);
    assert_eq!(err.message(), "No tokens found in auth.json. Run `codex` to log in.");
}

#[test]
fn test_is_blank() {
    assert!(is_blank(""));
    assert!(is_blank(" \t\r\n"));
    assert!(is_blank("\u{a0}\u{2003}"));
    assert!(!is_blank(" x "));
}
