use base64::Engine;
use codexx::providers::official_auth::{config_snapshot_is_official, document_is_official};
use codexx::providers::official_display::{
    auth_display_metadata, official_profile_quota_credentials, quota_access_token,
};
use serde_json::Value;
use toml_edit::DocumentMut;

fn object(fields: &[(&str, Value)]) -> Value {
    let mut map = serde_json::from_str::<Value>("{}").unwrap();
    for (key, value) in fields {
        map[*key] = value.clone();
    }
    map
}

fn text(value: &str) -> Value {
    Value::from(value)
}

fn auth(label: &str) -> Value {
    object(&[
        ("auth_mode", text("chatgpt")),
        (
            "tokens",
            object(&[
                ("account_id", text(&format!("account-{label}"))),
                ("access_token", text(&format!("access-{label}"))),
                ("refresh_token", text(&format!("refresh-{label}"))),
            ]),
        ),
    ])
}

fn display_jwt(claims: Value) -> String {
    format!(
        "e30.{}.fixture-signature",
        base64::engine::general_purpose::URL_SAFE_NO_PAD.encode(claims.to_string())
    )
}

fn plan_claims(plan: Value) -> Value {
    object(&[(
        "https://api.openai.com/auth",
        object(&[("chatgpt_plan_type", plan)]),
    )])
}

#[test]
fn official_profile_email_decodes_only_bounded_display_claims() {
    let mut authentication = auth("email");
    authentication["tokens"]["id_token"] = text(&display_jwt(object(&[(
        "email",
        text("id@example.test"),
    )])));
    authentication["tokens"]["access_token"] = text(&display_jwt(object(&[(
        "https://api.openai.com/profile",
        object(&[("email", text("access@example.test"))]),
    )])));
    assert_eq!(
        auth_display_metadata(&authentication).email.as_deref(),
        Some("id@example.test")
    );
    authentication["email"] = text(" direct@example.test ");
    assert_eq!(
        auth_display_metadata(&authentication).email.as_deref(),
        Some("direct@example.test")
    );
    authentication["email"] = text("\n");
    authentication["tokens"]["id_token"] = text("invalid-token");
    assert_eq!(
        auth_display_metadata(&authentication).email.as_deref(),
        Some("access@example.test")
    );
    authentication["tokens"]["access_token"] = text(&format!("e30.{}.sig", "A".repeat(32769)));
    assert!(auth_display_metadata(&authentication).email.is_none());
    authentication["email"] = text("unsafe\nemail@example.test");
    assert!(auth_display_metadata(&authentication).email.is_none());
}

#[test]
fn official_profile_plan_type_uses_chatgpt_metadata_with_validated_fallbacks() {
    let mut authentication = auth("plan");
    authentication["tokens"]["id_token"] = text(&display_jwt(object(&[
        ("email", text("id@example.test")),
        (
            "https://api.openai.com/auth",
            object(&[("chatgpt_plan_type", text("pro"))]),
        ),
    ])));
    authentication["tokens"]["access_token"] = text(&display_jwt(plan_claims(text("team"))));
    let metadata = auth_display_metadata(&authentication);
    assert_eq!(metadata.email.as_deref(), Some("id@example.test"));
    assert_eq!(metadata.plan_type.as_deref(), Some("pro"));

    authentication["plan_type"] = text(" pro_lite ");
    authentication["chatgpt_plan_type"] = text("business");
    assert_eq!(
        auth_display_metadata(&authentication).plan_type.as_deref(),
        Some("pro_lite")
    );
    authentication["plan_type"] = Value::Null;
    assert_eq!(
        auth_display_metadata(&authentication).plan_type.as_deref(),
        Some("business")
    );
    authentication["chatgpt_plan_type"] = Value::Null;
    authentication["tokens"]["id_token"] = text("malformed-token");
    assert_eq!(
        auth_display_metadata(&authentication).plan_type.as_deref(),
        Some("team")
    );

    authentication["plan_type"] = text("Future_Plan-2");
    assert_eq!(
        auth_display_metadata(&authentication).plan_type.as_deref(),
        Some("Future_Plan-2")
    );
    authentication["auth_mode"] = text("apikey");
    authentication["OPENAI_API_KEY"] = text("synthetic-api-key");
    assert!(auth_display_metadata(&authentication).plan_type.is_none());
    assert!(auth_display_metadata(&auth("missing-plan"))
        .plan_type
        .is_none());
}

#[test]
fn official_profile_plan_type_rejects_unsafe_and_oversized_metadata() {
    for value in [
        text(""),
        text(" \t"),
        text("\npro"),
        text("pro\n"),
        text("pro lite"),
        text("pro\u{202e}lite"),
        text("<script>"),
        text(&"p".repeat(65)),
        Value::from(false),
        Value::Array(vec![text("pro")]),
        object(&[("plan", text("pro"))]),
    ] {
        let mut authentication = auth("invalid-plan");
        authentication["plan_type"] = value.clone();
        authentication["tokens"]["id_token"] = text(&display_jwt(plan_claims(value)));
        assert!(auth_display_metadata(&authentication).plan_type.is_none());
    }
    let valid_token = display_jwt(plan_claims(text("pro")));
    let mut oversized = plan_claims(text("pro"));
    oversized["oversized"] = text(&"x".repeat(32768));
    for token in [
        format!("e30.{}.sig", "A".repeat(32769)),
        format!("{valid_token}.extra"),
        valid_token.replacen("e30.", ".", 1),
        valid_token.replace("fixture-signature", ""),
        display_jwt(Value::Array(vec![text("pro")])),
        display_jwt(oversized),
    ] {
        let mut authentication = auth("invalid-jwt");
        authentication["tokens"]["id_token"] = text(&token);
        assert!(auth_display_metadata(&authentication).plan_type.is_none());
    }
}

#[test]
fn official_quota_credentials_reject_logout_api_keys_and_missing_access_tokens() {
    let none = official_profile_quota_credentials(&None);
    assert!(none.err().unwrap().text().contains("尚未登录"));
    let mut key = auth("key");
    key["auth_mode"] = text("apikey");
    key["OPENAI_API_KEY"] = text("synthetic-api-key");
    let error = official_profile_quota_credentials(&Some(key)).err().unwrap();
    assert!(error.text().contains("没有可用的 ChatGPT 登录凭据"));
    assert!(!error.text().contains("synthetic"));
    let mut missing = auth("missing");
    missing["tokens"]["access_token"] = text("  ");
    assert!(quota_access_token(&missing).is_none());
    assert!(official_profile_quota_credentials(&Some(missing)).is_err());
    let mut account = auth("a");
    account["email"] = text(" a@example.test ");
    let found = official_profile_quota_credentials(&Some(account)).ok().unwrap();
    assert_eq!(found.access_token, "access-a");
    assert_eq!(found.account_id.as_deref(), Some("account-a"));
    assert_eq!(found.email.as_deref(), Some("a@example.test"));
}

#[test]
fn official_configurations_are_told_from_third_party_ones() {
    let official: DocumentMut = "model_provider = \"openai\"\nmodel = \"m\"\n".parse().unwrap();
    assert!(document_is_official(&official));
    let proxy: DocumentMut = "model_provider = \"custom\"\nmodel = \"m\"\n".parse().unwrap();
    assert!(!document_is_official(&proxy));
    assert_eq!(
        config_snapshot_is_official(Some(b"model_provider = \"openai\"\n")),
        Some(true)
    );
    assert_eq!(
        config_snapshot_is_official(Some(b"model_provider = \"custom\"\n")),
        Some(false)
    );
    assert_eq!(config_snapshot_is_official(Some(b"model_provider = [")), None);
}
