use codexx::error::CodexxError;
use codexx::providers::live::{
    activate_saved_provider_inner, applied_config_text,
    apply_saved_provider_locked, apply_saved_provider_with_policy_locked,
    capture_live_official_snapshot, check_provider_input, delete_saved_provider_inner,
    finish_active_save, finish_live_action, prepare_merged_switch, requested_official_config,
    reset_official_provider_inner,
    restore_official_provider_inner, rollback_after_failure, rollback_persisted_provider,
    save_active_provider_with_apply, save_official_config_inner, save_provider_toml_config_locked,
    save_provider_toml_config_with_catalog_locked, switch_official_provider_with_pre_persist,
    switch_provider_locked, update_official_snapshot, ActionResult, ActivationSource, OfficialCandidate,
    ProviderInput, ProviderTomlInput,
};
use codexx::providers::live_action::{ActionKind, ActionPart, ActionStage, LiveAction};
use codexx::providers::live_files::{
    removal_write_order, replacement_write_order, rollback_step_failed,
    write_live_files_with_between_writes, LiveFile, LiveStage, LiveStep, LiveWrite, LiveWriteOrder,
};
use codexx::providers::live_toml::{
    build_provider_toml_draft_inner, build_provider_toml_draft_with_origin_inner,
    clear_foreign_provider_credentials, configure_live_provider_auth, detected_live_custom_provider,
    draft_needs_base, get_provider_config_base_inner, is_provider_only_document, live_auth_api_key,
    merge_provider_toml_into_live_with_policy, official_activation_config_text,
    provider_activation_document, provider_auth_action, recovers_shared_tables, saved_preferences,
    saved_template, LiveAuthAction,
};
use codexx::providers::model_catalog::{CatalogStep, ProviderModelMapping};
use codexx::providers::store::SavedProvider;
use codexx::providers::table::{save_provider_inner, ProviderTable};
use serde_json::Value;
use toml_edit::{value, DocumentMut};

const OFFICIAL: &[u8] = b"model_provider = \"openai\"\nmodel = \"official-model\"\n";
const PROXY: &[u8] = b"model_provider = \"custom\"\nmodel = \"proxy-model\"\n";

const INHERITED_COMMON_FIXTURE: &str = r#"
[desktop]
notifications = false
[marketplaces.fixture]
source = "current-local-source"
[plugins."fixture@local"]
enabled = true
[projects."/fixture/project"]
trust_level = "trusted"
[mcp_servers.current]
command = "current-mcp"
[mcp_servers.current.env]
MCP_KEY = "current-mcp-key"
[future_common]
mode = "current-future-mode"
"#;

fn active_provider_fixture(
    tag: u64,
    id: &str,
    name: &str,
    model: &str,
    key: &str,
) -> SavedProvider {
    let base_url = format!("https://active-{tag}.example.com/v1");
    SavedProvider {
        id: id.to_string(),
        provider_name: name.to_string(),
        base_url: base_url.clone(),
        model: model.to_string(),
        api_key: Some(key.to_string()),
        toml_config: Some(format!(
            r#"model_provider = "custom"
model = "{model}"

[model_providers.custom]
name = "{name}"
base_url = "{base_url}"
wire_api = "responses"
requires_openai_auth = false
"#
        )),
        wire_api: "responses".to_string(),
        requires_openai_auth: false,
        model_mappings: Vec::new(),
    }
}

fn parse(text: &str) -> DocumentMut {
    text.parse().unwrap()
}

/// Two files in memory on which steps are performed.
struct Files {
    config: Option<Vec<u8>>,
    auth: Option<Vec<u8>>,
}

impl Files {
    fn at(&mut self, file: LiveFile) -> &mut Option<Vec<u8>> {
        match file {
            LiveFile::Config => &mut self.config,
            LiveFile::Auth => &mut self.auth,
        }
    }

    fn perform(&mut self, step: &LiveStep) -> Result<(), CodexxError> {
        let (file, expected, new) = match step {
            LiveStep::Write {
                file,
                expected,
                content,
            } => (*file, expected, Some(Some(content.clone()))),
            LiveStep::Remove { file, expected } => (*file, expected, Some(None)),
            LiveStep::Check { file, expected } => (*file, expected, None),
            LiveStep::Restore {
                file,
                expected,
                original,
            } => (*file, expected, Some(original.clone())),
        };
        let found = self.at(file);
        if found != expected {
            return Err(CodexxError::Config("file changed".to_string()));
        }
        if let Some(new) = new {
            *found = new;
        }
        Ok(())
    }

    /// Runs a write to its end, with something happening between the two writes.
    fn run(
        &mut self,
        mut write: LiveWrite,
        between: impl Fn(&mut Files) -> Result<(), CodexxError>,
    ) -> LiveWrite {
        loop {
            let outcome = match write.stage {
                LiveStage::Written | LiveStage::Failed(_) => return write,
                LiveStage::Between => between(self),
                _ => match write.step() {
                    Some(step) => self.perform(&step),
                    None => Ok(()),
                },
            };
            write = write.advance(outcome);
        }
    }
}

fn begin(files: &Files, config: &[u8], auth: Option<Option<&[u8]>>) -> LiveWrite {
    write_live_files_with_between_writes(
        files.config.clone(),
        files.auth.clone(),
        config.to_vec(),
        auth.map(|auth| auth.map(<[u8]>::to_vec)),
    )
}

#[test]
fn removing_auth_uses_the_target_route_write_order() {
    let official = b"model_provider = \"openai\"\nmodel = \"official-model\"\n";
    let proxy = b"model_provider = \"custom\"\nmodel = \"proxy-model\"\n";

    assert_eq!(
        removal_write_order(Some(official)),
        LiveWriteOrder::ConfigFirst
    );
    assert_eq!(removal_write_order(Some(proxy)), LiveWriteOrder::AuthFirst);
}

#[test]
fn replacing_auth_publishes_official_route_before_credential() {
    let mut files = Files {
        config: Some(PROXY.to_vec()),
        auth: Some(b"proxy-key".to_vec()),
    };
    assert_eq!(
        replacement_write_order(Some(PROXY), Some(OFFICIAL)),
        LiveWriteOrder::ConfigFirst
    );
    let write = begin(&files, OFFICIAL, Some(Some(b"official-access")));
    let done = files.run(write, |files| {
        assert_eq!(files.config.as_deref(), Some(OFFICIAL));
        assert_eq!(files.auth.as_deref(), Some(&b"proxy-key"[..]));
        Ok(())
    });
    assert!(done.finish().unwrap().is_ok());
    assert_eq!(files.config.as_deref(), Some(OFFICIAL));
    assert_eq!(files.auth.as_deref(), Some(&b"official-access"[..]));
}

#[test]
fn replacing_auth_publishes_proxy_credential_before_route() {
    let mut files = Files {
        config: Some(OFFICIAL.to_vec()),
        auth: Some(b"official-access".to_vec()),
    };
    let write = begin(&files, PROXY, Some(Some(b"proxy-key")));
    let done = files.run(write, |files| {
        assert_eq!(files.config.as_deref(), Some(OFFICIAL));
        assert_eq!(files.auth.as_deref(), Some(&b"proxy-key"[..]));
        Ok(())
    });
    assert!(done.finish().unwrap().is_ok());
    assert_eq!(files.config.as_deref(), Some(PROXY));
}

#[test]
fn removing_auth_deletes_official_credential_before_publishing_proxy_route() {
    let mut files = Files {
        config: Some(OFFICIAL.to_vec()),
        auth: Some(b"official-access".to_vec()),
    };
    let write = begin(&files, PROXY, Some(None));
    let done = files.run(write, |files| {
        assert_eq!(files.config.as_deref(), Some(OFFICIAL));
        assert!(files.auth.is_none());
        Ok(())
    });
    let applied = done.finish().unwrap().unwrap();
    assert_eq!(files.config.as_deref(), Some(PROXY));
    assert!(files.auth.is_none());
    for step in applied.rollback() {
        files.perform(&step).unwrap();
    }
    assert_eq!(files.config.as_deref(), Some(OFFICIAL));
    assert_eq!(files.auth.as_deref(), Some(&b"official-access"[..]));
}

#[test]
fn concurrent_auth_change_blocks_config_and_preserves_external_auth() {
    let mut files = Files {
        config: Some(OFFICIAL.to_vec()),
        auth: Some(b"old".to_vec()),
    };
    let write = begin(&files, PROXY, Some(Some(b"proxy-key")));
    let done = files.run(write, |files| {
        files.auth = Some(b"external".to_vec());
        Ok(())
    });
    let error = done.finish().unwrap().unwrap_err().text();
    assert!(error.contains("auth.json 回滚也失败"));
    assert_eq!(files.config.as_deref(), Some(OFFICIAL));
    assert_eq!(files.auth.as_deref(), Some(&b"external"[..]));
}

#[test]
fn config_failure_rolls_back_auth_first_write() {
    let mut files = Files {
        config: Some(OFFICIAL.to_vec()),
        auth: Some(b"old".to_vec()),
    };
    let write = begin(&files, PROXY, Some(Some(b"proxy-key")));
    let done = files.run(write, |files| {
        files.config = Some(b"changed elsewhere".to_vec());
        Ok(())
    });
    assert_eq!(
        done.finish().unwrap().unwrap_err(),
        CodexxError::Config("file changed".to_string())
    );
    assert_eq!(files.config.as_deref(), Some(&b"changed elsewhere"[..]));
    assert_eq!(files.auth.as_deref(), Some(&b"old"[..]));
}

#[test]
fn a_configuration_alone_is_one_step() {
    let mut files = Files {
        config: None,
        auth: Some(b"kept".to_vec()),
    };
    let write = begin(&files, PROXY, None);
    let done = files.run(write, |_| panic!("there is nothing between"));
    let applied = done.finish().unwrap().unwrap();
    assert_eq!(files.config.as_deref(), Some(PROXY));
    let steps = applied.rollback();
    let failure = rollback_step_failed(&steps[0], CodexxError::Config("x".to_string()));
    assert!(failure.text().contains("x"));
    for step in steps {
        files.perform(&step).unwrap();
    }
    assert!(files.config.is_none());
    assert_eq!(files.auth.as_deref(), Some(&b"kept"[..]));
}

#[test]
fn direct_switch_rejects_placeholder_provider_values() {
    let input = ProviderInput {
        provider_id: Some("placeholder".to_string()),
        provider_name: "your-provider".to_string(),
        base_url: "https://example.com/v1".to_string(),
        model: "gpt-5.5".to_string(),
        api_key: None,
        wire_api: Some("responses".to_string()),
        requires_openai_auth: Some(false),
    };
    let error = switch_provider_locked(&input, "").err().unwrap();
    assert!(error.text().contains("示例占位值"));
    for field in ["id", "name", "url", "model"] {
        let mut wrong = ProviderInput {
            provider_id: None,
            provider_name: "Name".to_string(),
            base_url: "https://a.example/v1".to_string(),
            model: "m".to_string(),
            api_key: None,
            wire_api: None,
            requires_openai_auth: None,
        };
        assert!(check_provider_input(&wrong).is_ok());
        match field {
            "id" => wrong.provider_id = Some(" ".to_string()),
            "name" => wrong.provider_name = " ".to_string(),
            "url" => wrong.base_url = " / ".to_string(),
            _ => wrong.model = " ".to_string(),
        }
        assert!(check_provider_input(&wrong).is_err(), "{field}");
    }
}

#[test]
fn direct_switches_route_to_the_entered_provider() {
    let input = ProviderInput {
        provider_id: None,
        provider_name: " My API ".to_string(),
        base_url: " https://a.example/v1/ ".to_string(),
        model: " m ".to_string(),
        api_key: Some(" key ".to_string()),
        wire_api: None,
        requires_openai_auth: Some(false),
    };
    let prepared = switch_provider_locked(&input, "# kept\napproval_policy = \"never\"\n").unwrap();
    assert_eq!(prepared.message, "已切换到 My API");
    assert!(prepared.replacement.contains("# kept"));
    let doc = parse(&prepared.replacement);
    assert_eq!(doc["model_provider"].as_str(), Some("custom"));
    assert_eq!(doc["model"].as_str(), Some("m"));
    assert_eq!(doc["approval_policy"].as_str(), Some("never"));
    let section = &doc["model_providers"]["custom"];
    assert_eq!(section["name"].as_str(), Some("My API"));
    assert_eq!(section["base_url"].as_str(), Some("https://a.example/v1"));
    assert_eq!(section["experimental_bearer_token"].as_str(), Some("key"));
    assert!(matches!(prepared.auth_action, LiveAuthAction::Replace(_)));
    assert!(switch_provider_locked(&input, "broken = [").is_err());
}

#[test]
fn complete_provider_template_replaces_live_common_config() {
    let current = r#"# keep-live-comment
model_provider = "custom"
model = "model-a"
approval_policy = "never"
service_tier = "priority"

[model_providers.custom]
name = "Provider A"
base_url = "https://a.example.com/v1"
wire_api = "responses"
requires_openai_auth = false
experimental_bearer_token = "sk-a"

[features]
js_repl = false

[mcp_servers.live]
command = "live-server"

[projects."/live/project"]
trust_level = "trusted"
"#;
    let historical_template = r#"model_provider = "saved-provider"
model = "model-b"
approval_policy = "on-request"
service_tier = "flex"

[model_providers.saved-provider]
name = "Provider B"
base_url = "https://b.example.com/v1"
wire_api = "responses"
requires_openai_auth = false
experimental_bearer_token = "sk-stale-template"
request_max_retries = 9

[features]
js_repl = true

[mcp_servers.stale]
command = "stale-server"

[projects."/stale/project"]
trust_level = "untrusted"
"#;

    let (merged, api_key) = merge_provider_toml_into_live_with_policy(
        current,
        historical_template,
        &Some("sk-b".to_string()),
        false,
    )
    .expect("merge provider template");
    let text = merged.to_string();

    assert!(!text.contains("# keep-live-comment"));
    assert_eq!(merged["model_provider"].as_str(), Some("custom"));
    assert_eq!(merged["model"].as_str(), Some("model-b"));
    assert_eq!(merged["approval_policy"].as_str(), Some("on-request"));
    assert_eq!(merged["service_tier"].as_str(), Some("flex"));
    assert!(merged.get("model_reasoning_effort").is_none());
    assert!(merged.get("disable_response_storage").is_none());
    assert_eq!(merged["features"]["js_repl"].as_bool(), Some(true));
    assert_eq!(
        merged["mcp_servers"]["stale"]["command"].as_str(),
        Some("stale-server")
    );
    assert!(merged["mcp_servers"].get("live").is_none());
    assert_eq!(
        merged["projects"]["/stale/project"]["trust_level"].as_str(),
        Some("untrusted")
    );
    assert!(merged["projects"].get("/live/project").is_none());
    assert_eq!(
        merged["model_providers"]["custom"]["name"].as_str(),
        Some("Provider B")
    );
    assert_eq!(
        merged["model_providers"]["custom"]["request_max_retries"].as_integer(),
        Some(9)
    );
    assert_eq!(
        merged["model_providers"]["custom"]["experimental_bearer_token"].as_str(),
        Some("sk-b")
    );
    assert_eq!(api_key.as_deref(), Some("sk-b"));
    assert!(!text.contains("sk-a"));
    assert!(!text.contains("sk-stale-template"));
}

#[test]
fn direct_toml_activation_preserves_proxy_ws_but_corrects_deepseek_ws() {
    for (endpoint, expected) in [
        ("https://proxy.example/v1", true),
        ("https://api.deepseek.com/v1", false),
    ] {
        let source = format!("model_provider='saved'\nmodel='some-model'\n[model_providers.saved]\nname='My API'\nbase_url='{endpoint}'\nsupports_websockets=true\nrequest_max_retries=7\n");
        let (doc, _) =
            merge_provider_toml_into_live_with_policy("", &source, &None, false).unwrap();
        assert_eq!(
            doc["model_providers"]["custom"]["supports_websockets"].as_bool(),
            Some(expected)
        );
        assert_eq!(
            doc["model_providers"]["custom"]["request_max_retries"].as_integer(),
            Some(7)
        );
    }
}

#[test]
fn merges_say_what_a_configuration_lacks() {
    let merge = |text: &str, key: Option<&str>| {
        merge_provider_toml_into_live_with_policy("", text, &key.map(str::to_string), false)
            .err()
            .map(|error| error.text())
    };
    assert!(merge("x = [", None).unwrap().contains("config.toml"));
    assert!(merge("", None).unwrap().contains("必须包含 model"));
    assert!(merge("model = 'm'", None)
        .unwrap()
        .contains("必须包含 model_provider"));
    let head = "model = 'm'\nmodel_provider = 'p'\n";
    assert!(merge(head, None)
        .unwrap()
        .contains("缺少 [model_providers.p]"));
    assert!(merge(&format!("{head}[model_providers.p]\nname = 'x'\n"), None)
        .unwrap()
        .contains("非空 base_url"));
    let auth = format!("{head}[model_providers.p]\nbase_url = 'https://a.example'\nrequires_openai_auth = true\n");
    assert!(merge(&auth, None).unwrap().contains("需要 API Key"));
    assert!(merge(&auth, Some("key")).is_none());
}

#[test]
fn provider_draft_preserves_own_websockets_only_until_endpoint_changes() {
    let mut target = active_provider_fixture(40_022, "proxy", "My proxy", "model", "fixture-key");
    target
        .toml_config
        .as_mut()
        .unwrap()
        .push_str("supports_websockets = true\nrequest_max_retries = 7\n");
    let render = |provider: SavedProvider| {
        let template = parse(provider.toml_config.as_deref().unwrap());
        parse(&build_provider_toml_draft_inner(provider, Some(&template), DocumentMut::new()).unwrap())
    };
    let unchanged = render(target.clone());
    assert_eq!(
        unchanged["model_providers"]["custom"]["supports_websockets"].as_bool(),
        Some(true)
    );
    target.base_url = "https://new-endpoint.example/v1".into();
    let changed = render(target);
    assert_eq!(
        changed["model_providers"]["custom"]["supports_websockets"].as_bool(),
        Some(false)
    );
    assert_eq!(
        changed["model_providers"]["custom"]["request_max_retries"].as_integer(),
        Some(7)
    );
}

#[test]
fn new_provider_template_keeps_common_settings_without_reusing_websocket_capability() {
    let mut target = active_provider_fixture(40_024, "proxy", "My proxy", "model", "fixture-key");
    target.toml_config.as_mut().unwrap().push_str("supports_websockets = true\nrequest_max_retries = 7\n[mcp_servers.docs]\ncommand = 'fixture-mcp'\n");
    let template = parse(target.toml_config.as_deref().unwrap());
    for (new_provider, expected) in [(true, false), (false, true)] {
        let draft = parse(
            &build_provider_toml_draft_with_origin_inner(
                target.clone(),
                Some(&template),
                DocumentMut::new(),
                new_provider,
            )
            .unwrap(),
        );
        assert_eq!(
            draft["model_providers"]["custom"]["supports_websockets"].as_bool(),
            Some(expected)
        );
        assert_eq!(
            draft["model_providers"]["custom"]["request_max_retries"].as_integer(),
            Some(7)
        );
        assert_eq!(
            draft["mcp_servers"]["docs"]["command"].as_str(),
            Some("fixture-mcp")
        );
    }
}

#[test]
fn new_or_changed_provider_drafts_drop_vendor_credentials_but_keep_mcp_env() {
    let mut target = active_provider_fixture(40_030, "proxy", "My proxy", "model", "fixture-key");
    target.toml_config.as_mut().unwrap().push_str("env_key = 'VENDOR'\nhttp_headers = { Authorization = 'Bearer vendor' }\nquery_params = { key = 'vendor' }\n[mcp_servers.docs]\ncommand = 'mcp'\nenv = { TOKEN = 'keep' }\n");
    let template = parse(target.toml_config.as_deref().unwrap());
    let own = build_provider_toml_draft_inner(target.clone(), Some(&template), DocumentMut::new())
        .unwrap();
    assert!(own.contains("VENDOR"));
    for new_provider in [true, false] {
        let mut changed = target.clone();
        if !new_provider {
            changed.base_url = "https://other.example/v1".to_string();
        }
        let draft = build_provider_toml_draft_with_origin_inner(
            changed,
            Some(&template),
            DocumentMut::new(),
            new_provider,
        )
        .unwrap();
        assert!(!draft.to_lowercase().contains("vendor"));
        let doc = parse(&draft);
        assert_eq!(
            doc["mcp_servers"]["docs"]["env"]["TOKEN"].as_str(),
            Some("keep")
        );
    }
    let mut table = parse("base_url = 'https://a.example/v1'\nenv_key = 'K'\nauth = 'x'\nname = 'n'\n")
        .as_table()
        .clone();
    clear_foreign_provider_credentials(&mut table, "https://A.example/v1/", true);
    assert!(table.contains_key("env_key"));
    clear_foreign_provider_credentials(&mut table, "https://b.example/v1", true);
    assert!(!table.contains_key("env_key") && !table.contains_key("auth"));
    assert_eq!(table["name"].as_str(), Some("n"));
}

#[test]
fn thin_live_draft_recovers_only_integration_tables_from_same_home_official_snapshot() {
    let live = parse("model_provider = 'custom'\nmodel = 'm'\n[model_providers.custom]\nname = 'A'\nexperimental_bearer_token = 't'\n");
    let official = parse("model_provider = 'openai'\nmodel = 'official'\napproval_policy = 'never'\n[mcp_servers.docs]\ncommand = 'mcp'\n[projects.x]\ntrust_level = 'trusted'\n[model_providers.other]\nname = 'O'\n");
    assert!(is_provider_only_document(&live));
    assert!(recovers_shared_tables(&live, false));
    assert!(!recovers_shared_tables(&live, true));
    assert!(!is_provider_only_document(&official));
    let base = parse(&get_provider_config_base_inner(live.clone(), Some(&official)));
    assert_eq!(base["mcp_servers"]["docs"]["command"].as_str(), Some("mcp"));
    assert_eq!(
        base["projects"]["x"]["trust_level"].as_str(),
        Some("trusted")
    );
    assert!(base.get("approval_policy").is_none());
    assert!(base["model_providers"].get("other").is_none());
    assert_eq!(base["model"].as_str(), Some("m"));
    assert!(!get_provider_config_base_inner(live, None).contains("experimental_bearer_token"));
}

#[test]
fn normal_saved_activation_preserves_current_common_for_full_and_thin_templates() {
    let mut saved = active_provider_fixture(7, "saved", "Saved", "model-b", "key");
    let draft = saved.toml_config.replace("model_reasoning_effort = 'high'\n".to_string());
    let draft = draft.unwrap();
    let base = parse("model = 'old'\nmodel_verbosity = 'low'\nmodel_provider = 'custom'\napproval_policy = 'never'\ndisable_response_storage = true\n[mcp_servers.live]\ncommand = 'live'\n[model_providers.custom]\nname = 'Old'\nexperimental_bearer_token = 't'\n[model_providers.other]\nname = 'Other'\n");
    let doc = provider_activation_document(&saved, &draft, base.clone()).unwrap();
    assert_eq!(doc["model"].as_str(), Some("model-b"));
    assert_eq!(doc["model_reasoning_effort"].as_str(), Some("high"));
    assert!(doc.get("model_verbosity").is_none());
    assert_eq!(doc["approval_policy"].as_str(), Some("never"));
    assert_eq!(doc["disable_response_storage"].as_bool(), Some(true));
    assert_eq!(doc["mcp_servers"]["live"]["command"].as_str(), Some("live"));
    assert_eq!(
        doc["model_providers"]["custom"]["name"].as_str(),
        Some("Saved")
    );
    assert_eq!(
        doc["model_providers"]["other"]["name"].as_str(),
        Some("Other")
    );
    assert!(!doc.to_string().contains("experimental_bearer_token"));
    assert!(provider_activation_document(&saved, "", base.clone()).is_err());
    assert!(provider_activation_document(&saved, "[", base.clone()).is_err());
    saved.toml_config = Some("[".to_string());
    assert!(provider_activation_document(&saved, &draft, base).is_err());
}

#[test]
fn recovered_common_survives_official_third_party_round_trip_with_auth_isolation() {
    let target = parse("model_provider = 'openai'\nmodel = ' official '\nchatgpt_base_url = 'https://o.example'\n[mcp_servers.stale]\ncommand = 'stale'\n");
    let base = parse("model_provider = 'custom'\nmodel = 'm'\napproval_policy = 'never'\nenv_key = 'VENDOR'\nhttp_headers = { Authorization = 'v' }\n[mcp_servers.live]\ncommand = 'live'\n[model_providers.custom]\nname = 'A'\nexperimental_bearer_token = 't'\n");
    assert!(official_activation_config_text("[", base.clone()).is_err());
    let (text, model) = official_activation_config_text(&target.to_string(), base).unwrap();
    let doc = parse(&text);
    assert_eq!(model.as_deref(), Some("official"));
    assert_eq!(doc["model_provider"].as_str(), Some("openai"));
    assert_eq!(
        doc["chatgpt_base_url"].as_str(),
        Some("https://o.example")
    );
    assert!(doc.get("model_providers").is_none());
    assert!(doc.get("env_key").is_none());
    assert!(doc.get("http_headers").is_none());
    assert_eq!(doc["approval_policy"].as_str(), Some("never"));
    assert_eq!(doc["mcp_servers"]["live"]["command"].as_str(), Some("live"));
    assert!(doc["mcp_servers"].get("stale").is_none());
}

#[test]
fn live_providers_have_one_credential() {
    let mut doc = parse("[p]\nbase_url = 'https://a.example'\nenv_key = 'K'\nauth = 'x'\nhttp_headers = { authorization = 'a', X-Route = 'keep' }\nexperimental_bearer_token = 'old'\n");
    let table = doc["p"].as_table_mut().unwrap();
    configure_live_provider_auth(table, &Some(" new ".to_string()), false);
    assert_eq!(table["experimental_bearer_token"].as_str(), Some("new"));
    assert!(!table.contains_key("env_key") && !table.contains_key("auth"));
    assert!(table["http_headers"].get("authorization").is_none());
    assert_eq!(table["http_headers"]["X-Route"].as_str(), Some("keep"));
    configure_live_provider_auth(table, &Some("new".to_string()), true);
    assert!(!table.contains_key("experimental_bearer_token"));
    match provider_auth_action(&Some(" key ".to_string())) {
        LiveAuthAction::Replace(auth) => {
            assert_eq!(auth["OPENAI_API_KEY"], "key");
            let bytes = serde_json::to_vec(&auth).unwrap();
            assert_eq!(live_auth_api_key(Some(&bytes)).as_deref(), Some("key"));
        }
        _ => panic!("a key was expected"),
    }
    assert!(matches!(
        provider_auth_action(&Some("  ".to_string())),
        LiveAuthAction::Remove
    ));
    assert!(live_auth_api_key(Some(b"not json")).is_none());
}

#[test]
fn detected_live_provider_only_captures_runtime_config_after_explicit_copy_selection() {
    let doc = parse("model_provider = 'custom'\nmodel = 'm'\n[model_providers.custom]\nname = 'Live'\nbase_url = 'https://a.example/v1/'\nexperimental_bearer_token = 'token'\n");
    let found = detected_live_custom_provider(&doc, None).unwrap().unwrap();
    assert_eq!(found.provider_name, "Live");
    assert_eq!(found.model, "m");
    assert_eq!(found.api_key.as_deref(), Some("token"));
    assert!(!found
        .toml_config
        .unwrap()
        .contains("experimental_bearer_token"));
    let official = parse("model_provider = 'openai'\nmodel = 'm'\n");
    assert!(detected_live_custom_provider(&official, None)
        .unwrap()
        .is_none());
}

#[test]
fn active_edits_and_deletions_concern_the_live_record() {
    let mut table = ProviderTable { rows: Vec::new() };
    let active = active_provider_fixture(1, "active", "Active", "m", "key-1");
    let other = active_provider_fixture(2, "other", "Other", "m", "key-2");
    save_provider_inner(&mut table, active.clone(), "now").unwrap();
    save_provider_inner(&mut table, other.clone(), "now").unwrap();
    let live = Some(active.clone());
    let saved = save_active_provider_with_apply(&table, active.clone(), &live, &None).unwrap();
    assert_eq!(saved.id, "active");
    assert!(save_active_provider_with_apply(&table, other.clone(), &live, &None).is_err());
    assert!(save_active_provider_with_apply(&table, active, &None, &None).is_err());
    let before = table.clone();
    assert!(delete_saved_provider_inner(&mut table, "active", &live, &mut None).is_err());
    assert!(delete_saved_provider_inner(&mut table, "  ", &live, &mut None).is_err());
    assert_eq!(table, before);
    let mut selected = Some("other".to_string());
    delete_saved_provider_inner(&mut table, " other ", &live, &mut selected).unwrap();
    assert!(selected.is_none());
    assert_eq!(table.rows.len(), 1);
    assert_eq!(table.rows[0].provider.id, "active");
}

#[test]
fn activations_take_their_configuration_from_the_policy() {
    let mut saved = active_provider_fixture(3, "a", "A", "m", "k");
    assert!(matches!(
        apply_saved_provider_with_policy_locked(&saved, false).unwrap(),
        ActivationSource::Activation
    ));
    assert!(matches!(
        apply_saved_provider_with_policy_locked(&saved, true).unwrap(),
        ActivationSource::Template
    ));
    saved.model_mappings = vec![ProviderModelMapping {
        model: "m".to_string(),
        display_name: "M".to_string(),
        context_window: None,
    }];
    let input = ProviderTomlInput {
        config_text: saved.toml_config.clone().unwrap(),
        api_key: Some("k".to_string()),
    };
    let merged =
        save_provider_toml_config_with_catalog_locked(&input, "", Some(&saved), false).unwrap();
    assert!(matches!(merged.catalog, CatalogStep::Publish { .. }));
    let prepared = prepare_merged_switch(&merged.doc, &merged.api_key);
    assert_eq!(prepared.message, "已切换到 A");
    assert!(prepared.replacement.ends_with('\n'));
    saved.wire_api = "chat".to_string();
    assert!(apply_saved_provider_with_policy_locked(&saved, false).is_err());
    saved.model_mappings.clear();
    saved.toml_config = None;
    assert!(matches!(
        apply_saved_provider_with_policy_locked(&saved, true).unwrap(),
        ActivationSource::Draft
    ));
}

#[test]
fn failures_report_what_could_not_be_undone() {
    let config = |text: &str| CodexxError::Config(text.to_string());
    assert_eq!(
        rollback_after_failure(config("a"), None, None),
        config("a")
    );
    let both = rollback_after_failure(config("a"), Some(config("b")), Some(config("c"))).text();
    assert!(both.contains("live 配置: 配置错误: b"));
    assert!(both.contains("官方快照: 配置错误: c"));
}

#[test]
fn official_switches_keep_or_replace_the_login() {
    let auth: Value = serde_json::from_str(r#"{"tokens":{"access_token":"x"}}"#).unwrap();
    let candidate = || {
        Some(OfficialCandidate {
            model: Some("m".to_string()),
            config_text: Some("model = 'm'".to_string()),
            auth: Some(auth.clone()),
        })
    };
    let switch = switch_official_provider_with_pre_persist(&candidate(), false);
    assert!(matches!(switch.auth_action, LiveAuthAction::Replace(_)));
    assert_eq!(switch.model.as_deref(), Some("m"));
    let switch = switch_official_provider_with_pre_persist(&None, false);
    assert!(matches!(switch.auth_action, LiveAuthAction::Remove));
    let switch = switch_official_provider_with_pre_persist(&None, true);
    assert!(matches!(switch.auth_action, LiveAuthAction::Keep));
    assert!(restore_official_provider_inner(None).is_err());
    let (restored, message) = restore_official_provider_inner(candidate()).unwrap();
    assert_eq!(restored.model.as_deref(), Some("m"));
    assert_eq!(message, "已还原 OpenAI Official 配置");
    let reset = reset_official_provider_inner(&Some(" m ".to_string()), &None);
    assert!(matches!(reset.auth_action, LiveAuthAction::Remove));
    let saved = save_official_config_inner(
        &None,
        &Some(auth.to_string()),
        &Some("model = 'm'".to_string()),
        &None,
        true,
    )
    .ok()
    .unwrap();
    assert_eq!(saved.auth, auth);
    assert!(saved.writes_live);
    assert!(
        save_official_config_inner(&None, &Some("[".to_string()), &None, &None, true).is_err()
    );
}

#[test]
fn removing_auth_publishes_official_route_before_deleting_credential() {
    let mut files = Files {
        config: Some(PROXY.to_vec()),
        auth: Some(br#"{"OPENAI_API_KEY": "proxy-key"}"#.to_vec()),
    };
    let old_auth = files.auth.clone();
    let write = begin(&files, OFFICIAL, Some(None));
    let done = files.run(write, |files| {
        assert_eq!(files.config.as_deref(), Some(OFFICIAL));
        assert_eq!(files.auth, old_auth);
        Ok(())
    });
    assert!(files.auth.is_none());
    for step in done.finish().unwrap().unwrap().rollback() {
        files.perform(&step).unwrap();
    }
    assert_eq!(files.config.as_deref(), Some(PROXY));
    assert_eq!(files.auth, old_auth);
}

#[test]
fn provider_toml_draft_preserves_full_config_without_writing_live_files() {
    let current = r#"# keep-draft-comment
model_provider = "custom"
model = "model-a"
model_reasoning_effort = "xhigh"
experimental_bearer_token = "sk-top-level"

[model_providers.custom]
name = "Provider A"
base_url = "https://a.example.com/v1"
wire_api = "responses"
requires_openai_auth = false
experimental_bearer_token = "sk-a"
request_max_retries = 5

[model_providers.other]
name = "Other"
base_url = "https://other.example.com/v1"
experimental_bearer_token = "sk-other"

[projects."/work/project"]
trust_level = "trusted"

[plugins."browser@openai-bundled"]
enabled = true

[features]
js_repl = false

[mcp_servers.docs]
command = "docs-server"
"#;
    let draft = build_provider_toml_draft_inner(
        SavedProvider {
            id: "provider-b".to_string(),
            provider_name: "Provider B".to_string(),
            base_url: "https://b.example.com/v1/".to_string(),
            model: "model-b".to_string(),
            api_key: Some("sk-b".to_string()),
            toml_config: None,
            wire_api: "responses".to_string(),
            requires_openai_auth: false,
            model_mappings: Vec::new(),
        },
        None,
        parse(current),
    )
    .expect("build full provider TOML draft");
    let doc = parse(&draft);

    assert!(draft.contains("# keep-draft-comment"));
    assert_eq!(doc["model"].as_str(), Some("model-b"));
    assert_eq!(doc["model_reasoning_effort"].as_str(), Some("xhigh"));
    assert_eq!(
        doc["model_providers"]["custom"]["name"].as_str(),
        Some("Provider B")
    );
    assert_eq!(
        doc["model_providers"]["custom"]["base_url"].as_str(),
        Some("https://b.example.com/v1")
    );
    assert_eq!(
        doc["model_providers"]["custom"]["request_max_retries"].as_integer(),
        Some(5)
    );
    assert_eq!(
        doc["projects"]["/work/project"]["trust_level"].as_str(),
        Some("trusted")
    );
    assert_eq!(
        doc["plugins"]["browser@openai-bundled"]["enabled"].as_bool(),
        Some(true)
    );
    assert_eq!(doc["features"]["js_repl"].as_bool(), Some(false));
    assert_eq!(
        doc["mcp_servers"]["docs"]["command"].as_str(),
        Some("docs-server")
    );
    assert!(doc.get("experimental_bearer_token").is_none());
    assert!(doc["model_providers"]
        .as_table()
        .expect("model providers table")
        .iter()
        .all(|(_, item)| item
            .as_table()
            .is_none_or(|table| table.get("experimental_bearer_token").is_none())));
    assert!(!draft.contains("sk-b"));
}

#[test]
fn thin_provider_draft_inherits_live_common_and_keeps_explicit_model_preferences() {
    let current = active_provider_fixture(70_001, "current", "Current", "old-model", "old-key");
    let base = parse(&format!(
        "{}{INHERITED_COMMON_FIXTURE}",
        current.toml_config.unwrap()
    ));
    let target = active_provider_fixture(70_002, "target", "Target", "new-model", "new-key");
    let mut template = parse(target.toml_config.as_deref().unwrap());
    template["model_reasoning_effort"] = value("low");
    template["disable_response_storage"] = value(true);
    template["model_context_window"] = value(128000);
    for new_provider in [true, false] {
        let draft = parse(
            &build_provider_toml_draft_with_origin_inner(
                target.clone(),
                Some(&template),
                base.clone(),
                new_provider,
            )
            .unwrap(),
        );
        assert_eq!(
            draft["mcp_servers"]["current"]["env"]["MCP_KEY"].as_str(),
            Some("current-mcp-key")
        );
        assert_eq!(draft["desktop"]["notifications"].as_bool(), Some(false));
        assert_eq!(
            draft["marketplaces"]["fixture"]["source"].as_str(),
            Some("current-local-source")
        );
        assert_eq!(
            draft["future_common"]["mode"].as_str(),
            Some("current-future-mode")
        );
        assert_eq!(draft["model"].as_str(), Some("new-model"));
        assert_eq!(draft["model_reasoning_effort"].as_str(), Some("low"));
        assert_eq!(draft["model_context_window"].as_integer(), Some(128000));
    }
}

#[test]
fn legacy_deepseek_template_activates_without_websocket_retries() {
    let mut target = active_provider_fixture(
        40_023,
        "old-deepseek",
        "DeepSeek",
        "deepseek-chat",
        "fixture-key",
    );
    target.base_url = "https://api.deepseek.com".into();
    let template = "model_provider='custom'\nmodel='deepseek-chat'\n[model_providers.custom]\nname='DeepSeek'\nbase_url='https://api.deepseek.com'\nwire_api='responses'\nrequires_openai_auth=false\nsupports_websockets=true\nrequest_max_retries=7\n";
    target.toml_config = Some(template.into());
    let activated =
        provider_activation_document(&target, template, DocumentMut::new()).unwrap();
    let (doc, _) = merge_provider_toml_into_live_with_policy(
        "",
        &activated.to_string(),
        &Some("fixture-key".to_string()),
        true,
    )
    .unwrap();
    assert_eq!(
        doc["model_providers"]["custom"]["supports_websockets"].as_bool(),
        Some(false)
    );
    assert_eq!(
        doc["model_providers"]["custom"]["request_max_retries"].as_integer(),
        Some(7)
    );
    assert_eq!(
        doc["model_providers"]["custom"]["base_url"].as_str(),
        Some("https://api.deepseek.com")
    );
}

#[test]
fn selected_record_wins_when_runtime_model_matches_a_same_api_sibling() {
    let tag = 50_002;
    let mut table = ProviderTable { rows: Vec::new() };
    let first = active_provider_fixture(tag, "first", "First", "first-model", "shared-key");
    let second = active_provider_fixture(tag, "second", "Second", "second-model", "shared-key");
    save_provider_inner(&mut table, first, "now").unwrap();
    let second = save_provider_inner(&mut table, second, "now").unwrap();
    let external = Some(active_provider_fixture(
        tag,
        "custom",
        "Second",
        "second-model",
        "shared-key",
    ));
    let selected = Some("first".to_string());
    assert!(save_active_provider_with_apply(&table, second, &external, &selected).is_err());
    let updated =
        active_provider_fixture(tag, "first", "Edited first", "edited-model", "shared-key");
    let saved = save_active_provider_with_apply(&table, updated, &external, &selected).unwrap();
    assert_eq!(saved.provider_name, "Edited first");
    let mut remembered = selected.clone();
    assert!(delete_saved_provider_inner(&mut table, "first", &external, &mut remembered).is_err());
    delete_saved_provider_inner(&mut table, "second", &external, &mut remembered).unwrap();
    assert_eq!(remembered, selected);
}

#[test]
fn unique_route_recovers_an_older_missing_selection_after_model_change() {
    let tag = 50_003;
    let mut table = ProviderTable { rows: Vec::new() };
    let saved = active_provider_fixture(tag, "id", "Saved", "before", "fixture-key");
    save_provider_inner(&mut table, saved, "now").unwrap();
    let external = Some(active_provider_fixture(
        tag,
        "custom",
        "External",
        "after",
        "fixture-key",
    ));
    let updated = active_provider_fixture(tag, "id", "Renamed", "saved-again", "fixture-key");
    let saved = save_active_provider_with_apply(&table, updated, &external, &None).unwrap();
    assert_eq!(saved.provider_name, "Renamed");
}

#[test]
fn active_provider_edit_rejects_a_different_live_credential_without_side_effects() {
    let mut table = ProviderTable { rows: Vec::new() };
    let saved = active_provider_fixture(9, "id", "Saved", "model", "key");
    save_provider_inner(&mut table, saved.clone(), "now").unwrap();
    let other = Some(active_provider_fixture(
        9,
        "custom",
        "Saved",
        "model",
        "another-key",
    ));
    assert!(save_active_provider_with_apply(&table, saved, &other, &None).is_err());
}

#[test]
fn templates_are_parsed_from_the_saved_text() {
    let mut saved = active_provider_fixture(4, "a", "A", "m", "k");
    let template = saved_template(&saved).unwrap().unwrap();
    assert_eq!(template["model"].as_str(), Some("m"));
    assert_eq!(
        saved_preferences(&saved).unwrap()["model_provider"].as_str(),
        Some("custom")
    );
    saved.toml_config = Some(" \n".to_string());
    assert!(saved_template(&saved).unwrap().is_none());
    saved.toml_config = Some("broken = [".to_string());
    assert!(saved_template(&saved).is_err());
    assert!(saved_preferences(&saved).is_err());
    saved.toml_config = None;
    assert!(saved_preferences(&saved).unwrap().is_empty());
}

fn finished(mut action: LiveAction, outcomes: Vec<Result<bool, CodexxError>>) -> LiveAction {
    for outcome in outcomes {
        action = action.advance(outcome);
    }
    action
}

#[test]
fn actions_do_their_parts_in_order() {
    for (kind, parts) in [
        (
            ActionKind::SwitchProvider,
            vec![
                ActionPart::Snapshot,
                ActionPart::Prepare,
                ActionPart::Write,
                ActionPart::State,
            ],
        ),
        (
            ActionKind::SaveProviderToml,
            vec![
                ActionPart::Snapshot,
                ActionPart::Prepare,
                ActionPart::Write,
                ActionPart::State,
                ActionPart::Mark,
            ],
        ),
        (
            ActionKind::OfficialLive,
            vec![
                ActionPart::Prepare,
                ActionPart::Write,
                ActionPart::Snapshot,
                ActionPart::State,
            ],
        ),
        (
            ActionKind::OfficialSaved,
            vec![ActionPart::Prepare, ActionPart::Snapshot, ActionPart::State],
        ),
    ] {
        let mut action = LiveAction::new(kind);
        for part in parts {
            assert_eq!(action.part(), Some(part));
            action = action.advance(Ok(true));
        }
        assert!(matches!(action.stage, ActionStage::Done));
        assert_eq!(action.part(), None);
    }
}

#[test]
fn failed_recovery_marker_write_rolls_back_live_files_and_keeps_recovery_available() {
    let failed = |text: &str| CodexxError::Config(text.to_string());
    let action = finished(
        LiveAction::new(ActionKind::SaveProviderToml),
        vec![Ok(true), Ok(false), Ok(true), Ok(false), Err(failed("marker"))],
    );
    assert!(matches!(action.stage, ActionStage::UndoLive(_)));
    let action = action.advance(Ok(true));
    assert!(matches!(action.stage, ActionStage::UndoSnapshot(_)));
    match action.advance(Ok(true)).stage {
        ActionStage::Failed(error) => assert_eq!(error, failed("marker")),
        _ => panic!("the action has failed"),
    }
    let blocked = finished(
        LiveAction::new(ActionKind::SwitchProvider),
        vec![
            Ok(true),
            Ok(false),
            Ok(true),
            Err(failed("state")),
            Err(failed("changed elsewhere")),
        ],
    );
    assert!(blocked.saved);
    match blocked.stage {
        ActionStage::Failed(error) => assert_eq!(
            error.text(),
            "配置错误: 配置错误: state；回滚失败：live 配置: 配置错误: changed elsewhere"
        ),
        _ => panic!("the action has failed"),
    }
    let early = finished(
        LiveAction::new(ActionKind::SwitchProvider),
        vec![Ok(false), Err(failed("prepare"))],
    );
    assert!(matches!(early.stage, ActionStage::Failed(_)));
    let official = finished(
        LiveAction::new(ActionKind::OfficialLive),
        vec![Ok(false), Ok(true), Err(failed("snapshot"))],
    );
    assert!(matches!(official.stage, ActionStage::UndoLive(_)));
}

#[test]
fn actions_record_what_they_change() {
    let snapshot = update_official_snapshot(None, Ok(()), Some(b"new".to_vec())).unwrap();
    let restore = snapshot.rollback();
    assert_eq!(restore.expected.as_deref(), Some(&b"new"[..]));
    assert!(restore.content.is_none());
    assert!(update_official_snapshot(
        None,
        Err(CodexxError::Config("x".to_string())),
        Some(b"new".to_vec())
    )
    .is_err());
    assert!(capture_live_official_snapshot(None, false, None).is_none());
    assert!(capture_live_official_snapshot(None, true, None).is_some());
    let result = finish_live_action("done".to_string(), None, Ok(3)).unwrap();
    assert!(result.ok);
    assert_eq!(result.state, 3);
    let undone = rollback_persisted_provider(
        CodexxError::Config("a".to_string()),
        Some(CodexxError::Config("b".to_string())),
    );
    assert_eq!(
        undone,
        CodexxError::Database("配置错误: a；供应商配置回滚失败: 配置错误: b".to_string())
    );
    let applied = finish_live_action("done".to_string(), None, Ok(3));
    let saved = finish_active_save(applied, None).unwrap();
    assert_eq!(saved.message, "供应商配置已保存并热更新");
    assert_eq!(saved.state, 3);
    let failed = || -> Result<ActionResult<u8>, CodexxError> {
        Err(CodexxError::Config("a".to_string()))
    };
    assert_eq!(
        finish_active_save(failed(), None).unwrap_err(),
        CodexxError::Config("a".to_string())
    );
    assert_eq!(
        finish_active_save(failed(), Some(CodexxError::Config("b".to_string()))).unwrap_err(),
        CodexxError::Database(
            "热更新供应商失败: 配置错误: a；数据库回滚也失败: 配置错误: b".to_string()
        )
    );
    let mut files = Files {
        config: None,
        auth: None,
    };
    let write = begin(&files, b"model = 'm'", None);
    let applied = files.run(write, |_| Ok(())).finish().unwrap().unwrap();
    assert_eq!(applied_config_text(&applied).unwrap(), "model = 'm'");
    let write = begin(&files, b"\xff", None);
    let applied = files.run(write, |_| Ok(())).finish().unwrap().unwrap();
    assert!(applied_config_text(&applied)
        .unwrap_err()
        .text()
        .contains("config.toml 不是有效 UTF-8"));
}

#[test]
fn saved_providers_are_activated_by_their_identifier() {
    let mut table = ProviderTable { rows: Vec::new() };
    let saved = active_provider_fixture(5, "a", "A", "m", "k");
    save_provider_inner(&mut table, saved, "now").unwrap();
    let found = activate_saved_provider_inner(&table, " a ").unwrap();
    assert_eq!(found.id, "a");
    assert!(matches!(
        apply_saved_provider_locked(&found).unwrap(),
        ActivationSource::Activation
    ));
    assert!(activate_saved_provider_inner(&table, "b").is_err());
    let input = ProviderTomlInput {
        config_text: found.toml_config.clone().unwrap(),
        api_key: None,
    };
    let merged = save_provider_toml_config_locked(&input, "").unwrap();
    assert_eq!(merged.doc["model"].as_str(), Some("m"));
    assert!(matches!(merged.catalog, CatalogStep::Keep));
}

#[test]
fn a_requested_configuration_is_trimmed_and_never_blank() {
    assert_eq!(
        requested_official_config(&Some(" model = 'm'\n".to_string())).as_deref(),
        Some("model = 'm'")
    );
    assert!(requested_official_config(&Some(" \n".to_string())).is_none());
    assert!(requested_official_config(&None).is_none());
}

#[test]
fn only_a_complete_template_needs_no_shared_configuration() {
    let provider_only: DocumentMut = "model = 'm'\nmodel_provider = 'custom'\n".parse().unwrap();
    let complete: DocumentMut = "model = 'm'\napproval_policy = 'never'\n".parse().unwrap();
    assert!(draft_needs_base(None));
    assert!(draft_needs_base(Some(&provider_only)));
    assert!(!draft_needs_base(Some(&complete)));
}

#[test]
fn an_official_activation_keeps_shared_settings_as_written() {
    let base: DocumentMut =
        "# ask\napproval_policy  =  'never' # always\nmodel = 'old'\nmodel_provider = 'custom'\n\n# mine\n[desktop]\nnotifications=false # quiet\n"
            .parse()
            .unwrap();
    let (text, model) = official_activation_config_text("model = \"official\"\n", base).unwrap();
    assert_eq!(model.as_deref(), Some("official"));
    assert!(text.starts_with("# ask\napproval_policy  =  'never' # always\n"));
    assert!(text.ends_with("# mine\n[desktop]\nnotifications=false # quiet\n"));
    assert!(text.contains("\"official\""));
    assert!(!text.contains("custom"));
}

#[test]
fn undoing_a_write_is_refused_where_auth_json_changed() {
    let mut files = Files {
        config: Some(OFFICIAL.to_vec()),
        auth: Some(b"old".to_vec()),
    };
    let write = begin(&files, PROXY, Some(Some(b"proxy-key")));
    let applied = files.run(write, |_| Ok(())).finish().unwrap().unwrap();
    files.auth = Some(b"external".to_vec());
    let failed = applied
        .rollback()
        .iter()
        .position(|step| files.perform(step).is_err());
    assert_eq!(failed, Some(1));
    assert_eq!(files.config.as_deref(), Some(PROXY));
    assert_eq!(files.auth.as_deref(), Some(&b"external"[..]));
}
