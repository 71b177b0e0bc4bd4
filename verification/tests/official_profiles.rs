use codexx::error::CodexxError;
use codexx::providers::live_files::{
    write_live_files_with_between_writes, LiveFile, LiveStage, LiveStep,
};
use codexx::providers::live_toml::LiveAuthAction;
use codexx::providers::official_display::parse_auth;
use codexx::providers::official_profiles::{
    active_profile_id, bounded_copy_name, delete_official_profile_inner, detail,
    duplicate_official_profile_inner, has_named_profiles, list_official_profiles_inner,
    listed_profiles, normalize_name, owned_auth_source, owned_live_auth, owned_saved_auth, profile_auth_action,
    profile_candidate, profile_name, read_live_official, reset_default_official_profile_inner, reset_needs_config, save_locked,
    select_profile, selected_profile_id, store_profile, LiveOfficial, Mutation, OfficialProfileDetail, OfficialProfileInput, ProfileCandidate,
    ProfileSource, StoreSnapshot, UndoStep,
};
use codexx::providers::profile_change::{ChangeStage, ProfileChange};
use codexx::providers::profile_switch::{
    save_official_profile_inner, switch_official_profile_with_before_apply, PreparedProfile,
    ProfileStep,
};
use serde_json::Value;
use toml_edit::DocumentMut;

const DEFAULT_OFFICIAL_PROFILE_ID: &str = "openai-official";
const NOW: &str = "2026-01-01T00:00:00Z";

fn auth(account: &str) -> Value {
    let mut value: Value =
        serde_json::from_str(r#"{"auth_mode":"chatgpt","tokens":{}}"#).unwrap();
    value["tokens"]["access_token"] = Value::from(format!("access-{account}"));
    value["tokens"]["refresh_token"] = Value::from(format!("refresh-{account}"));
    value["tokens"]["account_id"] = Value::from(account);
    value
}

fn config(account: &str) -> String {
    format!("model = \"model-{account}\"\nmodel_provider = \"openai\"\n")
}

fn store() -> StoreSnapshot {
    StoreSnapshot {
        profiles: Vec::new(),
        selection: None,
    }
}

fn candidate(account: &str) -> ProfileCandidate {
    ProfileCandidate {
        model: Some(format!("model-{account}")),
        config_text: Some(config(account)),
        auth: Some(auth(account)),
        source: "test".to_string(),
    }
}

fn live(account: &str) -> LiveOfficial {
    LiveOfficial {
        is_official: true,
        model: Some(format!("model-{account}")),
        auth: Some(auth(account)),
    }
}

fn detail_of(store: &StoreSnapshot, id: &str, account: &str) -> OfficialProfileDetail {
    detail(
        store,
        id,
        &Some(candidate(account)),
        "",
        &Some(auth(account)),
        true,
    )
    .ok()
    .unwrap()
}

fn input(name: &str, config_text: Option<&str>, auth_json: Option<&str>) -> OfficialProfileInput {
    OfficialProfileInput {
        id: None,
        provider_name: name.to_string(),
        model: None,
        config_text: config_text.map(str::to_string),
        auth_json: auth_json.map(str::to_string),
    }
}

#[test]
fn official_profiles_default_name_and_copy_preserve_complete_config_and_auth() {
    let mut store = store();
    let profiles = list_official_profiles_inner(&store, &live("a"), &vec![None]);
    assert_eq!(profiles.len(), 1);
    assert_eq!(profiles[0].id, DEFAULT_OFFICIAL_PROFILE_ID);
    assert!(profiles[0].is_current);

    store_profile(&mut store, DEFAULT_OFFICIAL_PROFILE_ID, "Work Account", NOW);
    assert_eq!(
        profile_name(&store, DEFAULT_OFFICIAL_PROFILE_ID).unwrap(),
        "Work Account"
    );
    let source = detail_of(&store, DEFAULT_OFFICIAL_PROFILE_ID, "a");
    let copy =
        duplicate_official_profile_inner(&store, &source, &Some("Work Copy".to_string()));
    assert!(copy.id.is_none());
    assert_eq!(copy.provider_name, "Work Copy");
    assert_eq!(copy.config_text.unwrap().trim_end(), config("a").trim_end());
    assert_eq!(
        serde_json::from_str::<Value>(&copy.auth_json.unwrap()).unwrap(),
        auth("a")
    );
    store_profile(&mut store, "official-copy", &copy.provider_name, NOW);
    assert_eq!(
        active_profile_id(&store, true).as_deref(),
        Some(DEFAULT_OFFICIAL_PROFILE_ID)
    );
    assert_eq!(listed_profiles(&store).len(), 2);
    assert!(has_named_profiles(&store));
    let second_copy =
        duplicate_official_profile_inner(&store, &source, &Some("Work Copy".to_string()));
    assert_eq!(second_copy.provider_name, "Work Copy 2");
}

#[test]
fn official_profile_copies_bound_unicode_names_and_numbered_suffixes() {
    let original_name = "账🦀".repeat(50);
    let mut store = store();
    store_profile(&mut store, DEFAULT_OFFICIAL_PROFILE_ID, &original_name, NOW);
    let source = detail_of(&store, DEFAULT_OFFICIAL_PROFILE_ID, "a");
    let mut names = std::collections::HashSet::new();

    for ordinal in 1..=12 {
        let copy = duplicate_official_profile_inner(&store, &source, &None);
        let suffix = if ordinal == 1 {
            " 副本".to_string()
        } else {
            format!(" 副本 {ordinal}")
        };
        assert_eq!(copy.provider_name.chars().count(), 100);
        assert!(copy.provider_name.ends_with(&suffix));
        store_profile(
            &mut store,
            &format!("copy-{ordinal}"),
            &copy.provider_name,
            NOW,
        );
        assert!(names.insert(copy.provider_name));
        assert_eq!(
            active_profile_id(&store, true).as_deref(),
            Some(DEFAULT_OFFICIAL_PROFILE_ID)
        );
    }
    let english = duplicate_official_profile_inner(
        &store,
        &source,
        &Some(format!("{original_name} Copy")),
    );
    assert_eq!(english.provider_name.chars().count(), 100);
    assert!(english.provider_name.ends_with(" Copy"));
    store_profile(&mut store, "english", &english.provider_name, NOW);
    let second_english = duplicate_official_profile_inner(
        &store,
        &source,
        &Some(format!("{original_name} Copy")),
    );
    assert_eq!(second_english.provider_name.chars().count(), 100);
    assert!(second_english.provider_name.ends_with(" Copy 2"));
    assert_eq!(
        profile_name(&store, DEFAULT_OFFICIAL_PROFILE_ID).unwrap(),
        original_name
    );
    assert_eq!(bounded_copy_name(" Name Copy ", Some(12)), "Name Copy 12");
    assert_eq!(bounded_copy_name("Name", None), "Name");
}

#[test]
fn official_profiles_empty_login_belongs_to_its_profile_and_deletion_is_guarded() {
    let mut store = store();
    let save = save_locked(
        &input("New Login", Some(&config("blank")), Some("")),
        &None,
        false,
    )
    .ok()
    .unwrap();
    assert_eq!(save.auth_text, "");
    assert!(!save.writes_live);
    let kept = parse_auth(&save.auth_text).unwrap();
    assert!(kept.is_none());
    assert!(
        matches!(profile_auth_action(&kept), LiveAuthAction::Remove),
        "blank login must never inherit default OAuth"
    );
    store_profile(&mut store, "blank", &save.name, NOW);
    select_profile(&mut store, "blank", NOW);
    let before = store.clone();
    assert!(delete_official_profile_inner(&mut store, "blank", true, NOW).is_err());
    assert!(
        delete_official_profile_inner(&mut store, DEFAULT_OFFICIAL_PROFILE_ID, true, NOW).is_err()
    );
    assert!(delete_official_profile_inner(&mut store, "unknown", true, NOW).is_err());
    assert_eq!(store, before);
    select_profile(&mut store, DEFAULT_OFFICIAL_PROFILE_ID, NOW);
    delete_official_profile_inner(&mut store, "blank", true, NOW).unwrap();
    assert_eq!(listed_profiles(&store).len(), 1);
}

#[test]
fn a_deleted_selection_falls_back_to_the_default_profile() {
    let mut store = store();
    store_profile(&mut store, "b", "Account B", NOW);
    select_profile(&mut store, "b", NOW);
    assert_eq!(selected_profile_id(&store), "b");
    assert_eq!(active_profile_id(&store, true).as_deref(), Some("b"));
    assert_eq!(active_profile_id(&store, false), None);
    delete_official_profile_inner(&mut store, "b", false, "later").unwrap();
    assert_eq!(selected_profile_id(&store), DEFAULT_OFFICIAL_PROFILE_ID);
    assert_eq!(
        store.selection,
        Some((DEFAULT_OFFICIAL_PROFILE_ID.to_string(), "later".to_string()))
    );
    select_profile(&mut store, "gone", NOW);
    assert_eq!(selected_profile_id(&store), DEFAULT_OFFICIAL_PROFILE_ID);
    assert!(!has_named_profiles(&store));
}

#[test]
fn official_profiles_reject_invalid_auth_and_third_party_config_without_writes() {
    for invalid in [
        "{",
        "{}",
        r#"{"other":"token"}"#,
        r#"{"auth_mode":"chatgpt","tokens":{"access_token":""}}"#,
        r#"{"OPENAI_API_KEY":"sk-proxy","base_url":"https://proxy.example.com"}"#,
    ] {
        assert!(parse_auth(invalid).is_err(), "{invalid}");
    }
    assert!(parse_auth(&auth("b").to_string()).unwrap().is_some());
}

#[test]
fn official_profiles_switch_rolls_back_files_snapshots_and_selection_on_database_failure() {
    let mut store = store();
    store_profile(&mut store, "b", "Account B", NOW);
    let mut mutation = Mutation::new(store.clone());
    assert!(mutation.undo_plan().is_empty());
    mutation.snapshot("a", Some(b"a".to_vec()), Some(b"a2".to_vec()));
    mutation.snapshot("b", None, Some(b"b".to_vec()));
    let mut write = write_live_files_with_between_writes(
        Some(b"old".to_vec()),
        None,
        b"new".to_vec(),
        None,
    );
    while !matches!(write.stage, LiveStage::Written) {
        write = write.advance(Ok(()));
    }
    mutation.live = Some(write.finish().unwrap().unwrap());
    let mut after = store.clone();
    select_profile(&mut after, "b", NOW);
    mutation.store_after = Some(after.clone());
    mutation.provider_saved = true;
    let plan = mutation.undo_plan();
    assert_eq!(plan.len(), 5);
    assert!(matches!(plan[0], UndoStep::Live));
    match &plan[1] {
        UndoStep::Snapshot {
            profile_id,
            expected,
            original,
        } => {
            assert_eq!(profile_id, "b");
            assert_eq!(expected.as_deref(), Some(&b"b"[..]));
            assert!(original.is_none());
        }
        _ => panic!("the last snapshot is put back first"),
    }
    assert!(matches!(&plan[2], UndoStep::Snapshot { profile_id, .. } if profile_id == "a"));
    assert!(matches!(plan[3], UndoStep::Store));
    assert!(matches!(plan[4], UndoStep::Provider));
    assert!(mutation.live.as_ref().unwrap().rollback().iter().any(
        |step| matches!(
            step,
            LiveStep::Restore {
                file: LiveFile::Config,
                original,
                ..
            } if original.as_deref() == Some(&b"old"[..])
        )
    ));
    assert_eq!(mutation.restored_store(&after).unwrap(), store);
    assert!(mutation
        .restored_store(&store)
        .unwrap_err()
        .text()
        .contains("拒绝覆盖"));
    let failed = |text: &str| CodexxError::Config(text.to_string());
    assert_eq!(
        Mutation::rollback(failed("injected"), None, &Vec::new()),
        failed("injected")
    );
    assert_eq!(
        Mutation::rollback(failed("a"), None, &vec![failed("b"), failed("c")]).text(),
        "配置错误: 配置错误: a；回滚失败：配置错误: b；配置错误: c"
    );
    assert!(
        Mutation::rollback(failed("a"), Some(failed("b")), &Vec::new())
            .text()
            .contains("已保留账号恢复快照")
    );
}

#[test]
fn official_profiles_default_reset_does_not_overwrite_a_named_account() {
    let mut store = store();
    store_profile(
        &mut store,
        DEFAULT_OFFICIAL_PROFILE_ID,
        "Default Renamed",
        NOW,
    );
    store_profile(&mut store, "b", "Account B", NOW);
    select_profile(&mut store, "b", NOW);
    let (reset, message) = reset_default_official_profile_inner(
        &store,
        &None,
        &Some(config("default-reset")),
        "built",
    );
    assert_eq!(message, "已新建默认官方配置，请在 Codex 中重新登录");
    assert_eq!(reset.id.as_deref(), Some(DEFAULT_OFFICIAL_PROFILE_ID));
    assert_eq!(reset.provider_name, "Default Renamed");
    assert_eq!(reset.auth_json.as_deref(), Some(""));
    assert_eq!(reset.config_text, Some(config("default-reset")));
    let save = save_locked(&reset, &None, true).ok().unwrap();
    assert!(save.writes_live);
    assert!(parse_auth(&save.auth_text).unwrap().is_none());
    let (built, _) =
        reset_default_official_profile_inner(&store, &None, &Some(" ".into()), "built");
    assert_eq!(built.config_text.as_deref(), Some("built"));
}

#[test]
fn official_profiles_api_key_login_with_optional_null_fields_remains_independent() {
    let api_auth = r#"{"auth_mode":"apikey","OPENAI_API_KEY":"sk-official","tokens":null,"last_refresh":null}"#;
    let kept = parse_auth(api_auth).unwrap();
    match profile_auth_action(&kept) {
        LiveAuthAction::Replace(value) => assert_eq!(
            value,
            serde_json::from_str::<Value>(api_auth).unwrap()
        ),
        _ => panic!("the key takes over"),
    }
}

#[test]
fn official_profiles_missing_snapshot_does_not_hide_other_profiles_or_prevent_deletion() {
    let mut store = store();
    store_profile(&mut store, "broken", "Broken Profile", NOW);
    let listed = list_official_profiles_inner(&store, &live("a"), &vec![None, None]);
    assert_eq!(listed.len(), 2);
    assert!(listed
        .iter()
        .any(|profile| profile.id == "broken" && !profile.has_auth));
    let error = detail(&store, "broken", &None, "built", &None, true)
        .err()
        .unwrap();
    assert!(error.text().contains("快照缺失，未使用其他账号替代"));
    delete_official_profile_inner(&mut store, "broken", true, NOW).unwrap();
    assert_eq!(listed_profiles(&store).len(), 1);
}

#[test]
fn official_profiles_startup_summary_skips_history_but_explicit_editor_can_recover_it() {
    let store = store();
    let proxy = LiveOfficial {
        is_official: false,
        model: Some("proxy-model".to_string()),
        auth: None,
    };
    let summaries = list_official_profiles_inner(&store, &proxy, &vec![None]);
    assert_eq!(summaries.len(), 1);
    assert!(
        !summaries[0].has_auth,
        "startup summary must not discover authentication from historical backups"
    );
    assert!(summaries[0].model.is_none());
    assert!(!summaries[0].is_current);
    let editor = detail(
        &store,
        DEFAULT_OFFICIAL_PROFILE_ID,
        &Some(candidate("a")),
        "",
        &None,
        false,
    )
    .ok()
    .unwrap();
    assert_eq!(
        serde_json::from_str::<Value>(&editor.auth_json).unwrap(),
        auth("a")
    );
    let built = detail(&store, DEFAULT_OFFICIAL_PROFILE_ID, &None, "built", &None, false)
        .ok()
        .unwrap();
    assert_eq!(built.config_text, "built");
    assert_eq!(built.source, "根据当前 config.toml 生成");
    assert_eq!(built.auth_json, "");
}

#[test]
fn official_quota_credentials_never_recover_history_or_a_proxy_login() {
    let mut store = store();
    store_profile(&mut store, "b", "Account B", NOW);
    assert_eq!(
        owned_auth_source(&store, DEFAULT_OFFICIAL_PROFILE_ID, Some(true)).unwrap(),
        ProfileSource::Live
    );
    assert_eq!(
        owned_auth_source(&store, DEFAULT_OFFICIAL_PROFILE_ID, Some(false)).unwrap(),
        ProfileSource::Snapshot
    );
    assert!(owned_auth_source(&store, DEFAULT_OFFICIAL_PROFILE_ID, None).is_err());
    assert_eq!(
        owned_auth_source(&store, "b", None).unwrap(),
        ProfileSource::Snapshot
    );
    assert!(owned_auth_source(&store, "unknown", Some(true)).is_err());
    assert_eq!(
        profile_candidate(&store, DEFAULT_OFFICIAL_PROFILE_ID).unwrap(),
        ProfileSource::Live
    );
    assert_eq!(
        profile_candidate(&store, "b").unwrap(),
        ProfileSource::Snapshot
    );
    assert!(owned_live_auth(None)
        .unwrap_err()
        .text()
        .contains("无法读取当前官方认证"));
    assert!(owned_live_auth(Some("{sensitive-test-marker"))
        .map_err(|error| assert!(!error.text().contains("sensitive-test-marker")))
        .is_err());
    assert!(owned_live_auth(Some("")).unwrap().is_none());
    assert_eq!(
        owned_saved_auth(Ok(Some(candidate("b")))).unwrap(),
        Some(auth("b"))
    );
    assert!(owned_saved_auth(Ok(None)).unwrap().is_none());
    assert!(owned_saved_auth(Err(CodexxError::Config("secret".to_string())))
        .unwrap_err()
        .text()
        .contains("请重新保存登录信息"));
    let official: DocumentMut = config("a").parse().unwrap();
    let login = auth("a").to_string();
    let live = read_live_official(&official, Some(&login));
    assert!(live.is_official);
    assert_eq!(live.model.as_deref(), Some("model-a"));
    assert_eq!(live.auth, Some(auth("a")));
    let proxy: DocumentMut = "model_provider = 'custom'\nmodel = ' '\n".parse().unwrap();
    let live = read_live_official(&proxy, Some(&login));
    assert!(!live.is_official && live.model.is_none() && live.auth.is_none());
    assert!(read_live_official(&official, Some("{")).auth.is_none());
}

#[test]
fn saves_keep_what_was_not_entered() {
    let mut store = store();
    store_profile(&mut store, "b", "Account B", NOW);
    let existing = detail_of(&store, DEFAULT_OFFICIAL_PROFILE_ID, "a");
    let save = save_locked(&input(" Renamed ", None, None), &Some(existing), false)
        .ok()
        .unwrap();
    assert_eq!(save.name, "Renamed");
    assert_eq!(save.message, "已保存官方配置 Renamed");
    assert_eq!(save.config_text, Some(config("a")));
    assert_eq!(
        serde_json::from_str::<Value>(&save.auth_text).unwrap(),
        auth("a")
    );
    assert!(save.writes_live);
    assert!(save_locked(&input("  ", None, None), &None, false).is_err());
    assert!(normalize_name(&"x".repeat(101)).is_err());
    assert_eq!(normalize_name(&"账".repeat(100)).unwrap().chars().count(), 100);
}

fn named(step: &ProfileStep) -> String {
    match step {
        ProfileStep::Capture { profile_id } => format!("capture {profile_id}"),
        ProfileStep::SaveProvider => "provider".to_string(),
        ProfileStep::Write => "write".to_string(),
        ProfileStep::Keep { profile_id } => format!("keep {profile_id}"),
        ProfileStep::Record {
            profile_id,
            name,
            select,
        } => format!(
            "record {profile_id} {name}{}",
            if *select { " selected" } else { "" }
        ),
        ProfileStep::Select { profile_id } => format!("select {profile_id}"),
    }
}

fn plan(prepared: &PreparedProfile) -> Vec<String> {
    prepared.steps.iter().map(named).collect()
}

/// Profiles, their kept credentials and the live credential, in memory.
struct Home {
    store: StoreSnapshot,
    official: bool,
    live: Option<Value>,
    kept: std::collections::HashMap<String, Option<Value>>,
}

impl Home {
    fn login(&self, id: &str) -> Option<Value> {
        if self.official && selected_profile_id(&self.store) == id {
            self.live.clone()
        } else {
            self.kept.get(id).cloned().flatten()
        }
    }

    fn perform(&mut self, prepared: PreparedProfile) {
        for step in &prepared.steps {
            match step {
                ProfileStep::Capture { profile_id } => {
                    self.kept.insert(profile_id.clone(), self.live.clone());
                }
                ProfileStep::SaveProvider => {}
                ProfileStep::Write => {
                    self.official = true;
                    self.live = match &prepared.auth_action {
                        LiveAuthAction::Replace(value) => Some(value.clone()),
                        LiveAuthAction::Remove => None,
                        LiveAuthAction::Keep => panic!("a profile owns its credential"),
                    };
                }
                ProfileStep::Keep { profile_id } => {
                    self.kept.insert(profile_id.clone(), prepared.auth.clone());
                }
                ProfileStep::Record {
                    profile_id,
                    name,
                    select,
                } => {
                    store_profile(&mut self.store, profile_id, name, NOW);
                    if *select {
                        select_profile(&mut self.store, profile_id, NOW);
                    }
                }
                ProfileStep::Select { profile_id } => {
                    select_profile(&mut self.store, profile_id, NOW)
                }
            }
        }
    }

    fn save(&mut self, id: &str, name: &str, login: &str) {
        let save = save_locked(&input(name, Some(&config(id)), Some(login)), &None, false)
            .ok()
            .unwrap();
        let prepared =
            save_official_profile_inner(&self.store, id, &save, false, self.official)
                .ok()
                .unwrap();
        self.perform(prepared);
    }

    fn switch(&mut self, id: &str) {
        let login = self.login(id);
        let candidate = ProfileCandidate {
            model: None,
            config_text: Some(config(id)),
            auth: login.clone(),
            source: "test".to_string(),
        };
        let target = detail(&self.store, id, &Some(candidate), "", &login, self.official)
            .ok()
            .unwrap();
        let prepared =
            switch_official_profile_with_before_apply(&self.store, &target, self.official)
                .ok()
                .unwrap();
        self.perform(prepared);
    }
}

#[test]
fn official_profiles_switch_accounts_and_preserve_refreshed_tokens_through_a_proxy() {
    let mut home = Home {
        store: store(),
        official: true,
        live: Some(auth("a")),
        kept: std::collections::HashMap::new(),
    };
    home.save("b", "Account B", &auth("b").to_string());
    assert_eq!(
        home.live,
        Some(auth("a")),
        "saving inactive B must not replace A"
    );
    home.switch("b");
    assert_eq!(
        active_profile_id(&home.store, home.official).as_deref(),
        Some("b")
    );
    assert_eq!(home.live, Some(auth("b")));
    home.live = Some(auth("b-refreshed"));
    home.kept.insert("b".to_string(), home.live.clone());
    home.official = false;
    home.live = Some(auth("unrelated-proxy-login"));
    home.switch(DEFAULT_OFFICIAL_PROFILE_ID);
    assert_eq!(home.live, Some(auth("a")));
    home.live = Some(auth("a-refreshed"));
    home.switch("b");
    assert_eq!(home.live, Some(auth("b-refreshed")));
    home.switch(DEFAULT_OFFICIAL_PROFILE_ID);
    assert_eq!(home.live, Some(auth("a-refreshed")));
    home.save("blank", "New Login", "");
    home.switch("blank");
    assert_eq!(home.live, None, "blank login must never inherit default OAuth");
    home.switch(DEFAULT_OFFICIAL_PROFILE_ID);
    assert_eq!(home.live, Some(auth("a-refreshed")));
}

#[test]
fn switches_and_saves_are_done_step_by_step() {
    let mut store = store();
    store_profile(&mut store, "b", "Account B", NOW);
    let target = detail_of(&store, "b", "b");
    let switch = switch_official_profile_with_before_apply(&store, &target, true)
        .ok()
        .unwrap();
    assert_eq!(
        plan(&switch),
        [
            "capture openai-official",
            "provider",
            "write",
            "keep b",
            "select b"
        ]
    );
    assert_eq!(switch.message, "已切换到 Account B");
    assert_eq!(switch.auth, Some(auth("b")));
    let mut empty = detail_of(&store, "b", "b");
    empty.auth_json = String::new();
    empty.profile.has_auth = false;
    let switch = switch_official_profile_with_before_apply(&store, &empty, false)
        .ok()
        .unwrap();
    assert_eq!(plan(&switch), ["provider", "write", "keep b", "select b"]);
    assert_eq!(switch.message, "已切换到 Account B，请在 Codex 中完成登录");
    assert!(matches!(switch.auth_action, LiveAuthAction::Remove));
    empty.auth_json = "{}".to_string();
    assert!(switch_official_profile_with_before_apply(&store, &empty, false).is_err());

    let save = save_locked(&input("Name", None, Some("")), &None, false)
        .ok()
        .unwrap();
    let prepared = save_official_profile_inner(&store, "c", &save, false, true)
        .ok()
        .unwrap();
    assert_eq!(plan(&prepared), ["keep c", "record c Name"]);
    assert_eq!(prepared.message, "已保存官方配置 Name");
    let save = save_locked(&input("Name", None, Some("")), &None, true)
        .ok()
        .unwrap();
    let prepared = save_official_profile_inner(&store, "c", &save, true, true)
        .ok()
        .unwrap();
    assert_eq!(
        plan(&prepared),
        [
            "capture openai-official",
            "provider",
            "write",
            "keep c",
            "record c Name selected"
        ]
    );
    let save = save_locked(&input("Invalid", None, Some("{")), &None, false)
        .ok()
        .unwrap();
    assert!(save_official_profile_inner(&store, "c", &save, false, true).is_err());
}

#[test]
fn profiles_are_listed_by_when_they_were_created_and_their_identifiers() {
    let mut store = StoreSnapshot {
        profiles: Vec::new(),
        selection: None,
    };
    for (id, now) in [("b", "2"), ("c", "1"), ("a", "2"), ("d", "3")] {
        store_profile(&mut store, id, id, now);
    }
    let ids = |store: &StoreSnapshot| {
        store
            .profiles
            .iter()
            .map(|profile| profile.id.clone())
            .collect::<Vec<_>>()
    };
    assert_eq!(ids(&store), ["c", "a", "b", "d"]);
    store_profile(&mut store, "c", "renamed", "9");
    assert_eq!(ids(&store), ["c", "a", "b", "d"]);
    assert_eq!(store.profiles[0].provider_name, "renamed");
    assert_eq!(store.profiles[0].created_at, "1");
}

#[test]
fn failed_changes_undo_what_they_did() {
    let failed = |text: &str| Err(CodexxError::Config(text.to_string()));
    let mut mutation = Mutation::new(store());
    mutation.snapshot("a", None, Some(b"1".to_vec()));
    mutation.store_after = Some(store());
    let mut change = ProfileChange::new(2).advance(Ok(()), &mutation);
    assert!(matches!(change.stage, ChangeStage::Do(1)));
    change = change.advance(failed("first"), &mutation);
    assert!(matches!(
        &change.stage,
        ChangeStage::Undo { plan, at: 0, .. } if matches!(plan[0], UndoStep::Snapshot { .. })
    ));
    change = change.advance(failed("second"), &mutation);
    assert!(matches!(
        &change.stage,
        ChangeStage::Undo { plan, at: 1, .. } if matches!(plan[1], UndoStep::Store)
    ));
    change = change.advance(Ok(()), &mutation);
    match &change.stage {
        ChangeStage::Failed(error) => assert_eq!(
            error.text(),
            "配置错误: 配置错误: first；回滚失败：配置错误: second"
        ),
        _ => panic!("the change has failed"),
    }
    let untouched = Mutation::new(store());
    let change = ProfileChange::new(1).advance(failed("alone"), &untouched);
    assert!(matches!(&change.stage, ChangeStage::Failed(error) if error.text().ends_with("alone")));
    let change = ProfileChange::new(1).advance(Ok(()), &untouched);
    assert!(matches!(change.stage, ChangeStage::Done));
}

#[test]
fn a_reset_makes_a_configuration_only_where_none_was_given() {
    assert!(reset_needs_config(&None));
    assert!(reset_needs_config(&Some(" \n".to_string())));
    assert!(!reset_needs_config(&Some("model = 'm'".to_string())));
}
