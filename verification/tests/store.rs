use codexx::error::CodexxError;
use codexx::providers::model_catalog::ProviderModelMapping;
use codexx::providers::store::{
    canonical_provider_base_url, compatible_provider_match, custom_provider_id,
    effective_provider_api_key, is_historical_custom_provider_id, matching_saved_provider_ids,
    normalize_saved_provider, normalized_provider_name, reserved_codex_provider_id, strip_provider_bearer_tokens,
    unique_saved_provider_id_for_live, SavedProvider,
};
use codexx::providers::table::{
    consolidate_legacy_provider_duplicates, delete_provider_inner, duplicate_provider_inner,
    list_saved_providers_inner, provider_by_id, reconcile_active_provider,
    rollback_provider_store_inner, save_detected_provider_with_rollback, save_provider_inner,
    save_provider_with_rollback, selection_after_delete, stored_providers, upsert_ccswitch_provider,
    upsert_provider_with_origin, write_provider_with_origin, DuplicateProviderResult, ProviderTable,
    ProviderUpsertKind, ProviderUpsertMode, ProviderUpsertResult, StoredProvider,
};
use toml_edit::DocumentMut;

const NOW: &str = "2026-01-01T00:00:00Z";
const MANUAL_PROVIDER_SOURCE: &str = "manual";
const CCSWITCH_PROVIDER_SOURCE: &str = "cc-switch";
const CCSWITCH_LOCAL_PROVIDER_SOURCE: &str = "cc-switch-local";

fn table() -> ProviderTable {
    ProviderTable { rows: Vec::new() }
}

fn provider(id: &str, name: &str, api_key: Option<&str>) -> SavedProvider {
    SavedProvider {
        id: id.to_string(),
        provider_name: name.to_string(),
        base_url: "https://example.com/v1".to_string(),
        model: "gpt-5.5".to_string(),
        api_key: api_key.map(ToString::to_string),
        toml_config: None,
        wire_api: "responses".to_string(),
        requires_openai_auth: true,
        model_mappings: Vec::new(),
    }
}

fn provider_count(conn: &mut ProviderTable) -> usize {
    list_saved_providers_inner(conn).len()
}

fn save_manual_provider_on_connection(
    conn: &mut ProviderTable,
    provider: SavedProvider,
) -> Result<SavedProvider, CodexxError> {
    save_provider_inner(conn, provider, NOW)
}

fn provider_by_id_on_connection(
    conn: &mut ProviderTable,
    id: &str,
) -> Result<Option<SavedProvider>, CodexxError> {
    Ok(provider_by_id(conn, id))
}

fn list_saved_providers_on_connection(
    conn: &mut ProviderTable,
) -> Result<Vec<SavedProvider>, CodexxError> {
    Ok(list_saved_providers_inner(conn))
}

fn stored_providers_on_connection(
    conn: &mut ProviderTable,
) -> Result<Vec<StoredProvider>, CodexxError> {
    Ok(stored_providers(conn))
}

fn upsert_ccswitch_provider_on_connection(
    conn: &mut ProviderTable,
    provider: SavedProvider,
    source_id: &str,
) -> Result<ProviderUpsertResult, CodexxError> {
    upsert_ccswitch_provider(conn, provider, source_id, NOW)
}

fn upsert_provider_on_connection(
    conn: &mut ProviderTable,
    provider: SavedProvider,
    mode: ProviderUpsertMode,
) -> Result<ProviderUpsertResult, CodexxError> {
    Ok(upsert_provider_with_origin(conn, provider, mode, None, NOW))
}

fn write_with_origin(
    conn: &mut ProviderTable,
    provider: &SavedProvider,
    origin: Option<(&str, &str)>,
) -> Result<(), CodexxError> {
    write_provider_with_origin(conn, provider, origin, NOW);
    Ok(())
}

fn write_provider_on_connection(
    conn: &mut ProviderTable,
    provider: &SavedProvider,
) -> Result<(), CodexxError> {
    write_with_origin(conn, provider, None)
}

fn consolidate_legacy_provider_duplicates_on_connection(
    conn: &mut ProviderTable,
) -> Result<usize, CodexxError> {
    Ok(consolidate_legacy_provider_duplicates(conn))
}

/// Copies a provider and keeps the active one selected, as one transaction.
fn duplicate_provider_on_connection(
    conn: &mut ProviderTable,
    selected: &mut Option<String>,
    live: Option<SavedProvider>,
    provider_id: Option<&str>,
    provider_name: Option<&str>,
) -> Result<DuplicateProviderResult, CodexxError> {
    let result =
        duplicate_provider_inner(conn, live, provider_id, provider_name, selected, NOW)?;
    *selected = result.active_provider_id.clone();
    Ok(result)
}

#[test]
fn model_mappings_roundtrip_and_copy_preserve_independent_records() {
    let mut conn = table();
    let mut selected: Option<String> = None;
    let mut original = provider("mapping-original", "Original", Some("fixture-key"));
    original.model_mappings = vec![
        ProviderModelMapping {
            model: " gpt-5.5 ".into(),
            display_name: "GPT".into(),
            context_window: None,
        },
        ProviderModelMapping {
            model: "deepseek-chat".into(),
            display_name: "DeepSeek".into(),
            context_window: Some(128000),
        },
    ];
    let original = save_manual_provider_on_connection(&mut conn, original).unwrap();
    assert_eq!(original.model_mappings[0].model, "gpt-5.5");
    assert_eq!(
        provider_by_id_on_connection(&mut conn, &original.id)
            .unwrap()
            .unwrap()
            .model_mappings,
        original.model_mappings
    );
    let copied = duplicate_provider_on_connection(&mut conn, &mut selected,
        Some(original.clone()),
        Some(&original.id),
        None,
    )
    .unwrap();
    assert_ne!(copied.provider.id, original.id);
    assert_eq!(copied.provider.model_mappings, original.model_mappings);
    let mut detected = original.clone();
    detected.id = "custom".into();
    detected.model = "deepseek-chat".into();
    detected.model_mappings.clear();
    let detected_copy = duplicate_provider_on_connection(&mut conn, &mut selected,
        Some(detected),
        None,
        None,
    )
    .unwrap();
    assert_eq!(
        detected_copy.provider.model_mappings,
        original.model_mappings
    );
    let mut edited = copied.provider;
    edited.model_mappings[1].display_name = "Independent copy".into();
    save_manual_provider_on_connection(&mut conn, edited).unwrap();
    assert_eq!(
        provider_by_id_on_connection(&mut conn, &original.id)
            .unwrap()
            .unwrap()
            .model_mappings,
        original.model_mappings
    );
}

#[test]
fn cc_switch_refresh_preserves_locally_saved_model_mappings() {
    let mut conn = table();
    let mut original = provider("mapping-import", "Imported", Some("fixture-key"));
    original.model_mappings = vec![ProviderModelMapping {
        model: "gpt-5.5".into(),
        display_name: "Local label".into(),
        context_window: Some(256000),
    }];
    upsert_ccswitch_provider_on_connection(&mut conn, original.clone(), "mapping-source").unwrap();
    let incoming = provider("external-id", "Fresh import", Some("fixture-key"));
    let refreshed =
        upsert_ccswitch_provider_on_connection(&mut conn, incoming, "mapping-source").unwrap();
    assert_eq!(refreshed.provider.id, original.id);
    assert_eq!(refreshed.provider.provider_name, "Fresh import");
    assert_eq!(refreshed.provider.model_mappings, original.model_mappings);
}

#[test]
fn model_mapping_rollback_restores_mappings_and_origin_metadata() {
    let mut original = provider("mapping-rollback-record", "Original", Some("fixture-key"));
    original.model_mappings = vec![ProviderModelMapping {
        model: "gpt-5.5".into(),
        display_name: "Original model".into(),
        context_window: Some(128000),
    }];
    let mut conn = table();
    upsert_ccswitch_provider_on_connection(&mut conn, original.clone(), "mapping-rollback-source")
        .unwrap();
    let before = conn.clone();
    let mut changed = original.clone();
    changed.model_mappings[0].display_name = "Changed".into();
    changed.model_mappings[0].context_window = Some(1000000);
    let (_, rollback) = save_provider_with_rollback(&mut conn, changed, "later").unwrap();
    assert_ne!(conn, before);
    rollback_provider_store_inner(&mut conn, &rollback).unwrap();
    assert_eq!(
        provider_by_id_on_connection(&mut conn, &original.id)
            .unwrap()
            .unwrap()
            .model_mappings,
        original.model_mappings
    );
    assert_eq!(conn, before);
    let mut selected = Some(original.id.clone());
    delete_provider_inner(&mut conn, &mut selected, &original.id);
    assert!(selected.is_none());
    assert!(conn.rows.is_empty());
}

#[test]
fn immediate_copy_preserves_original_selection_and_complete_template() {
    let mut conn = table();
    let mut selected: Option<String> = None;
    let mut original = provider("original", "Original", Some("fixture-key"));
    original.toml_config = Some("model = \"gpt-5.5\"\nmodel_provider = \"custom\"\nmodel_context_window = 1000000\n[model_providers.custom]\nname = \"Original\"\nbase_url = \"https://example.com/v1\"\nwire_api = \"responses\"\n[mcp_servers.keep]\ncommand = \"fixture\"\n".to_string());
    let original = save_manual_provider_on_connection(&mut conn, original).unwrap();
    let first = duplicate_provider_on_connection(&mut conn, &mut selected,
        Some(original.clone()),
        Some(&original.id),
        None,
    )
    .unwrap();
    assert_eq!(
        first.active_provider_id.as_deref(),
        Some(original.id.as_str())
    );
    assert_ne!(first.provider.id, original.id);
    assert_eq!(first.provider.api_key, original.api_key);
    assert_eq!(first.provider.provider_name, "Original 副本");
    let config = first
        .provider
        .toml_config
        .as_ref()
        .unwrap()
        .parse::<DocumentMut>()
        .unwrap();
    assert_eq!(config["model_context_window"].as_integer(), Some(1_000_000));
    assert_eq!(
        config["mcp_servers"]["keep"]["command"].as_str(),
        Some("fixture")
    );
    assert_eq!(
        provider_by_id_on_connection(&mut conn, &original.id)
            .unwrap()
            .unwrap(),
        original
    );
    let second = duplicate_provider_on_connection(&mut conn, &mut selected,
        Some(original.clone()),
        Some(&original.id),
        None,
    )
    .unwrap();
    assert_eq!(second.provider.provider_name, "Original 副本 2");
    assert_eq!(
        second.active_provider_id.as_deref(),
        Some(original.id.as_str())
    );
    assert_ne!(second.provider.id, first.provider.id);
}

#[test]
fn immediate_copy_adopts_detected_original_without_enabling_the_copy() {
    let mut conn = table();
    let mut selected: Option<String> = None;
    let live = provider("custom", "Detected", Some("fixture-key"));
    let result =
        duplicate_provider_on_connection(&mut conn, &mut selected, Some(live.clone()), None, None)
            .unwrap();
    assert_eq!(result.providers.len(), 2);
    let original = result
        .providers
        .iter()
        .find(|provider| provider.id != result.provider.id)
        .unwrap();
    assert_eq!(original.provider_name, live.provider_name);
    assert_eq!(
        result.active_provider_id.as_deref(),
        Some(original.id.as_str())
    );
    assert_ne!(
        result.active_provider_id.as_deref(),
        Some(result.provider.id.as_str())
    );
}

#[test]
fn failed_immediate_copy_rolls_back_detected_adoption_and_selection() {
    let mut conn = table();
    let result = duplicate_provider_inner(
        &mut conn,
        Some(provider("custom", "Detected", Some("fixture-key"))),
        None,
        Some("your-provider"),
        &None,
        NOW,
    );
    assert!(result.is_err());
    assert_eq!(provider_count(&mut conn), 0);
}

#[test]
fn provider_upsert_uses_record_ids_and_stable_import_sources() {
    let mut stable = table();
    let mut existing = provider("cc-stable-id", "Old name", Some("sk-old"));
    existing.toml_config = Some("model = \"locally-preserved\"".to_string());
    upsert_ccswitch_provider_on_connection(&mut stable, existing, "source-row").unwrap();
    let mut imported = provider("cc-stable-id", "Current CCS name", Some("sk-new"));
    imported.model = "gpt-5.6".to_string();
    let updated =
        upsert_ccswitch_provider_on_connection(&mut stable, imported.clone(), "source-row")
            .unwrap();
    assert_eq!(updated.kind, ProviderUpsertKind::Updated);
    assert_eq!(updated.provider.api_key.as_deref(), Some("sk-new"));
    assert_eq!(updated.provider.provider_name, "Current CCS name");
    assert_eq!(updated.provider.model, "gpt-5.6");
    assert!(updated.provider.toml_config.is_some());
    upsert_ccswitch_provider_on_connection(&mut stable, imported, "source-row").unwrap();
    assert_eq!(provider_count(&mut stable), 1);

    let mut moved = provider("cc-stable-id", "Moved CCS provider", Some("sk-moved"));
    moved.base_url = "https://moved.example.com/v1".to_string();
    let moved = upsert_ccswitch_provider_on_connection(&mut stable, moved, "source-row")
        .expect("update stable CCS source after endpoint change");
    assert_eq!(moved.kind, ProviderUpsertKind::Updated);
    assert_eq!(moved.provider.base_url, "https://moved.example.com/v1");
    assert_eq!(moved.provider.api_key.as_deref(), Some("sk-moved"));
    assert_eq!(provider_count(&mut stable), 1);

    let mut id_collision = table();
    let manual = provider("shared-id", "Manual", Some("sk-manual"));
    upsert_provider_on_connection(&mut id_collision, manual, ProviderUpsertMode::Manual).unwrap();
    let mut external = provider("shared-id", "Imported", Some("sk-imported"));
    external.base_url = "https://imported.example.com/v1".to_string();
    let imported = upsert_ccswitch_provider_on_connection(&mut id_collision, external, "shared-id")
        .expect("import id collision without overwriting manual record");
    assert_eq!(imported.kind, ProviderUpsertKind::Added);
    assert_eq!(imported.provider.id, "shared-id-2");
    assert_eq!(
        provider_by_id_on_connection(&mut id_collision, "shared-id")
            .unwrap()
            .unwrap()
            .api_key
            .as_deref(),
        Some("sk-manual")
    );
    let mut changed = provider("shared-id", "Imported changed", Some("sk-next"));
    changed.base_url = "https://next.example.com/v1".to_string();
    let changed = upsert_ccswitch_provider_on_connection(&mut id_collision, changed, "shared-id")
        .expect("update imported row by source identity");
    assert_eq!(changed.provider.id, "shared-id-2");
    assert_eq!(changed.provider.base_url, "https://next.example.com/v1");
    assert_eq!(provider_count(&mut id_collision), 2);

    let mut compatible = table();
    upsert_provider_on_connection(&mut compatible,
        provider("local", "Same API", None),
        ProviderUpsertMode::Manual,
    )
    .unwrap();
    let added = upsert_ccswitch_provider_on_connection(&mut compatible,
        provider("cc-import", " same   api ", Some("sk-imported")),
        "compatible-row",
    )
    .unwrap();
    assert_eq!(added.kind, ProviderUpsertKind::Added);
    assert_eq!(added.provider.id, "cc-import");
    assert_eq!(added.provider.api_key.as_deref(), Some("sk-imported"));
    assert_eq!(provider_count(&mut compatible), 2);

    let mut distinct = table();
    upsert_provider_on_connection(&mut distinct,
        provider("local", "Same API", Some("sk-first")),
        ProviderUpsertMode::Manual,
    )
    .unwrap();
    let added = upsert_ccswitch_provider_on_connection(&mut distinct,
        provider("cc-import", "Same API", Some("sk-second")),
        "distinct-row",
    )
    .unwrap();
    assert_eq!(added.kind, ProviderUpsertKind::Added);
    assert_eq!(provider_count(&mut distinct), 2);
}

#[test]
fn provider_upsert_keeps_manual_profiles_with_distinct_ids() {
    let mut conn = table();
    let mut gpt = provider("gpt-profile", "Same API", Some("sk-shared"));
    gpt.model = "gpt-5.6".to_string();
    let added = upsert_provider_on_connection(&mut conn, gpt.clone(), ProviderUpsertMode::Manual)
        .expect("save GPT profile");
    assert_eq!(added.kind, ProviderUpsertKind::Added);

    let exact_copy = SavedProvider {
        id: "gpt-copy".to_string(),
        ..gpt.clone()
    };
    let added = upsert_provider_on_connection(&mut conn, exact_copy, ProviderUpsertMode::Manual)
        .expect("save an identical profile under a different ID");
    assert_eq!(added.kind, ProviderUpsertKind::Added);
    assert_eq!(added.provider.id, "gpt-copy");

    let renamed_copy = SavedProvider {
        id: "gpt-renamed".to_string(),
        provider_name: "Renamed API".to_string(),
        ..gpt.clone()
    };
    let added = upsert_provider_on_connection(&mut conn, renamed_copy, ProviderUpsertMode::Manual)
        .expect("save a renamed profile under a different ID");
    assert_eq!(added.kind, ProviderUpsertKind::Added);

    let edited = SavedProvider {
        provider_name: "Edited GPT".to_string(),
        ..gpt
    };
    let updated = upsert_provider_on_connection(&mut conn, edited, ProviderUpsertMode::Manual)
        .expect("update the profile with the same ID");
    assert_eq!(updated.kind, ProviderUpsertKind::Updated);
    assert_eq!(updated.provider.id, "gpt-profile");
    assert_eq!(updated.provider.provider_name, "Edited GPT");

    let mut deepseek = provider("deepseek-profile", "Renamed API", Some("sk-shared"));
    deepseek.model = " deepseek-v3 ".to_string();
    let added = upsert_provider_on_connection(&mut conn, deepseek, ProviderUpsertMode::Manual)
        .expect("save DeepSeek profile with shared credentials");
    assert_eq!(added.kind, ProviderUpsertKind::Added);
    assert_eq!(provider_count(&mut conn), 4);
}

#[test]
fn provider_listing_preserves_insertion_order_when_timestamps_match() {
    let mut conn = table();
    for id in ["z-original", "m-sibling", "a-copy"] {
        write_provider_on_connection(&mut conn, &provider(id, id, Some("sk-shared")))
            .expect("insert provider");
    }
    conn.rows[0].updated_at = "2026-03-01T00:00:00Z".to_string();
    conn.rows[1].updated_at = "2026-02-01T00:00:00Z".to_string();
    conn.rows[2].updated_at = "2026-01-01T00:00:00Z".to_string();

    let listed_ids = list_saved_providers_on_connection(&mut conn)
        .expect("list providers")
        .into_iter()
        .map(|provider| provider.id)
        .collect::<Vec<_>>();
    assert_eq!(listed_ids, ["z-original", "m-sibling", "a-copy"]);

    let mut edited = provider("z-original", "Edited original", Some("sk-shared"));
    edited.model = "gpt-5.6".to_string();
    upsert_provider_on_connection(&mut conn, edited, ProviderUpsertMode::Manual)
        .expect("update first provider");
    let listed_ids = list_saved_providers_on_connection(&mut conn)
        .expect("list providers after edit")
        .into_iter()
        .map(|provider| provider.id)
        .collect::<Vec<_>>();
    assert_eq!(listed_ids, ["z-original", "m-sibling", "a-copy"]);
}

#[test]
fn manual_save_preserves_an_existing_legacy_reserved_id() {
    let mut conn = table();
    let legacy = provider("custom", "Legacy Provider", Some("sk-legacy"));
    write_provider_on_connection(&mut conn, &legacy).expect("seed legacy custom record");

    let edited = SavedProvider {
        provider_name: "Edited Legacy Provider".to_string(),
        ..legacy
    };
    let saved = save_manual_provider_on_connection(&mut conn, edited)
        .expect("edit the existing legacy custom record");

    assert_eq!(saved.id, "custom");
    assert_eq!(saved.provider_name, "Edited Legacy Provider");
    assert_eq!(provider_count(&mut conn), 1);
    assert!(provider_by_id_on_connection(&mut conn, "custom-custom")
        .expect("look up normalized duplicate")
        .is_none());
}

#[test]
fn ccswitch_import_keeps_ambiguous_manual_profiles_and_updates_by_source_id() {
    let mut conn = table();
    let first = provider("manual-one", "Same API", Some("sk-shared"));
    let second = SavedProvider {
        id: "manual-two".to_string(),
        ..first.clone()
    };
    upsert_provider_on_connection(&mut conn, first, ProviderUpsertMode::Manual)
        .expect("save first manual profile");
    upsert_provider_on_connection(&mut conn, second, ProviderUpsertMode::Manual)
        .expect("save second manual profile");

    let imported = provider("cc-profile", "Same API", Some("sk-shared"));
    let added = upsert_ccswitch_provider_on_connection(&mut conn, imported.clone(), "cc-source-id")
        .expect("import alongside ambiguous manual profiles");
    assert_eq!(added.kind, ProviderUpsertKind::Added);
    assert_eq!(added.provider.id, "cc-profile");
    assert_eq!(provider_count(&mut conn), 3);

    let repeated = SavedProvider {
        provider_name: "Updated from CC Switch".to_string(),
        ..imported
    };
    let updated = upsert_ccswitch_provider_on_connection(&mut conn, repeated, "cc-source-id")
        .expect("update the same imported source row");
    assert_eq!(updated.kind, ProviderUpsertKind::Updated);
    assert_eq!(updated.provider.id, "cc-profile");
    assert_eq!(updated.provider.provider_name, "Updated from CC Switch");
    assert_eq!(provider_count(&mut conn), 3);
}

#[test]
fn ccswitch_import_keeps_a_manual_copy_of_its_current_profile() {
    let mut conn = table();
    let imported = provider("cc-profile", "Same API", Some("sk-shared"));
    upsert_ccswitch_provider_on_connection(&mut conn, imported.clone(), "cc-source-id")
        .expect("seed imported profile");
    let manual_copy = SavedProvider {
        id: "manual-copy".to_string(),
        ..imported.clone()
    };
    upsert_provider_on_connection(&mut conn, manual_copy, ProviderUpsertMode::Manual)
        .expect("save manual copy");

    let updated = upsert_ccswitch_provider_on_connection(&mut conn, imported, "cc-source-id")
        .expect("refresh imported profile by source ID");
    assert_eq!(updated.kind, ProviderUpsertKind::Updated);
    assert_eq!(updated.provider.id, "cc-profile");
    assert_eq!(provider_count(&mut conn), 2);
    assert!(provider_by_id_on_connection(&mut conn, "manual-copy")
        .expect("read manual copy")
        .is_some());
}

#[test]
fn stable_import_updates_its_source_without_claiming_a_manual_id() {
    let mut conn = table();
    let mut imported = provider("cc-old", "Imported old", Some("sk-old"));
    imported.base_url = "https://old.example.com/v1".to_string();
    upsert_ccswitch_provider_on_connection(&mut conn, imported, "cc-row")
        .expect("seed stable imported provider");

    let mut manual = provider("manual-local", "Locally edited", Some("sk-shared"));
    manual.base_url = "https://shared.example.com/v1".to_string();
    manual.model = "remote-model".to_string();
    manual.toml_config = Some("model = \"remote-model\"".to_string());
    upsert_provider_on_connection(&mut conn, manual, ProviderUpsertMode::Manual)
        .expect("seed manual provider");

    let mut changed = provider("cc-old", "Imported changed", Some("sk-shared"));
    changed.base_url = "https://shared.example.com/v1".to_string();
    changed.model = "remote-model".to_string();
    let result = upsert_ccswitch_provider_on_connection(&mut conn, changed, "cc-row")
        .expect("update the imported source record");

    assert_eq!(result.kind, ProviderUpsertKind::Updated);
    assert_eq!(result.provider.id, "cc-old");
    assert_eq!(result.provider.provider_name, "Imported changed");
    assert_eq!(result.provider.model, "remote-model");
    let rows = stored_providers_on_connection(&mut conn).expect("read independent providers");
    assert_eq!(rows.len(), 2);
    let manual = rows
        .iter()
        .find(|row| row.provider.id == "manual-local")
        .expect("manual provider remains");
    assert_eq!(manual.provider.provider_name, "Locally edited");
    assert_eq!(manual.source, MANUAL_PROVIDER_SOURCE);
    let imported = rows
        .iter()
        .find(|row| row.provider.id == "cc-old")
        .expect("imported provider remains");
    assert_eq!(imported.source, CCSWITCH_PROVIDER_SOURCE);
    assert_eq!(imported.source_id.as_deref(), Some("cc-row"));
}

#[test]
fn ccswitch_import_replaces_stale_local_values_with_complete_source() {
    let mut conn = table();
    let mut stale = provider("legacy-local", "Local name", Some("sk-local"));
    stale.base_url = "https://old.example.com/v1".to_string();
    stale.model = "local-model".to_string();
    stale.toml_config = Some(
        r#"model_provider = "custom"
model = "local-model"

[model_providers.custom]
name = "Local name"
base_url = "https://old.example.com/v1"
wire_api = "chat"
requires_openai_auth = true
request_max_retries = 3
"#
        .to_string(),
    );
    stale.wire_api = "chat".to_string();
    write_with_origin(&mut conn,
        &stale,
        Some((CCSWITCH_LOCAL_PROVIDER_SOURCE, "cc-row")),
    )
    .expect("seed stale local import");

    let mut imported = provider("cc-row", "CC name", Some("sk-imported"));
    imported.base_url = "https://new.example.com/v1".to_string();
    imported.model = "remote-model".to_string();
    imported.requires_openai_auth = false;
    imported.toml_config = Some(
        r#"# complete cc-switch template
model_provider = "custom"
model = "remote-model"
service_tier = "priority"

[model_providers.custom]
name = "CC name"
base_url = "https://new.example.com/v1"
wire_api = "responses"
requires_openai_auth = false
request_max_retries = 7

[projects."/work/project"]
trust_level = "trusted"

[plugins."browser@openai-bundled"]
enabled = true
"#
        .to_string(),
    );
    let result = upsert_ccswitch_provider_on_connection(&mut conn, imported, "cc-row")
        .expect("replace stale local values from the authoritative cc-switch row");

    assert_eq!(result.kind, ProviderUpsertKind::Updated);
    assert_eq!(result.provider.id, "legacy-local");
    assert_eq!(result.provider.provider_name, "CC name");
    assert_eq!(result.provider.base_url, "https://new.example.com/v1");
    assert_eq!(result.provider.model, "remote-model");
    assert_eq!(result.provider.api_key.as_deref(), Some("sk-imported"));
    assert_eq!(result.provider.wire_api, "responses");
    assert!(!result.provider.requires_openai_auth);
    let template = result
        .provider
        .toml_config
        .expect("complete cc-switch template");
    let doc = template
        .parse::<DocumentMut>()
        .expect("parse imported provider template");
    assert!(template.contains("# complete cc-switch template"));
    assert_eq!(doc["service_tier"].as_str(), Some("priority"));
    assert_eq!(doc["model"].as_str(), Some("remote-model"));
    assert_eq!(
        doc["model_providers"]["custom"]["name"].as_str(),
        Some("CC name")
    );
    assert_eq!(
        doc["model_providers"]["custom"]["request_max_retries"].as_integer(),
        Some(7)
    );
    assert_eq!(
        doc["projects"]["/work/project"]["trust_level"].as_str(),
        Some("trusted")
    );
    assert_eq!(
        doc["plugins"]["browser@openai-bundled"]["enabled"].as_bool(),
        Some(true)
    );
    let rows = stored_providers_on_connection(&mut conn).expect("read imported row");
    assert_eq!(rows.len(), 1);
    assert_eq!(rows[0].source, CCSWITCH_PROVIDER_SOURCE);
    assert_eq!(rows[0].source_id.as_deref(), Some("cc-row"));
}

#[test]
fn ccswitch_import_falls_back_only_when_source_fields_are_missing() {
    let mut conn = table();
    let mut existing = provider("local-id", "Existing name", Some("sk-existing"));
    existing.base_url = "https://existing.example.com/v1".to_string();
    existing.model = "existing-model".to_string();
    existing.toml_config = Some("model = \"existing-model\"".to_string());
    existing.wire_api = "responses".to_string();
    write_with_origin(&mut conn,
        &existing,
        Some((CCSWITCH_LOCAL_PROVIDER_SOURCE, "cc-row")),
    )
    .expect("seed existing source row");

    let missing = SavedProvider {
        id: "remote-id".to_string(),
        provider_name: " ".to_string(),
        base_url: String::new(),
        model: "\t".to_string(),
        api_key: Some(" ".to_string()),
        toml_config: Some("\n".to_string()),
        wire_api: String::new(),
        requires_openai_auth: false,
        model_mappings: Vec::new(),
    };
    let result = upsert_ccswitch_provider_on_connection(&mut conn, missing, "cc-row")
        .expect("fill missing import fields from the existing source row");

    assert_eq!(result.provider.id, "local-id");
    assert_eq!(result.provider.provider_name, "Existing name");
    assert_eq!(result.provider.base_url, "https://existing.example.com/v1");
    assert_eq!(result.provider.model, "existing-model");
    assert_eq!(result.provider.api_key.as_deref(), Some("sk-existing"));
    assert_eq!(
        result.provider.toml_config.as_deref(),
        Some("model = \"existing-model\"")
    );
    assert_eq!(result.provider.wire_api, "responses");
    assert!(!result.provider.requires_openai_auth);
}

#[test]
fn legacy_cleanup_preserves_historical_custom_ids() {
    let mut conn = table();
    write_provider_on_connection(&mut conn, &provider("local", "Same API", Some("sk-current")))
        .unwrap();
    write_provider_on_connection(&mut conn,
        &provider("custom", " same   api ", Some("sk-old-live")),
    )
    .unwrap();

    assert_eq!(
        consolidate_legacy_provider_duplicates_on_connection(&mut conn).unwrap(),
        0
    );
    let rows = list_saved_providers_on_connection(&mut conn).unwrap();
    assert_eq!(rows.len(), 2);
    assert!(rows.iter().any(|row| row.id == "local"));
    assert!(rows.iter().any(|row| row.id == "custom"));

    let mut ambiguous = table();
    write_provider_on_connection(&mut ambiguous,
        &provider("local-a", "Same API", Some("sk-first")),
    )
    .unwrap();
    write_provider_on_connection(&mut ambiguous,
        &provider("local-b", "Same API", Some("sk-second")),
    )
    .unwrap();
    write_provider_on_connection(&mut ambiguous,
        &provider("custom-2", "Same API", Some("sk-old-live")),
    )
    .unwrap();

    assert_eq!(
        consolidate_legacy_provider_duplicates_on_connection(&mut ambiguous).unwrap(),
        0
    );
    assert_eq!(provider_count(&mut ambiguous), 3);

    let mut different_models = table();
    let mut stable = provider("local", "Same API", Some("sk-current"));
    stable.model = "deepseek-v3".to_string();
    write_provider_on_connection(&mut different_models, &stable).unwrap();
    let mut ghost = provider("custom", " same   api ", Some("sk-old-live"));
    ghost.model = "gpt-5.6".to_string();
    write_provider_on_connection(&mut different_models, &ghost).unwrap();

    assert_eq!(
        consolidate_legacy_provider_duplicates_on_connection(&mut different_models).unwrap(),
        0
    );
    assert_eq!(provider_count(&mut different_models), 2);
}

#[test]
fn legacy_consolidation_keeps_distinct_models_for_shared_credentials() {
    let mut conn = table();
    let mut gpt = provider("gpt-profile", "Same API", Some("sk-shared"));
    gpt.model = "gpt-5.6".to_string();
    write_provider_on_connection(&mut conn, &gpt).unwrap();
    let mut deepseek = provider("deepseek-profile", "Same API", Some("sk-shared"));
    deepseek.model = "deepseek-v3".to_string();
    write_provider_on_connection(&mut conn, &deepseek).unwrap();

    assert_eq!(
        consolidate_legacy_provider_duplicates_on_connection(&mut conn).unwrap(),
        0
    );
    assert_eq!(provider_count(&mut conn), 2);
}

#[test]
fn legacy_consolidation_preserves_manual_and_imported_ids() {
    let mut conn = table();
    let mut imported = provider("imported-old", "Imported old", Some("sk-same"));
    imported.model = "latest-model".to_string();
    write_with_origin(&mut conn, &imported, Some((CCSWITCH_PROVIDER_SOURCE, "cc-row")))
        .unwrap();
    let mut manual = provider("manual-local", "Edited locally", Some("sk-same"));
    manual.model = "latest-model".to_string();
    manual.toml_config = Some("model = \"latest-model\"".to_string());
    write_provider_on_connection(&mut conn, &manual).unwrap();
    conn.rows[0].updated_at = "2026-02-01T00:00:00Z".to_string();
    conn.rows[1].updated_at = "2026-01-01T00:00:00Z".to_string();

    assert_eq!(
        consolidate_legacy_provider_duplicates_on_connection(&mut conn).unwrap(),
        0
    );
    let rows = stored_providers_on_connection(&mut conn).unwrap();
    assert_eq!(rows.len(), 2);
    assert!(rows.iter().any(|row| row.provider.id == "manual-local"));
    assert!(rows.iter().any(|row| row.provider.id == "imported-old"));

    let mut repeated = provider("imported-old", "Remote replacement", Some("sk-same"));
    repeated.model = "remote-model".to_string();
    repeated.toml_config = Some("model = \"remote-model\"".to_string());
    upsert_ccswitch_provider_on_connection(&mut conn, repeated, "cc-row")
        .expect("repeat import after legacy consolidation");

    let rows = stored_providers_on_connection(&mut conn).unwrap();
    assert_eq!(rows.len(), 2);
    let manual = rows
        .iter()
        .find(|row| row.provider.id == "manual-local")
        .expect("manual provider remains");
    assert_eq!(manual.provider.provider_name, "Edited locally");
    assert_eq!(
        manual.provider.toml_config.as_deref(),
        Some("model = \"latest-model\"")
    );
    let imported = rows
        .iter()
        .find(|row| row.provider.id == "imported-old")
        .expect("imported provider remains");
    assert_eq!(imported.provider.provider_name, "Remote replacement");
    assert_eq!(imported.provider.model, "remote-model");
    assert_eq!(imported.source, CCSWITCH_PROVIDER_SOURCE);
    assert_eq!(imported.source_id.as_deref(), Some("cc-row"));
}

#[test]
fn legacy_consolidation_does_not_merge_different_external_sources() {
    let mut conn = table();
    write_with_origin(&mut conn,
        &provider("cc-one", "Same API", Some("sk-same")),
        Some((CCSWITCH_PROVIDER_SOURCE, "row-one")),
    )
    .unwrap();
    write_with_origin(&mut conn,
        &provider("cc-two", "Same API", Some("sk-same")),
        Some((CCSWITCH_PROVIDER_SOURCE, "row-two")),
    )
    .unwrap();

    assert_eq!(
        consolidate_legacy_provider_duplicates_on_connection(&mut conn).unwrap(),
        0
    );
    assert_eq!(provider_count(&mut conn), 2);
}

#[test]
fn live_custom_matches_a_preserved_historical_record_by_its_profile() {
    let stable = provider("stable", "Same API", Some("sk-current"));
    let historical = provider("custom", "Same API", Some("sk-old-live"));
    let live = provider("custom", " same   api ", Some("sk-old-live"));
    assert_eq!(
        unique_saved_provider_id_for_live(&live, &[stable.clone(), historical]),
        Some("custom".to_string())
    );

    let second = provider("second", "Same API", Some("sk-second"));
    assert_eq!(
        unique_saved_provider_id_for_live(&live, &[stable, second]),
        None
    );
}

#[test]
fn live_custom_matches_the_saved_profile_with_the_same_model() {
    let mut gpt = provider("gpt-profile", "Same API", Some("sk-shared"));
    gpt.model = "gpt-5.6".to_string();
    let mut deepseek = provider("deepseek-profile", "Same API", Some("sk-shared"));
    deepseek.model = "deepseek-v3".to_string();
    let mut live = provider("custom", "Same API", Some("sk-shared"));
    live.model = " deepseek-v3 ".to_string();

    assert_eq!(
        unique_saved_provider_id_for_live(&live, &[gpt, deepseek]),
        Some("deepseek-profile".to_string())
    );
}

#[test]
fn provider_toml_keeps_extensions_and_syncs_explicit_field_edits() {
    let mut item = provider("saved", "Edited Name", Some("sk-explicit"));
    item.base_url = "https://edited.example.com/v1/".to_string();
    item.model = "edited-model".to_string();
    item.wire_api = "chat_completions".to_string();
    item.requires_openai_auth = false;
    item.toml_config = Some(
        r#"model_provider = "proxy"
model = "stale-model"
approval_policy = "never"
experimental_bearer_token = "sk-top-level"

[model_providers.proxy]
name = "Stale Name"
base_url = "https://stale.example.com/v1"
wire_api = "responses"
requires_openai_auth = true
experimental_bearer_token = "sk-stale"
request_max_retries = 7

[model_providers.proxy.http_headers]
X-Route = "keep-me"

[model_providers.unrelated]
name = "Keep this provider"
base_url = "https://unrelated.example.com/v1"
experimental_bearer_token = "sk-unrelated"

[mcp_servers.docs]
command = "keep-this-command"
"#
        .to_string(),
    );

    let normalized = normalize_saved_provider(item).expect("normalize provider TOML");
    let text = normalized.toml_config.as_deref().unwrap();
    let doc = text.parse::<DocumentMut>().expect("parse normalized TOML");
    assert_eq!(normalized.provider_name, "Edited Name");
    assert_eq!(normalized.base_url, "https://edited.example.com/v1");
    assert_eq!(normalized.model, "edited-model");
    assert_eq!(normalized.wire_api, "chat_completions");
    assert!(!normalized.requires_openai_auth);
    assert_eq!(doc["model"].as_str(), Some("edited-model"));
    assert_eq!(
        doc["model_providers"]["proxy"]["name"].as_str(),
        Some("Edited Name")
    );
    assert_eq!(
        doc["model_providers"]["proxy"]["base_url"].as_str(),
        Some("https://edited.example.com/v1")
    );
    assert_eq!(
        doc["model_providers"]["proxy"]["wire_api"].as_str(),
        Some("chat_completions")
    );
    assert_eq!(
        doc["model_providers"]["proxy"]["requires_openai_auth"].as_bool(),
        Some(false)
    );
    assert_eq!(
        doc["model_providers"]["proxy"]["request_max_retries"].as_integer(),
        Some(7)
    );
    assert_eq!(
        doc["model_providers"]["proxy"]["http_headers"]["X-Route"].as_str(),
        Some("keep-me")
    );
    assert_eq!(doc["model_provider"].as_str(), Some("proxy"));
    assert_eq!(doc["approval_policy"].as_str(), Some("never"));
    assert_eq!(
        doc["model_providers"]["unrelated"]["name"].as_str(),
        Some("Keep this provider")
    );
    assert_eq!(
        doc["mcp_servers"]["docs"]["command"].as_str(),
        Some("keep-this-command")
    );
    assert!(doc.get("experimental_bearer_token").is_none());
    assert!(doc["model_providers"]
        .as_table()
        .expect("model providers table")
        .iter()
        .all(|(_, item)| item
            .as_table()
            .is_none_or(|table| table.get("experimental_bearer_token").is_none())));
    assert!(!text.contains("experimental_bearer_token"));
    assert_eq!(normalized.api_key.as_deref(), Some("sk-explicit"));
}

#[test]
fn legacy_rows_are_repaired_from_complete_toml_on_read() {
    let mut conn = table();
    let mut legacy = provider("legacy", "Wrong database name", None);
    legacy.base_url = "https://wrong.example.com/v1".to_string();
    legacy.model = "wrong-model".to_string();
    legacy.wire_api = "chat_completions".to_string();
    legacy.requires_openai_auth = true;
    legacy.toml_config = Some(
        r#"# authoritative saved template
model_provider = "proxy"
model = "gpt-5.6-sol"
service_tier = "priority"

[model_providers.proxy]
name = "Authoritative Name"
base_url = "https://RIGHT.example.com/v1/"
wire_api = "responses"
requires_openai_auth = false
experimental_bearer_token = "sk-from-template"
request_max_retries = 9
"#
        .to_string(),
    );
    write_provider_on_connection(&mut conn, &legacy).expect("seed legacy mismatch");

    let listed = list_saved_providers_on_connection(&mut conn).expect("read providers");
    assert_eq!(listed.len(), 1);
    let repaired = &listed[0];
    assert_eq!(repaired.provider_name, "Authoritative Name");
    assert_eq!(repaired.base_url, "https://right.example.com/v1");
    assert_eq!(repaired.model, "gpt-5.6-sol");
    assert_eq!(repaired.wire_api, "responses");
    assert!(!repaired.requires_openai_auth);
    assert_eq!(repaired.api_key.as_deref(), Some("sk-from-template"));
    let template = repaired.toml_config.as_deref().expect("saved template");
    assert!(template.contains("# authoritative saved template"));
    assert!(template.contains("request_max_retries = 9"));
    assert!(!template.contains("experimental_bearer_token"));

    let by_id = provider_by_id_on_connection(&mut conn, "legacy")
        .expect("read provider by id")
        .expect("legacy provider");
    assert_eq!(by_id, *repaired);

    let raw_model = conn.rows[0].provider.model.as_str();
    assert_eq!(raw_model, "wrong-model");
}

#[test]
fn malformed_legacy_toml_does_not_break_provider_reads() {
    let mut conn = table();
    let mut legacy = provider("legacy", "Fallback Name", Some("sk-fallback"));
    legacy.base_url = "https://fallback.example.com/v1".to_string();
    legacy.model = "fallback-model".to_string();
    legacy.toml_config = Some("model = [".to_string());
    write_provider_on_connection(&mut conn, &legacy).expect("seed malformed legacy row");

    let listed = list_saved_providers_on_connection(&mut conn).expect("read malformed legacy row");
    assert_eq!(listed, vec![legacy]);
}

#[test]
fn placeholder_provider_values_are_rejected() {
    let mut item = provider("placeholder", "your-provider", None);
    item.model = "gpt-5.5".to_string();
    let error = normalize_saved_provider(item).expect_err("placeholder must be rejected");
    assert!(error.text().contains("示例占位值"));
}

#[test]
fn undoing_a_save_leaves_other_rows_and_refuses_later_changes() {
    let mut conn = table();
    save_provider_inner(&mut conn, provider("a", "First", Some("key-a")), NOW).unwrap();
    save_provider_inner(&mut conn, provider("b", "Second", Some("key-b")), NOW).unwrap();
    let start = conn.clone();
    let (saved, rollback) =
        save_provider_with_rollback(&mut conn, provider("c", "Third", None), "later").unwrap();
    assert_eq!(saved.id, "c");
    let other = conn.rows[0].provider.id.clone();
    conn.rows[0].provider.model = "changed-model".to_string();
    let mut expected = start.clone();
    expected.rows[0].provider.model = "changed-model".to_string();
    rollback_provider_store_inner(&mut conn, &rollback).unwrap();
    assert_eq!(other, "a");
    assert_eq!(conn, expected);

    let (_, rollback) =
        save_provider_with_rollback(&mut conn, provider("b", "Renamed", Some("key-b")), "later")
            .unwrap();
    conn.rows[1].provider.model = "changed-again".to_string();
    let changed = conn.clone();
    let error = rollback_provider_store_inner(&mut conn, &rollback).unwrap_err();
    assert_eq!(
        error.text(),
        "数据库错误: 供应商 b 已被其他操作修改，拒绝覆盖并发变更"
    );
    assert_eq!(conn, changed);
}

#[test]
fn a_detected_route_is_saved_once_and_only_where_it_is_clear() {
    let mut conn = table();
    let live = provider("custom", "Detected", Some("fixture-key"));
    assert!(
        save_detected_provider_with_rollback(&mut conn, &None, live.clone(), NOW)
            .unwrap()
            .is_some()
    );
    assert_eq!(conn.rows.len(), 1);
    assert_eq!(conn.rows[0].provider.id, "detected");
    save_detected_provider_with_rollback(&mut conn, &None, live.clone(), NOW).unwrap();
    assert_eq!(conn.rows.len(), 1);
    let mut twin = provider("twin", "Detected", Some("fixture-key"));
    twin.model = "gpt-5.5".to_string();
    save_provider_inner(&mut conn, twin, NOW).unwrap();
    let before = conn.clone();
    assert!(
        save_detected_provider_with_rollback(&mut conn, &None, live, NOW)
            .unwrap()
            .is_none()
    );
    assert_eq!(conn, before);
}

#[test]
fn saves_refuse_what_a_record_cannot_be() {
    let mut conn = table();
    for (change, expected) in [
        ("id", "provider id 不能为空"),
        ("name", "供应商名称不能为空"),
        ("url", "base_url 不能为空"),
        ("model", "model 不能为空"),
        ("toml", "TOML"),
    ] {
        let mut item = provider("record", "Name", None);
        match change {
            "id" => item.id = " ".to_string(),
            "name" => item.provider_name = " ".to_string(),
            "url" => item.base_url = " ".to_string(),
            "model" => item.model = " ".to_string(),
            _ => item.toml_config = Some("model = [".to_string()),
        }
        let error = save_provider_inner(&mut conn, item, NOW).unwrap_err();
        assert!(error.text().contains(expected), "{change}: {}", error.text());
        assert!(conn.rows.is_empty());
    }
    save_provider_inner(&mut conn, provider("openai-custom", "Saved", None), NOW).unwrap();
    let error = save_provider_inner(&mut conn, provider("openai", "Other", None), NOW).unwrap_err();
    assert!(error.text().contains("规范化后与现有供应商冲突"));
    assert!(upsert_ccswitch_provider(&mut conn, provider("x", "X", None), "  ", NOW).is_err());
}

#[test]
fn identifiers_avoid_those_that_codex_reserves() {
    for reserved in ["openai", " Custom ", "OLLAMA", "lmstudio", "oss", "amazon-bedrock"] {
        assert!(reserved_codex_provider_id(reserved));
        assert!(!reserved_codex_provider_id(&custom_provider_id(reserved)));
    }
    assert_eq!(custom_provider_id("OpenAI"), "openai-custom");
    assert_eq!(custom_provider_id("My Provider!"), "my-provider");
    assert_eq!(custom_provider_id("供应商"), "provider");
    assert!(is_historical_custom_provider_id("custom"));
    assert!(is_historical_custom_provider_id("custom-12"));
    assert!(!is_historical_custom_provider_id("custom-x"));
}

#[test]
fn endpoints_are_compared_in_one_form() {
    assert_eq!(
        canonical_provider_base_url(" HTTPS://Example.COM:443/v1/ "),
        "https://example.com/v1"
    );
    assert_eq!(canonical_provider_base_url("not a url/"), "not a url");
    let left = provider("a", "Same", Some("key"));
    let mut right = provider("b", " same ", Some("key"));
    right.base_url = "https://EXAMPLE.com/v1/".to_string();
    assert!(compatible_provider_match(&left, &right));
    assert!(compatible_provider_match(&right, &left));
    right.base_url = "https://other.example/v1".to_string();
    assert!(!compatible_provider_match(&left, &right));
}

#[test]
fn the_remembered_record_decides_among_equal_ones() {
    let rows = [
        provider("a", "Same", Some("key")),
        provider("b", "Same", Some("key")),
    ];
    let live = provider("custom", "Same", Some("key"));
    let ids = matching_saved_provider_ids(&None, &live, &rows);
    assert_eq!(ids, ["a", "b"]);
    assert_eq!(
        reconcile_active_provider(&Some("b".to_string()), &ids).as_deref(),
        Some("b")
    );
    assert_eq!(reconcile_active_provider(&None, &ids), None);
    assert_eq!(
        reconcile_active_provider(&Some("x".to_string()), &ids),
        None
    );
    assert_eq!(
        reconcile_active_provider(&None, &vec!["a".to_string()]).as_deref(),
        Some("a")
    );
}

#[test]
fn taking_tokens_out_leaves_the_rest() {
    let mut doc: DocumentMut = "experimental_bearer_token = \"t\"\nmodel = \"m\"\n[model_providers.a]\nname = \"A\"\nexperimental_bearer_token = \"u\"\n[model_providers.b]\nname = \"B\"\n"
        .parse()
        .unwrap();
    strip_provider_bearer_tokens(&mut doc);
    let once = doc.to_string();
    assert!(!once.contains("experimental_bearer_token"));
    assert_eq!(doc["model"].as_str(), Some("m"));
    assert_eq!(doc["model_providers"]["a"]["name"].as_str(), Some("A"));
    assert_eq!(doc["model_providers"]["b"]["name"].as_str(), Some("B"));
    strip_provider_bearer_tokens(&mut doc);
    assert_eq!(doc.to_string(), once);
}

#[test]
fn a_key_may_come_from_the_template() {
    let mut item = provider("a", "A", None);
    item.toml_config = Some(
        "model_provider = \"p\"\nmodel = \"m\"\n[model_providers.p]\nexperimental_bearer_token = \" key \"\n"
            .to_string(),
    );
    assert_eq!(effective_provider_api_key(&item).as_deref(), Some("key"));
    item.api_key = Some(" own ".to_string());
    assert_eq!(effective_provider_api_key(&item).as_deref(), Some("own"));
}

#[test]
fn a_written_provider_is_read_back() {
    let mut conn = table();
    let mut saved = provider("a", "Name", Some("key"));
    saved.model_mappings = vec![ProviderModelMapping {
        model: "gpt-5.5".into(),
        display_name: "GPT".into(),
        context_window: None,
    }];
    write_provider_on_connection(&mut conn, &saved).unwrap();
    assert_eq!(
        provider_by_id_on_connection(&mut conn, "a").unwrap(),
        Some(saved.clone())
    );
    saved.toml_config = Some("model = 'gpt-5.5'\nmodel_provider = 'custom'\n[model_providers.custom]\nname = 'Name'\nbase_url = 'https://example.com/v1'".to_string());
    write_provider_on_connection(&mut conn, &saved).unwrap();
    assert_eq!(
        provider_by_id_on_connection(&mut conn, "a").unwrap(),
        Some(saved)
    );
}

#[test]
fn rows_stand_by_when_they_were_created() {
    let mut conn = table();
    let times = [
        ("b", "2026-01-02T00:00:00Z"),
        ("a", "2026-01-01T00:00:00Z"),
        ("c", "2026-01-02T00:00:00Z"),
        ("e", "2026-01-02T00:00:00.5Z"),
        ("d", "2026-01-03T00:00:00Z"),
    ];
    for (id, now) in times {
        write_provider_with_origin(&mut conn, &provider(id, id, Some("k")), None, now);
    }
    let ids = |conn: &ProviderTable| {
        list_saved_providers_inner(conn)
            .iter()
            .map(|provider| provider.id.clone())
            .collect::<Vec<_>>()
    };
    assert_eq!(ids(&conn), ["a", "e", "b", "c", "d"]);
    write_provider_with_origin(
        &mut conn,
        &provider("b", "renamed", Some("k")),
        None,
        "2027-01-01T00:00:00Z",
    );
    assert_eq!(ids(&conn), ["a", "e", "b", "c", "d"]);
}

#[test]
fn copies_and_undone_rows_are_listed_by_when_they_were_created() {
    let mut conn = table();
    let saved = |id: &str| {
        let mut provider = provider(id, id, Some("k"));
        provider.base_url = format!("https://{id}.example.com/v1");
        provider
    };
    for (id, now) in [("a", "2026-01-02"), ("b", "2026-01-02"), ("c", "2026-01-03")] {
        save_provider_inner(&mut conn, saved(id), now).unwrap();
    }
    let ids = |conn: &ProviderTable| {
        list_saved_providers_inner(conn)
            .iter()
            .map(|provider| provider.id.clone())
            .collect::<Vec<_>>()
    };
    let copy =
        duplicate_provider_inner(&mut conn, None, Some("c"), None, &None, "2026-01-01").unwrap();
    let listed: Vec<String> = copy.providers.iter().map(|one| one.id.clone()).collect();
    assert_eq!(listed, ["c-copy", "a", "b", "c"]);
    assert_eq!(listed, ids(&conn));
    let mut selected = Some("c".to_string());
    delete_provider_inner(&mut conn, &mut selected, "c-copy");
    assert_eq!(selected.as_deref(), Some("c"));
    assert!(selection_after_delete(&selected, " c ").is_none());
    assert_eq!(selection_after_delete(&selected, "a").as_deref(), Some("c"));
    assert!(selection_after_delete(&None, "a").is_none());

    let mut changed = saved("a");
    changed.model = "other".to_string();
    let (_, rollback) = save_provider_with_rollback(&mut conn, changed, "2026-02-01").unwrap();
    assert_eq!(ids(&conn), ["a", "b", "c"]);
    rollback_provider_store_inner(&mut conn, &rollback).unwrap();
    // The row is put in again, behind the one that was created at the same time.
    assert_eq!(ids(&conn), ["b", "a", "c"]);
    assert_eq!(provider_by_id(&conn, "a").unwrap().model, "gpt-5.5");
}

#[test]
fn names_are_blind_to_amounts_of_white_space() {
    let name = |input: &str| normalized_provider_name(input);
    assert_eq!(name("  My\t Provider \n"), "my provider");
    assert_eq!(name("My Provider"), name(" my   PROVIDER "));
    assert_eq!(name(&name("  My\t Provider ")), name("My Provider"));
    assert_eq!(name(" \t "), "");
}

#[test]
fn saving_a_template_keeps_other_settings_as_written() {
    let mut saved = provider("relay", "Relay", Some("key"));
    let shared = "# how to ask\napproval_policy   =   'never'   # always\n";
    let projects = "# mine\n[projects.\"/work\"] # here\ntrust_level='trusted'\n";
    saved.toml_config = Some(format!(
        "{shared}model = \"old\"\nmodel_provider = \"relay\"\n\n[model_providers.relay]\nname = \"Old\"\nbase_url = \"https://old.example.com\"\nexperimental_bearer_token = \"token\"\n\n{projects}"
    ));
    let saved = normalize_saved_provider(saved).unwrap();
    let text = saved.toml_config.unwrap();
    assert!(text.starts_with(shared));
    assert!(text.ends_with(projects.trim_end()));
    assert!(text.contains("model = \"gpt-5.5\""));
    assert!(text.contains("base_url = \"https://example.com/v1\""));
    assert!(!text.contains("token\""));
}

#[test]
fn normalizing_an_ascii_name_twice_changes_nothing() {
    let once = normalized_provider_name("  My\tRELAY  One ");
    assert_eq!(once, "my relay one");
    assert_eq!(normalized_provider_name(&once), once);
}
