use codexx::providers::model_catalog::{
    build_catalog, catalog_filename, catalog_is_missing, component_is_missing, confirm_catalog,
    confirm_component, has_verified_ownership, is_generated_catalog, is_owned_pointer, model_entry,
    normalize_mappings, owned_catalog_directory, point_to_catalog, prepare_model_catalog,
    release_catalog, validate_name, CatalogStep, EntryKind, PointerFacts, ProviderModelMapping,
    DEFAULT_CONTEXT_WINDOW, MAX_CATALOG_BYTES, MAX_CONTEXT_WINDOW,
};
use serde_json::Value;
use toml_edit::{value, DocumentMut};

fn mapping(model: &str, display_name: &str, context: Option<i64>) -> ProviderModelMapping {
    ProviderModelMapping {
        model: model.to_string(),
        display_name: display_name.to_string(),
        context_window: context,
    }
}

fn published(provider: &str, rows: &[ProviderModelMapping], model: &str) -> (String, Value) {
    match prepare_model_catalog(provider, rows, model, &DocumentMut::new()).unwrap() {
        CatalogStep::Publish { filename, catalog } => (filename, catalog),
        _ => panic!("a catalog was expected"),
    }
}

fn pointer(name: &str, same_parent: bool, content: Option<Vec<u8>>) -> PointerFacts {
    PointerFacts {
        traverses: false,
        name: Some(name.to_string()),
        parent_name: Some("model-catalogs".to_string()),
        owner_name: Some(".codex-x".to_string()),
        parent: EntryKind::Directory,
        owner: EntryKind::Directory,
        file: EntryKind::File,
        same_parent,
        content,
    }
}

#[test]
fn every_mapped_model_has_the_complete_effort_menu_without_extra_settings() {
    for id in [
        "deepseek-flash",
        "deepseek-v4-flash",
        "deepseek-v4-pro",
        "vendor/custom-model",
        "gpt-5.5",
    ] {
        let entry = model_entry(&mapping(id, id, None), 0, 128000);
        let levels: Vec<_> = entry["supported_reasoning_levels"]
            .as_array()
            .unwrap()
            .iter()
            .map(|level| level["effort"].as_str().unwrap())
            .collect();
        assert_eq!(
            levels,
            ["none", "minimal", "low", "medium", "high", "xhigh", "max", "ultra"]
        );
        assert_eq!(entry["default_reasoning_level"], "high");
        assert_eq!(entry["supports_reasoning_summaries"], true);
        assert_eq!(entry["supports_reasoning_summary_parameter"], false);
        assert_eq!(entry["default_reasoning_summary"], "none");
        assert_eq!(entry["prefer_websockets"], false);
        assert!(!entry.to_string().contains("Maps to"));
    }
}

#[test]
fn older_saved_rows_need_no_additional_reasoning_configuration() {
    let (_, generated) = published("provider", &[mapping("custom-model", "", None)], "custom-model");
    assert_eq!(
        generated["models"][0]["supported_reasoning_levels"]
            .as_array()
            .unwrap()
            .len(),
        8
    );
    assert_eq!(
        generated["models"][0]["supported_reasoning_levels"][0]["effort"],
        "none"
    );
    assert_eq!(generated["models"][0]["default_reasoning_level"], "high");
}

#[test]
fn normalization_preserves_real_models_and_adds_missing_default() {
    let result = normalize_mappings(
        &[
            mapping(" vendor/model-A ", "菜单名称", Some(1_048_576)),
            mapping("vendor/model-A", "duplicate", Some(128_000)),
            mapping("vendor/model-a", "", None),
        ],
        "deepseek-chat",
    )
    .unwrap();
    assert_eq!(result.len(), 3);
    assert_eq!(result[0], mapping("deepseek-chat", "deepseek-chat", None));
    assert_eq!(
        result[1],
        mapping("vendor/model-A", "菜单名称", Some(1_048_576))
    );
    assert_eq!(result[2].display_name, "vendor/model-a");
    assert!(normalize_mappings(&[], "").unwrap().is_empty());
}

#[test]
fn rejects_invalid_ids_names_context_and_too_many_models() {
    for invalid in ["", "model\nname", &"a".repeat(201)] {
        assert!(normalize_mappings(&[mapping(invalid, "", None)], "default").is_err());
    }
    assert!(normalize_mappings(&[mapping("model", "bad\nname", None)], "model").is_err());
    for invalid in [0, -1, MAX_CONTEXT_WINDOW + 1] {
        assert!(normalize_mappings(&[mapping("model", "", Some(invalid))], "model").is_err());
    }
    let rows: Vec<_> = (0..64)
        .map(|index| mapping(&format!("model-{index}"), "", None))
        .collect();
    assert_eq!(normalize_mappings(&rows, "model-0").unwrap().len(), 64);
    assert!(normalize_mappings(&rows, "missing-default").is_err());
    let mut excessive = rows;
    excessive.push(mapping("model-64", "", None));
    assert!(normalize_mappings(&excessive, "model-0").is_err());
}

#[test]
fn serialized_mapping_allows_omitted_display_name_and_context() {
    let normalized =
        normalize_mappings(&[mapping("deepseek-chat", "", None)], "deepseek-chat").unwrap();
    assert_eq!(
        normalized[0],
        mapping("deepseek-chat", "deepseek-chat", None)
    );
}

#[test]
fn disabling_removes_only_our_pointer_without_deleting_catalog() {
    let rows = [mapping("model", "Name", None)];
    let (filename, catalog) = published("provider", &rows, "model");
    let content = serde_json::to_vec(&catalog).unwrap();
    let mut doc = DocumentMut::new();
    point_to_catalog(&mut doc, "/home/.codex-x/model-catalogs/catalog.json");
    match prepare_model_catalog("provider", &[], "model", &doc).unwrap() {
        CatalogStep::RemoveIfOwned(found) => {
            assert_eq!(found, "/home/.codex-x/model-catalogs/catalog.json")
        }
        _ => panic!("a pointer was expected"),
    }
    let owned = is_owned_pointer(&pointer(&filename, true, Some(content)));
    assert!(owned);
    release_catalog(&mut doc, owned);
    assert!(doc.get("model_catalog_json").is_none());

    let mut elsewhere = pointer("custom-models.json", false, None);
    elsewhere.parent_name = Some("codex".to_string());
    elsewhere.owner_name = Some("home".to_string());
    assert!(!is_owned_pointer(&elsewhere));
    assert!(!is_owned_pointer(&pointer("my-custom.json", true, None)));
    let mut upwards = pointer("custom.json", false, None);
    upwards.traverses = true;
    assert!(!is_owned_pointer(&upwards));
    for custom in [
        "custom-models.json",
        ".codex-x/model-catalogs/my-custom.json",
        ".codex-x/model-catalogs/../custom.json",
    ] {
        doc["model_catalog_json"] = value(custom);
        release_catalog(&mut doc, false);
        assert_eq!(doc["model_catalog_json"].as_str(), Some(custom));
    }
}

#[test]
fn relative_and_stale_owned_pointers_can_be_removed() {
    let name = format!("{}.json", "a".repeat(64));
    let mut facts = pointer(&name, true, None);
    facts.file = EntryKind::Absent;
    facts.parent = EntryKind::Absent;
    facts.owner = EntryKind::Absent;
    assert!(is_owned_pointer(&facts));
    let mut doc = DocumentMut::new();
    doc["model_catalog_json"] = value(format!(".codex-x/model-catalogs/{name}"));
    assert!(matches!(
        prepare_model_catalog("provider", &[], "", &doc).unwrap(),
        CatalogStep::RemoveIfOwned(_)
    ));
    release_catalog(&mut doc, true);
    assert!(doc.get("model_catalog_json").is_none());
}

#[test]
fn official_cleanup_recognizes_other_home_but_preserves_unverified_user_catalog() {
    let rows = [mapping("deepseek-v4-pro", "DeepSeek", None)];
    let (filename, original) = published("provider-a", &rows, "deepseek-v4-pro");
    let content = serde_json::to_vec(&original).unwrap();
    assert!(is_owned_pointer(&pointer(&filename, false, Some(content))));

    let mut no_marker = original.clone();
    no_marker
        .as_object_mut()
        .unwrap()
        .remove("_codex_x_model_catalog");
    let mut modified = original;
    modified["models"][0]["display_name"] = Value::from("User's own menu");
    for unverified in [no_marker, modified] {
        assert!(!is_generated_catalog(&unverified, &filename));
        let content = serde_json::to_vec(&unverified).unwrap();
        assert!(!has_verified_ownership(&content, &filename));
        assert!(!is_owned_pointer(&pointer(&filename, false, Some(content))));
    }
}

#[test]
fn providers_and_changed_content_have_distinct_immutable_catalogs() {
    let rows = [mapping("model", "Name", None)];
    let (first, first_catalog) = published("../../provider-a", &rows, "model");
    let (second, _) = published("provider-b", &rows, "model");
    let (third, _) = published(
        "../../provider-a",
        &[mapping("model", "Changed", None)],
        "model",
    );
    let (again, _) = published("../../provider-a", &rows, "model");
    assert!(!first.contains("provider-a"));
    assert_ne!(first, second);
    assert_ne!(first, third);
    assert_eq!(first, again);
    assert_eq!(first, catalog_filename(&first_catalog).unwrap());
    assert_eq!(first.len(), 69);
    assert!(first.ends_with(".json"));
    assert!(first[..64].chars().all(|c| c.is_ascii_hexdigit()));
}

#[test]
fn unchanged_content_is_reused_and_tampered_file_is_not_overwritten() {
    let (_, catalog) = published("provider", &[mapping("model", "Name", None)], "model");
    let content = serde_json::to_vec_pretty(&catalog).unwrap();
    assert!(!catalog_is_missing(EntryKind::File, content.len() as u64).unwrap());
    assert!(confirm_catalog(&content, &catalog).is_ok());
    assert!(confirm_catalog(b"keep this changed file", &catalog).is_err());
    assert!(confirm_catalog(b"{}", &catalog).is_err());
    assert!(catalog_is_missing(EntryKind::Absent, 0).unwrap());
    assert!(catalog_is_missing(EntryKind::Link, 10).is_err());
    assert!(catalog_is_missing(EntryKind::File, MAX_CATALOG_BYTES as u64 + 1).is_err());
}

#[test]
fn omitted_context_uses_explicit_live_context_or_neutral_default() {
    let rows = [
        mapping("model", "Model", None),
        mapping("other", "Other", Some(64000)),
    ];
    let mut doc: DocumentMut = "model_context_window = 1000000".parse().unwrap();
    let catalog = build_catalog(&rows, &doc);
    assert_eq!(catalog["models"][0]["context_window"], 1_000_000);
    assert_eq!(catalog["models"][1]["context_window"], 64_000);
    doc["model_context_window"] = value(-1);
    assert_eq!(
        build_catalog(&rows, &doc)["models"][0]["context_window"],
        DEFAULT_CONTEXT_WINDOW
    );
}

#[test]
fn owned_directories_are_neither_links_nor_files() {
    assert_eq!(
        owned_catalog_directory("/home"),
        ["/home", ".codex-x", "model-catalogs"]
    );
    assert!(component_is_missing(EntryKind::Absent).unwrap());
    assert!(!component_is_missing(EntryKind::Directory).unwrap());
    assert!(component_is_missing(EntryKind::Link).is_err());
    assert!(component_is_missing(EntryKind::File).is_err());
    assert!(confirm_component(EntryKind::Directory).is_ok());
    assert!(confirm_component(EntryKind::Link).is_err());
    let mut linked = pointer(&format!("{}.json", "a".repeat(64)), true, None);
    linked.owner = EntryKind::Link;
    assert!(!is_owned_pointer(&linked));
}

#[test]
fn normalizing_a_menu_twice_changes_nothing() {
    let once = normalize_mappings(
        &[mapping(" a ", "", Some(1)), mapping("b", " B ", None)],
        " c ",
    )
    .unwrap();
    assert_eq!(once.len(), 3);
    assert_eq!(once[0], mapping("c", "c", None));
    assert_eq!(once[2], mapping("b", "B", None));
    assert_eq!(normalize_mappings(&once, "c").unwrap(), once);
}

#[test]
fn names_are_checked_with_their_label() {
    assert_eq!(validate_name("  gpt  ", "模型 ID").unwrap(), "gpt");
    assert_eq!(
        validate_name("  ", "模型 ID").unwrap_err().text(),
        "配置错误: 模型 ID不能为空"
    );
    assert_eq!(
        validate_name(&"中".repeat(201), "模型 ID").unwrap_err().text(),
        "配置错误: 模型 ID最多 200 个字符，且不能包含控制字符"
    );
    assert!(validate_name(&"中".repeat(200), "模型 ID").is_ok());
}

#[test]
fn a_catalog_that_is_not_ours_leaves_the_document_untouched() {
    let text = "# mine\nmodel_catalog_json   =  'models.json' # keep\n\n# end\n";
    let mut doc: DocumentMut = text.parse().unwrap();
    release_catalog(&mut doc, false);
    assert_eq!(doc.to_string(), text);
    release_catalog(&mut doc, true);
    assert!(doc.get("model_catalog_json").is_none());
}

#[test]
fn a_published_catalog_is_published_again_as_it_is() {
    let rows = [mapping("model", "Name", None)];
    let step = |doc: &DocumentMut| match prepare_model_catalog("provider", &rows, "model", doc) {
        Ok(CatalogStep::Publish { filename, catalog }) => (filename, catalog),
        _ => panic!("nothing to publish"),
    };
    let mut doc = DocumentMut::new();
    let (filename, catalog) = step(&doc);
    point_to_catalog(&mut doc, "/somewhere/else.json");
    let pointed = doc.to_string();
    let (again, same) = step(&doc);
    assert_eq!(filename, again);
    assert_eq!(catalog, same);
    let content = serde_json::to_vec(&catalog).unwrap();
    assert!(confirm_catalog(&content, &same).is_ok());
    assert!(has_verified_ownership(&content, &again));
    point_to_catalog(&mut doc, "/somewhere/else.json");
    assert_eq!(doc.to_string(), pointed);
}
