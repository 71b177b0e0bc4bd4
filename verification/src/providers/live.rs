//! The actions on the live configuration: what each one decides, writes and reports.
use crate::error::{config, config2, config3, error_text, CodexxError, ErrorView};
use crate::json::{copy_opt_json, json_value, opt_json, parse_json, parsed_json, JsonView};
use crate::providers::live_files::AppliedLiveFiles;
use crate::providers::live_toml::{
    auth_action, configure_live_provider_auth, ensure_table, ensured_section, kept_opt,
    merge_provider_toml_into_live_with_policy, merge_source, merged_live, parse_toml_document,
    parsed_document, print_document, prints_whole_over, provider_auth_action, with_live_auth, AuthActionView, LiveAuthAction,
};
use crate::providers::model_catalog::{catalog_step, prepare_model_catalog, CatalogStep};
use crate::providers::official_auth::{auth_has_material, auth_value_has_material};
use crate::providers::store::{
    hydrates, is_placeholder_provider, lemma_rest_stays, live_ids, matching_saved_provider_ids,
    others, placeholder_provider, print_template, provider_keys, provider_section, provider_views,
    rewritten, strip_provider_bearer_tokens, stripped, ProviderView, SavedProvider,
};
use crate::providers::table::{
    delete_provider_inner, ids_of, list_saved_providers_inner, normalize_saved_provider_for_save,
    opt_provider, provider_by_id, providers_of, reads, reconciled, reconcile_active_provider,
    row_of, rows_without, saved_form, selection_without, ProviderTable, StoredView,
};
use crate::providers::transport::{configure_third_party_transport, with_transport};
use crate::text::{
    text_views, blank, bytes_text, copy_opt, copy_opt_bytes, is_blank, joined, joined3, keep,
    lemma_trimmed_twice, opt_bytes, opt_view, same_text, text_from_bytes, trim, trim_end,
    trim_end_char, trimmed, trimmed_end, utf8, utf8_error, without_trailing,
};
use crate::toml::{
    document_entries, document_spellings, document_text, get_kept_text, get_section, kept_entry,
    no_entries, set_boolean, set_section, set_text, spelled, table_entries, Entries, TomlView,
};
use serde_json::Value;
use toml_edit::{DocumentMut, Table};
use vstd::prelude::*;

verus! {

/// The official configuration before and after it was saved.
#[derive(Debug)]
pub struct AppliedSnapshot {
    pub before: Option<Vec<u8>>,
    pub after: Option<Vec<u8>>,
}

/// How a saved official configuration is put back: only while it still holds `expected`.
#[derive(Debug)]
pub struct SnapshotRestore {
    pub expected: Option<Vec<u8>>,
    pub content: Option<Vec<u8>>,
}

impl AppliedSnapshot {
    /// What undoes the save.
    pub fn rollback(&self) -> (r: SnapshotRestore)
        ensures
            opt_bytes(r.expected) == opt_bytes(self.after),
            opt_bytes(r.content) == opt_bytes(self.before),
    {
        SnapshotRestore {
            expected: copy_opt_bytes(&self.after),
            content: copy_opt_bytes(&self.before),
        }
    }
}

/// Records a save of the official configuration, unless the save failed.
pub fn update_official_snapshot(
    before: Option<Vec<u8>>,
    updated: Result<(), CodexxError>,
    after: Option<Vec<u8>>,
) -> (r: Result<AppliedSnapshot, CodexxError>)
    ensures
        match updated {
            Ok(_) => r matches Ok(snapshot) && snapshot.before == before && snapshot.after == after,
            Err(error) => r matches Err(found) && found == error,
        },
{
    match updated {
        Ok(_) => Ok(AppliedSnapshot { before, after }),
        Err(error) => Err(error),
    }
}

/// Records that the live official configuration was captured, if it was.
pub fn capture_live_official_snapshot(
    before: Option<Vec<u8>>,
    captured: bool,
    after: Option<Vec<u8>>,
) -> (r: Option<AppliedSnapshot>)
    ensures
        if captured {
            r matches Some(snapshot) && snapshot.before == before && snapshot.after == after
        } else {
            r is None
        },
{
    if captured {
        Some(AppliedSnapshot { before, after })
    } else {
        None
    }
}

/// The error of an action that was undone. `live` and `snapshot` are the errors of undoing the
/// live files and the official configuration, where that failed.
pub open spec fn undone(
    error: ErrorView,
    live: Option<ErrorView>,
    snapshot: Option<ErrorView>,
) -> ErrorView {
    match (live, snapshot) {
        (None, None) => error,
        (Some(live), None) => ErrorView::Config(
            error_text(error) + "；回滚失败："@ + "live 配置: "@ + error_text(live),
        ),
        (None, Some(snapshot)) => ErrorView::Config(
            error_text(error) + "；回滚失败："@ + "官方快照: "@ + error_text(snapshot),
        ),
        (Some(live), Some(snapshot)) => ErrorView::Config(
            error_text(error) + "；回滚失败："@ + "live 配置: "@ + error_text(live) + "；"@
                + "官方快照: "@ + error_text(snapshot),
        ),
    }
}

/// The view of an optional error.
pub open spec fn opt_error(error: Option<CodexxError>) -> Option<ErrorView> {
    match error {
        Some(error) => Some(error@),
        None => None,
    }
}

/// The error of an action that was undone.
pub fn rollback_after_failure(
    error: CodexxError,
    live: Option<CodexxError>,
    snapshot: Option<CodexxError>,
) -> (r: CodexxError)
    ensures
        r@ == undone(error@, opt_error(live), opt_error(snapshot)),
{
    if live.is_none() && snapshot.is_none() {
        return error;
    }
    let mut message = joined(&error.text(), "；回滚失败：");
    match live {
        Some(live) => {
            message.append("live 配置: ");
            message.append(&live.text());
            if let Some(snapshot) = snapshot {
                message.append("；");
                message.append("官方快照: ");
                message.append(&snapshot.text());
            }
        },
        None => {
            if let Some(snapshot) = snapshot {
                message.append("官方快照: ");
                message.append(&snapshot.text());
            }
        },
    }
    CodexxError::Config(message)
}

/// The error of an action whose saved provider was undone; `rollback` is the error of that,
/// where it failed.
pub fn rollback_persisted_provider(error: CodexxError, rollback: Option<CodexxError>) -> (r:
    CodexxError)
    ensures
        r@ == match rollback {
            None => error@,
            Some(second) => ErrorView::Database(
                error_text(error@) + "；供应商配置回滚失败: "@ + error_text(second@),
            ),
        },
{
    match rollback {
        None => error,
        Some(second) => CodexxError::Database(
            joined3(&error.text(), "；供应商配置回滚失败: ", &second.text()),
        ),
    }
}

/// The text of the configuration that a write left.
pub fn applied_config_text(live: &AppliedLiveFiles) -> (r: Result<String, CodexxError>)
    ensures
        match bytes_text(live.new_config@) {
            Some(text) => r matches Ok(found) && found@ == text,
            None => r matches Err(error) && error@ == ErrorView::Config(
                "config.toml 不是有效 UTF-8: "@ + utf8_error(live.new_config@),
            ),
        },
{
    match text_from_bytes(&live.new_config) {
        Ok(text) => Ok(text),
        Err(message) => Err(config2("config.toml 不是有效 UTF-8: ", &message)),
    }
}

/// What an action reports, with the state of the application after it.
#[derive(Debug)]
pub struct ActionResult<S> {
    pub ok: bool,
    pub message: String,
    pub backup_id: Option<String>,
    pub state: S,
}

/// What an action reports once its state could be built; otherwise the error that undoes it.
pub fn finish_live_action<S>(
    message: String,
    backup_id: Option<String>,
    state: Result<S, CodexxError>,
) -> (r: Result<ActionResult<S>, CodexxError>)
    ensures
        match state {
            Ok(state) => r matches Ok(result) && result.ok && result.message == message
                && result.backup_id == backup_id && result.state == state,
            Err(error) => r matches Err(found) && found == error,
        },
{
    match state {
        Ok(state) => Ok(ActionResult { ok: true, message, backup_id, state }),
        Err(error) => Err(error),
    }
}

/// A provider to switch to, as the user enters it.
#[derive(Debug)]
pub struct ProviderInput {
    pub provider_id: Option<String>,
    pub provider_name: String,
    pub base_url: String,
    pub model: String,
    pub api_key: Option<String>,
    pub wire_api: Option<String>,
    pub requires_openai_auth: Option<bool>,
}

/// A provider to switch to, as contracts speak of it.
pub ghost struct InputView {
    pub provider_id: Option<Seq<char>>,
    pub provider_name: Seq<char>,
    pub base_url: Seq<char>,
    pub model: Seq<char>,
    pub api_key: Option<Seq<char>>,
    pub wire_api: Option<Seq<char>>,
    pub requires_openai_auth: Option<bool>,
}

impl View for ProviderInput {
    type V = InputView;

    open spec fn view(&self) -> InputView {
        InputView {
            provider_id: opt_view(self.provider_id),
            provider_name: self.provider_name@,
            base_url: self.base_url@,
            model: self.model@,
            api_key: opt_view(self.api_key),
            wire_api: opt_view(self.wire_api),
            requires_openai_auth: self.requires_openai_auth,
        }
    }
}

/// A provider's configuration to switch to, as the user enters it.
#[derive(Debug)]
pub struct ProviderTomlInput {
    pub config_text: String,
    pub api_key: Option<String>,
}

/// Everything that a switch writes and reports.
#[derive(Debug)]
pub struct PreparedSwitch {
    /// The new content of the live configuration.
    pub replacement: String,
    /// What becomes of the live credential.
    pub auth_action: LiveAuthAction,
    /// What the user is told.
    pub message: String,
}

/// The endpoint of an input, without white space and slashes at its end.
pub open spec fn input_base_url(input: InputView) -> Seq<char> {
    without_trailing(trimmed(input.base_url), '/')
}

/// Why a provider cannot be switched to, before anything is read.
pub open spec fn input_error(input: InputView) -> Option<ErrorView> {
    if input.provider_id matches Some(id) && blank(id) {
        Some(ErrorView::Config("供应商 ID 不能为空"@))
    } else if blank(input.provider_name) {
        Some(ErrorView::Config("供应商名称不能为空"@))
    } else if input_base_url(input).len() == 0 {
        Some(ErrorView::Config("base_url 不能为空"@))
    } else if blank(input.model) {
        Some(ErrorView::Config("model 不能为空"@))
    } else if placeholder_provider(trimmed(input.provider_name), input_base_url(input)) {
        Some(
            ErrorView::Config("供应商名称和 base_url 不能使用示例占位值，请填写实际配置"@),
        )
    } else {
        None
    }
}

/// Checks a provider before it is switched to, before anything is read.
pub fn check_provider_input(input: &ProviderInput) -> (r: Result<(), CodexxError>)
    ensures
        match input_error(input@) {
            Some(error) => r matches Err(found) && found@ == error,
            None => r is Ok,
        },
{
    if let Some(id) = &input.provider_id {
        if is_blank(id) {
            return Err(config("供应商 ID 不能为空"));
        }
    }
    let provider_name = trim(&input.provider_name);
    let base_url = trim_end_char(&trim(&input.base_url), '/');
    if provider_name.as_str().is_empty() {
        return Err(config("供应商名称不能为空"));
    }
    if base_url.as_str().is_empty() {
        return Err(config("base_url 不能为空"));
    }
    if is_blank(&input.model) {
        return Err(config("model 不能为空"));
    }
    if is_placeholder_provider(&provider_name, &base_url) {
        return Err(
            config("供应商名称和 base_url 不能使用示例占位值，请填写实际配置"),
        );
    }
    Ok(())
}

/// Whether a provider authenticates with the official credential file; it does unless stated.
pub open spec fn input_uses_auth(input: InputView) -> bool {
    input.requires_openai_auth != Some(false)
}

/// The table of a provider that the user entered.
pub open spec fn input_section(input: InputView) -> Entries {
    with_live_auth(
        with_transport(no_entries(), input_base_url(input), false).insert(
            "name"@,
            TomlView::Text(trimmed(input.provider_name)),
        ).insert("base_url"@, TomlView::Text(input_base_url(input))).insert(
            "wire_api"@,
            TomlView::Text(
                match input.wire_api {
                    Some(wire_api) => wire_api,
                    None => "responses"@,
                },
            ),
        ).insert("requires_openai_auth"@, TomlView::Boolean(input_uses_auth(input))),
        kept_opt(input.api_key),
        input_uses_auth(input),
    )
}

/// The live configuration after a switch to a provider that the user entered.
pub open spec fn switched_entries(input: InputView, current_text: Seq<char>) -> Result<
    Entries,
    ErrorView,
> {
    match parsed_document("config.toml"@, current_text) {
        Err(error) => Err(error),
        Ok(current) => {
            let chosen = stripped(current).insert(
                "model_provider"@,
                TomlView::Text("custom"@),
            ).insert("model"@, TomlView::Text(trimmed(input.model)));
            match ensured_section(chosen, "model_providers"@) {
                Err(error) => Err(error),
                Ok(providers) => if input_uses_auth(input) && kept_opt(input.api_key) is None {
                    Err(
                        ErrorView::Config("该供应商需要 API Key，未切换且未修改 auth.json"@),
                    )
                } else {
                    Ok(
                        chosen.insert(
                            "model_providers"@,
                            TomlView::Section(
                                providers.insert(
                                    "custom"@,
                                    TomlView::Section(input_section(input)),
                                ),
                            ),
                        ),
                    )
                },
            }
        },
    }
}

/// Prepares a switch to a provider that the user entered: it takes the place of the provider that
/// the live configuration lists as `custom`; everything shared stays as it is written.
pub fn switch_provider_locked(input: &ProviderInput, current_text: &str) -> (r: Result<
    PreparedSwitch,
    CodexxError,
>)
    ensures
        match input_error(input@) {
            Some(error) => r matches Err(found) && found@ == error,
            None => match switched_entries(input@, current_text@) {
                Err(error) => r matches Err(found) && found@ == error,
                Ok(entries) => r matches Ok(prepared) && prints_whole_over(
                    prepared.replacement@,
                    entries,
                    spelled(current_text@),
                    provider_keys(),
                ) && prepared.auth_action@ == auth_action(input@.api_key) && prepared.message@
                    == "已切换到 "@ + trimmed(input@.provider_name),
            },
        },
{
    if let Err(error) = check_provider_input(input) {
        return Err(error);
    }
    let provider_name = trim(&input.provider_name);
    let base_url = trim_end_char(&trim(&input.base_url), '/');
    let mut doc = match parse_toml_document("config.toml", current_text) {
        Ok(doc) => doc,
        Err(error) => return Err(error),
    };
    strip_provider_bearer_tokens(&mut doc);
    let ghost bare = document_spellings(doc);
    set_text(doc.as_table_mut(), "model_provider", "custom");
    let ghost routed = document_spellings(doc);
    set_text(doc.as_table_mut(), "model", &trim(&input.model));
    let ghost chosen = document_spellings(doc);
    let mut providers = match ensure_table(doc.as_table(), "model_providers") {
        Ok(providers) => providers,
        Err(error) => return Err(error),
    };
    let ghost listed = table_entries(providers);
    let _ = providers.remove("custom");
    let mut table = Table::new();
    configure_third_party_transport(&mut table, &base_url, false);
    set_text(&mut table, "name", &provider_name);
    set_text(&mut table, "base_url", &base_url);
    match &input.wire_api {
        Some(wire_api) => set_text(&mut table, "wire_api", wire_api),
        None => set_text(&mut table, "wire_api", "responses"),
    }
    let requires_openai_auth: bool = match input.requires_openai_auth {
        Some(value) => value,
        None => true,
    };
    set_boolean(&mut table, "requires_openai_auth", requires_openai_auth);
    let api_key = match &input.api_key {
        Some(key) => keep(key),
        None => None,
    };
    if requires_openai_auth && api_key.is_none() {
        return Err(config("该供应商需要 API Key，未切换且未修改 auth.json"));
    }
    configure_live_provider_auth(&mut table, &api_key, requires_openai_auth);
    assert(table_entries(table) == input_section(input@));
    set_section(&mut providers, "custom", table);
    assert(table_entries(providers) =~= listed.insert(
        "custom"@,
        TomlView::Section(input_section(input@)),
    ));
    set_section(doc.as_table_mut(), "model_providers", providers);
    proof {
        lemma_rest_stays(bare, routed, "model_provider"@, provider_keys());
        lemma_rest_stays(routed, chosen, "model"@, provider_keys());
        lemma_rest_stays(chosen, document_spellings(doc), "model_providers"@, provider_keys());
        if let Some(key) = input@.api_key {
            lemma_trimmed_twice(key);
        }
    }
    Ok(
        PreparedSwitch {
            replacement: print_document(&doc),
            auth_action: provider_auth_action(&api_key),
            message: joined("已切换到 ", &provider_name),
        },
    )
}

/// A provider's configuration merged into the live one, and what is to be done about its catalog.
pub struct MergedConfig {
    pub doc: DocumentMut,
    pub api_key: Option<String>,
    pub catalog: CatalogStep,
}

/// Merges a provider's configuration into the live one and decides about its catalog. The catalog
/// of a saved provider is decided once the shared settings are in place, so that the menu of
/// another provider cannot come back; without a saved provider it is left alone. The settings that
/// do not follow the provider stay as they are written.
pub fn save_provider_toml_config_with_catalog_locked(
    input: &ProviderTomlInput,
    current_text: &str,
    saved: Option<&SavedProvider>,
    explicit_full_config: bool,
) -> (r: Result<MergedConfig, CodexxError>)
    ensures
        match merged_live(
            current_text@,
            trimmed_end(input.config_text@),
            opt_view(input.api_key),
            explicit_full_config,
        ) {
            Err(error) => r matches Err(found) && found@ == error,
            Ok((entries, key)) => match saved {
                None => r matches Ok(merged) && document_entries(merged.doc) == entries && opt_view(
                    merged.api_key,
                ) == key && merged.catalog is Keep,
                Some(saved) => match catalog_step(
                    saved@.id,
                    saved@.model_mappings,
                    saved@.model,
                    entries,
                ) {
                    Err(error) => r matches Err(found) && found@ == error,
                    Ok(step) => r matches Ok(merged) && document_entries(merged.doc) == entries
                        && opt_view(merged.api_key) == key && merged.catalog@ == step,
                },
            },
        },
        r matches Ok(merged) ==> others(document_spellings(merged.doc)) == others(
            spelled(
                merge_source(current_text@, trimmed_end(input.config_text@), explicit_full_config),
            ),
        ),
{
    let (doc, api_key) = match merge_provider_toml_into_live_with_policy(
        current_text,
        &trim_end(&input.config_text),
        &input.api_key,
        explicit_full_config,
    ) {
        Ok(merged) => merged,
        Err(error) => return Err(error),
    };
    let catalog = match saved {
        Some(saved) => match prepare_model_catalog(
            &saved.id,
            &saved.model_mappings,
            &saved.model,
            &doc,
        ) {
            Ok(step) => step,
            Err(error) => return Err(error),
        },
        None => CatalogStep::Keep,
    };
    Ok(MergedConfig { doc, api_key, catalog })
}

/// Merges a provider's configuration into the live one, its catalog left alone.
pub fn save_provider_toml_config_locked(input: &ProviderTomlInput, current_text: &str) -> (r: Result<
    MergedConfig,
    CodexxError,
>)
    ensures
        match merged_live(
            current_text@,
            trimmed_end(input.config_text@),
            opt_view(input.api_key),
            false,
        ) {
            Err(error) => r matches Err(found) && found@ == error,
            Ok((entries, key)) => r matches Ok(merged) && document_entries(merged.doc) == entries
                && opt_view(merged.api_key) == key && merged.catalog is Keep,
        },
        r matches Ok(merged) ==> others(document_spellings(merged.doc)) == others(
            spelled(merge_source(current_text@, trimmed_end(input.config_text@), false)),
        ),
{
    save_provider_toml_config_with_catalog_locked(input, current_text, None, false)
}

/// The name that a live configuration shows for its provider.
pub open spec fn shown_name(entries: Entries) -> Seq<char> {
    match provider_section(entries, "custom"@) {
        Some(section) => match kept_entry(section, "name"@) {
            Some(name) => name,
            None => "供应商"@,
        },
        None => "供应商"@,
    }
}

/// Prepares the write of a merged configuration, once its catalog is settled.
pub fn prepare_merged_switch(doc: &DocumentMut, api_key: &Option<String>) -> (r: PreparedSwitch)
    ensures
        r.replacement@ == trimmed_end(document_text(*doc)) + "\n"@,
        r.auth_action@ == auth_action(opt_view(*api_key)),
        r.message@ == "已切换到 "@ + shown_name(document_entries(*doc)),
{
    let mut name = "供应商".to_owned();
    if let Some(providers) = get_section(doc.as_table(), "model_providers") {
        if let Some(section) = get_section(providers, "custom") {
            if let Some(found) = get_kept_text(section, "name") {
                name = found;
            }
        }
    }
    PreparedSwitch {
        replacement: joined(&print_template(doc), "\n"),
        auth_action: provider_auth_action(api_key),
        message: joined("已切换到 ", &name),
    }
}

/// Where the configuration of a saved provider comes from when it is applied.
#[derive(Debug, Clone, Copy, PartialEq, Eq, Structural)]
pub enum ActivationSource {
    /// Its own template as it stands.
    Template,
    /// A draft made of its fields.
    Draft,
    /// The current configuration with the provider's settings.
    Activation,
}

/// Where the configuration of a saved provider comes from when it is applied, with or without the
/// settings that providers share. A provider with a menu of models has to speak the Responses
/// interface.
pub fn apply_saved_provider_with_policy_locked(saved: &SavedProvider, apply_common_config: bool) -> (r:
    Result<ActivationSource, CodexxError>)
    ensures
        if saved@.model_mappings.len() > 0 && saved@.wire_api != "responses"@ {
            r matches Err(error) && error@ == ErrorView::Config(
                "模型映射需要供应商提供 Responses 兼容接口，请检查 Wire API 设置"@,
            )
        } else if !apply_common_config {
            r == Ok::<ActivationSource, CodexxError>(ActivationSource::Activation)
        } else if saved@.toml_config is Some {
            r == Ok::<ActivationSource, CodexxError>(ActivationSource::Template)
        } else {
            r == Ok::<ActivationSource, CodexxError>(ActivationSource::Draft)
        },
{
    if saved.model_mappings.len() > 0 && !same_text(&saved.wire_api, "responses") {
        return Err(
            config("模型映射需要供应商提供 Responses 兼容接口，请检查 Wire API 设置"),
        );
    }
    if !apply_common_config {
        Ok(ActivationSource::Activation)
    } else if saved.toml_config.is_some() {
        Ok(ActivationSource::Template)
    } else {
        Ok(ActivationSource::Draft)
    }
}

/// Where the configuration of a saved provider comes from when it is applied on its own.
pub fn apply_saved_provider_locked(saved: &SavedProvider) -> (r: Result<
    ActivationSource,
    CodexxError,
>)
    ensures
        if saved@.model_mappings.len() > 0 && saved@.wire_api != "responses"@ {
            r matches Err(error) && error@ == ErrorView::Config(
                "模型映射需要供应商提供 Responses 兼容接口，请检查 Wire API 设置"@,
            )
        } else {
            r == Ok::<ActivationSource, CodexxError>(ActivationSource::Activation)
        },
{
    apply_saved_provider_with_policy_locked(saved, false)
}

/// The saved provider that is to be activated.
pub fn activate_saved_provider_inner(table: &ProviderTable, provider_id: &str) -> (r: Result<
    SavedProvider,
    CodexxError,
>)
    ensures
        match row_of(table@, trimmed(provider_id@)) {
            Some(row) => r matches Ok(found) && hydrates(
                row.provider,
                found@,
            ),
            None => r matches Err(error) && error@ == ErrorView::Config(
                "供应商已不存在，请刷新列表后重试"@,
            ),
        },
{
    match provider_by_id(table, &trim(provider_id)) {
        Some(provider) => Ok(provider),
        None => Err(config("供应商已不存在，请刷新列表后重试")),
    }
}

/// Why a provider cannot be saved as the active one: nothing but official is active, its
/// identifier belongs to another record, or the live configuration is another record.
pub open spec fn active_save_error(
    id: Seq<char>,
    live: Option<ProviderView>,
    selected: Option<Seq<char>>,
    saved: Seq<ProviderView>,
) -> Option<ErrorView> {
    match live {
        None => Some(
            ErrorView::Config("当前不是可编辑的第三方供应商，未修改保存记录"@),
        ),
        Some(live) => {
            let active = live_ids(selected, live, saved);
            if active.len() == 0 {
                if exists|i: int| 0 <= i < saved.len() && (#[trigger] saved[i]).id == id {
                    Some(
                        ErrorView::Config(
                            "供应商 ID "@ + id + " 已被另一条配置使用，请更换名称后再保存"@,
                        ),
                    )
                } else {
                    None
                }
            } else if !active.contains(id) {
                Some(
                    ErrorView::Config(
                        "当前 live 配置不匹配供应商 "@ + id + "，不能作为活动配置保存"@,
                    ),
                )
            } else {
                None
            }
        },
    }
}

/// Whether a result is what checking a save of the active provider gives.
pub open spec fn checks_active_save(
    rows: Seq<StoredView>,
    provider: ProviderView,
    live: Option<ProviderView>,
    selected: Option<Seq<char>>,
    r: Result<SavedProvider, CodexxError>,
) -> bool {
    match saved_form(ids_of(rows), provider) {
        Err(error) => r matches Err(found) && found@ == error,
        Ok((view, template)) => exists|stored: Seq<StoredView>| #[trigger]
            reads(rows, stored) && match active_save_error(
                view.id,
                live,
                selected,
                providers_of(stored),
            ) {
                Some(error) => r matches Err(found) && found@ == error,
                None => r matches Ok(found) && rewritten(
                    view,
                    template,
                    found@,
                ),
            },
    }
}

/// Checks that a provider may be saved as the active one, and gives it in the form in which it is
/// saved.
pub fn save_active_provider_with_apply(
    table: &ProviderTable,
    provider: SavedProvider,
    live: &Option<SavedProvider>,
    selected: &Option<String>,
) -> (r: Result<SavedProvider, CodexxError>)
    ensures
        checks_active_save(
            table@,
            provider@,
            opt_provider(*live),
            opt_view(*selected),
            r,
        ),
{
    let provider = match normalize_saved_provider_for_save(table, provider) {
        Ok(provider) => provider,
        Err(error) => return Err(error),
    };
    let saved = list_saved_providers_inner(table);
    let ghost stored = choose|stored: Seq<StoredView>| #[trigger]
        reads(table@, stored) && provider_views(saved@) == providers_of(stored);
    assert(reads(table@, stored) && provider_views(saved@) == providers_of(stored));
    let live = match live {
        Some(live) => live,
        None => return Err(
            config("当前不是可编辑的第三方供应商，未修改保存记录"),
        ),
    };
    let active = matching_saved_provider_ids(selected, live, &saved);
    if active.len() == 0 {
        if has_id(&saved, &provider.id) {
            return Err(
                config3(
                    "供应商 ID ",
                    &provider.id,
                    " 已被另一条配置使用，请更换名称后再保存",
                ),
            );
        }
    } else if !has_text(&active, &provider.id) {
        return Err(
            config3(
                "当前 live 配置不匹配供应商 ",
                &provider.id,
                "，不能作为活动配置保存",
            ),
        );
    }
    Ok(provider)
}

fn has_id(providers: &Vec<SavedProvider>, id: &str) -> (r: bool)
    ensures
        r == exists|i: int|
            0 <= i < provider_views(providers@).len() && (#[trigger] provider_views(
                providers@,
            )[i]).id == id@,
{
    let ghost all = provider_views(providers@);
    let mut i: usize = 0;
    while i < providers.len()
        invariant
            i <= providers@.len(),
            all == provider_views(providers@),
            forall|j: int| 0 <= j < i ==> (#[trigger] all[j]).id != id@,
        decreases providers@.len() - i,
    {
        if same_text(&providers[i].id, id) {
            assert(all[i as int].id == id@);
            return true;
        }
        i = i + 1;
    }
    false
}

fn has_text(texts: &Vec<String>, text: &str) -> (r: bool)
    ensures
        r == text_views(texts@).contains(text@),
{
    let ghost all = text_views(texts@);
    let mut i: usize = 0;
    while i < texts.len()
        invariant
            i <= texts@.len(),
            all == text_views(texts@),
            forall|j: int| 0 <= j < i ==> all[j] != text@,
        decreases texts@.len() - i,
    {
        if same_text(&texts[i], text) {
            assert(all[i as int] == text@);
            return true;
        }
        i = i + 1;
    }
    false
}

/// What a save of the active provider reports, given how applying it went. Where that failed, the
/// save was undone; `rollback` is the error of undoing it, where there was one.
pub fn finish_active_save<S>(
    applied: Result<ActionResult<S>, CodexxError>,
    rollback: Option<CodexxError>,
) -> (r: Result<ActionResult<S>, CodexxError>)
    ensures
        match applied {
            Ok(result) => r matches Ok(found) && found.message@ == "供应商配置已保存并热更新"@
                && found.ok == result.ok && found.backup_id == result.backup_id && found.state
                == result.state,
            Err(error) => r matches Err(found) && found@ == match rollback {
                None => error@,
                Some(second) => ErrorView::Database(
                    "热更新供应商失败: "@ + error_text(error@) + "；数据库回滚也失败: "@
                        + error_text(second@),
                ),
            },
        },
{
    match applied {
        Ok(result) => Ok(
            ActionResult {
                ok: result.ok,
                message: "供应商配置已保存并热更新".to_owned(),
                backup_id: result.backup_id,
                state: result.state,
            },
        ),
        Err(error) => match rollback {
            None => Err(error),
            Some(second) => {
                let mut message = joined3(
                    "热更新供应商失败: ",
                    &error.text(),
                    "；数据库回滚也失败: ",
                );
                message.append(&second.text());
                Err(CodexxError::Database(message))
            },
        },
    }
}

/// Whether a result is what deleting a saved provider gives: the one in use is not deleted.
pub open spec fn deletes(
    before: Seq<StoredView>,
    id: Seq<char>,
    live: Option<ProviderView>,
    selected: Option<Seq<char>>,
    after: Seq<StoredView>,
    selected_after: Option<Seq<char>>,
    r: Result<(), CodexxError>,
) -> bool {
    let name = trimmed(id);
    if blank(id) {
        r matches Err(error) && error@ == ErrorView::Config("供应商 ID 不能为空"@) && after
            == before && selected_after == selected
    } else {
        exists|stored: Seq<StoredView>| #[trigger]
            reads(before, stored) && if live matches Some(live) && (live.id == name || reconciled(
                selected,
                live_ids(selected, live, providers_of(stored)),
            ) == Some(name)) {
                r matches Err(error) && error@ == ErrorView::Config(
                    "不能直接删除当前启用的供应商，请先切换到官方配置或其他供应商"@,
                ) && after == before && selected_after == selected
            } else {
                r is Ok && after == rows_without(before, name) && selected_after
                    == selection_without(selected, name)
            }
    }
}

/// Deletes a saved provider, unless it is the one in use, and forgets it where it was remembered as
/// the selected one.
pub fn delete_saved_provider_inner(
    table: &mut ProviderTable,
    id: &str,
    live: &Option<SavedProvider>,
    selected: &mut Option<String>,
) -> (r: Result<(), CodexxError>)
    ensures
        deletes(
            old(table)@,
            id@,
            opt_provider(*live),
            opt_view(*old(selected)),
            final(table)@,
            opt_view(*final(selected)),
            r,
        ),
{
    let name = trim(id);
    if name.as_str().is_empty() {
        return Err(config("供应商 ID 不能为空"));
    }
    let saved = list_saved_providers_inner(table);
    let ghost stored = choose|stored: Seq<StoredView>| #[trigger]
        reads(table@, stored) && provider_views(saved@) == providers_of(stored);
    assert(reads(table@, stored) && provider_views(saved@) == providers_of(stored));
    if let Some(live) = live {
        let candidates = matching_saved_provider_ids(selected, live, &saved);
        let active: bool = match reconcile_active_provider(selected, &candidates) {
            Some(active) => same_text(&active, &name),
            None => false,
        };
        if same_text(&live.id, &name) || active {
            return Err(
                config("不能直接删除当前启用的供应商，请先切换到官方配置或其他供应商"),
            );
        }
    }
    delete_provider_inner(table, selected, &name);
    Ok(())
}

/// An official configuration that could be used.
#[derive(Debug)]
pub struct OfficialCandidate {
    pub model: Option<String>,
    pub config_text: Option<String>,
    pub auth: Option<Value>,
}

/// An official configuration that could be used, as contracts speak of it.
pub ghost struct CandidateView {
    pub model: Option<Seq<char>>,
    pub config_text: Option<Seq<char>>,
    pub auth: Option<JsonView>,
}

impl View for OfficialCandidate {
    type V = CandidateView;

    open spec fn view(&self) -> CandidateView {
        CandidateView {
            model: opt_view(self.model),
            config_text: opt_view(self.config_text),
            auth: opt_json(self.auth),
        }
    }
}

/// The view of an optional candidate.
pub open spec fn opt_candidate(candidate: Option<OfficialCandidate>) -> Option<CandidateView> {
    match candidate {
        Some(candidate) => Some(candidate@),
        None => None,
    }
}

/// The credential that an official configuration is saved with: the one given, if it is usable,
/// otherwise the one that is already there.
pub open spec fn official_auth_choice(
    auth_json: Option<Seq<char>>,
    existing: Option<CandidateView>,
) -> Result<JsonView, ErrorView> {
    match kept_opt(auth_json) {
        Some(text) => match parsed_json(utf8(text)) {
            Err(message) => Err(ErrorView::Config("auth.json: "@ + message)),
            Ok(value) => if value is Object && auth_has_material(value) {
                Ok(value)
            } else {
                Err(
                    ErrorView::Config(
                        "官方 auth.json 必须是包含有效认证信息的 JSON object"@,
                    ),
                )
            },
        },
        None => match existing {
            Some(CandidateView { auth: Some(auth), .. }) => Ok(auth),
            _ => Err(ErrorView::Config("没有可保存的官方认证，请先完成官方登录"@)),
        },
    }
}

/// The configuration that an official configuration is saved with: the one given, otherwise the
/// one that is already there.
pub open spec fn official_config_choice(
    config_text: Option<Seq<char>>,
    existing: Option<CandidateView>,
) -> Option<Seq<char>> {
    match kept_opt(config_text) {
        Some(text) => Some(text),
        None => match existing {
            Some(candidate) => candidate.config_text,
            None => None,
        },
    }
}

/// What a save of the official configuration saves. Without a requested configuration one is
/// made.
#[derive(Debug)]
pub struct OfficialSave {
    pub auth: Value,
    pub requested_config: Option<String>,
    pub model: Option<String>,
    /// Whether the live files are written too, because the official route is in use.
    pub writes_live: bool,
    pub message: String,
}

/// Decides what a save of the official configuration saves.
pub fn save_official_config_inner(
    model: &Option<String>,
    auth_json: &Option<String>,
    config_text: &Option<String>,
    existing: &Option<OfficialCandidate>,
    live_is_official: bool,
) -> (r: Result<OfficialSave, CodexxError>)
    ensures
        match official_auth_choice(opt_view(*auth_json), opt_candidate(*existing)) {
            Err(error) => r matches Err(found) && found@ == error,
            Ok(auth) => r matches Ok(save) && json_value(save.auth) == auth && opt_view(
                save.requested_config,
            ) == official_config_choice(opt_view(*config_text), opt_candidate(*existing))
                && opt_view(save.model) == kept_opt(opt_view(*model)) && save.writes_live
                == live_is_official && save.message@ == if live_is_official {
                "已保存并更新当前 OpenAI Official 配置"@
            } else {
                "已保存 OpenAI Official 配置"@
            },
        },
{
    let auth = match keep_text(auth_json) {
        Some(text) => match parse_json(text.as_str().as_bytes()) {
            Err(message) => return Err(config2("auth.json: ", &message)),
            Ok(value) => if value.is_object() && auth_value_has_material(&value) {
                value
            } else {
                return Err(
                    config("官方 auth.json 必须是包含有效认证信息的 JSON object"),
                );
            },
        },
        None => match existing {
            Some(candidate) => match &candidate.auth {
                Some(auth) => auth.clone(),
                None => return Err(
                    config("没有可保存的官方认证，请先完成官方登录"),
                ),
            },
            None => return Err(config("没有可保存的官方认证，请先完成官方登录")),
        },
    };
    let requested_config = match keep_text(config_text) {
        Some(text) => Some(text),
        None => match existing {
            Some(candidate) => copy_opt(&candidate.config_text),
            None => None,
        },
    };
    let message = if live_is_official {
        "已保存并更新当前 OpenAI Official 配置".to_owned()
    } else {
        "已保存 OpenAI Official 配置".to_owned()
    };
    Ok(
        OfficialSave {
            auth,
            requested_config,
            model: keep_text(model),
            writes_live: live_is_official,
            message,
        },
    )
}

/// The configuration that an official action was asked to write, trimmed; none where one is to be
/// made.
pub fn requested_official_config(config_text: &Option<String>) -> (r: Option<String>)
    ensures
        opt_view(r) == kept_opt(opt_view(*config_text)),
{
    keep_text(config_text)
}

fn keep_text(text: &Option<String>) -> (r: Option<String>)
    ensures
        opt_view(r) == kept_opt(opt_view(*text)),
{
    match text {
        Some(text) => keep(text),
        None => None,
    }
}

/// What a switch to the official interface writes and reports.
#[derive(Debug)]
pub struct OfficialSwitch {
    pub config_text: Option<String>,
    pub model: Option<String>,
    /// Whether the model is taken out of the configuration.
    pub clear_model: bool,
    pub auth_action: LiveAuthAction,
    pub message: String,
}

/// What becomes of the live credential on a switch to the official interface. A key seen under a
/// third-party route is never kept for it.
pub open spec fn official_auth_action(candidate: Option<CandidateView>, was_official: bool) -> AuthActionView {
    match candidate {
        Some(CandidateView { auth: Some(auth), .. }) => AuthActionView::Replace(auth),
        Some(_) => AuthActionView::Remove,
        None => if was_official {
            AuthActionView::Keep
        } else {
            AuthActionView::Remove
        },
    }
}

/// Decides a switch to the official interface.
pub fn switch_official_provider_with_pre_persist(
    candidate: &Option<OfficialCandidate>,
    was_official: bool,
) -> (r: OfficialSwitch)
    ensures
        r.auth_action@ == official_auth_action(opt_candidate(*candidate), was_official),
        opt_view(r.config_text) == match *candidate {
            Some(candidate) => opt_view(candidate.config_text),
            None => None,
        },
        opt_view(r.model) == match *candidate {
            Some(candidate) => opt_view(candidate.model),
            None => None,
        },
        r.clear_model == (!was_official && r.model is None),
        r.message@ == if r.auth_action@ is Replace {
            "已切换到 OpenAI Official"@
        } else {
            "已切换到 OpenAI Official，请在 Codex 中完成登录"@
        },
{
    let (config_text, model, auth, known) = match candidate {
        Some(candidate) => (
            copy_opt(&candidate.config_text),
            copy_opt(&candidate.model),
            copy_opt_json(&candidate.auth),
            true,
        ),
        None => (None, None, None, false),
    };
    let message = if auth.is_some() {
        "已切换到 OpenAI Official".to_owned()
    } else {
        "已切换到 OpenAI Official，请在 Codex 中完成登录".to_owned()
    };
    let auth_action = match auth {
        Some(auth) => LiveAuthAction::Replace(auth),
        None => if known || !was_official {
            LiveAuthAction::Remove
        } else {
            LiveAuthAction::Keep
        },
    };
    let clear_model: bool = !was_official && model.is_none();
    OfficialSwitch { config_text, model, clear_model, auth_action, message }
}

/// The official configuration that is restored, and what is reported of it.
pub fn restore_official_provider_inner(candidate: Option<OfficialCandidate>) -> (r: Result<
    (OfficialCandidate, String),
    CodexxError,
>)
    ensures
        match candidate {
            Some(candidate) => r matches Ok((restored, message)) && restored == candidate
                && message@ == "已还原 OpenAI Official 配置"@,
            None => r matches Err(error) && error@ == ErrorView::Config(
                "未找到可信的官方认证快照或官方模式历史备份，请新建官方配置后重新登录"@,
            ),
        },
{
    match candidate {
        Some(candidate) => Ok((candidate, "已还原 OpenAI Official 配置".to_owned())),
        None => Err(
            config("未找到可信的官方认证快照或官方模式历史备份，请新建官方配置后重新登录"),
        ),
    }
}

/// A new official configuration: always without a credential.
pub fn reset_official_provider_inner(model: &Option<String>, config_text: &Option<String>) -> (r:
    OfficialSwitch)
    ensures
        opt_view(r.model) == kept_opt(opt_view(*model)),
        opt_view(r.config_text) == kept_opt(opt_view(*config_text)),
        r.clear_model == (kept_opt(opt_view(*model)) is None),
        r.auth_action@ == AuthActionView::Remove,
        r.message@ == "已新建 OpenAI Official 配置，请在 Codex 中重新登录"@,
{
    let model = keep_text(model);
    let clear_model: bool = model.is_none();
    OfficialSwitch {
        config_text: keep_text(config_text),
        model,
        clear_model,
        auth_action: LiveAuthAction::Remove,
        message: "已新建 OpenAI Official 配置，请在 Codex 中重新登录".to_owned(),
    }
}

} // verus!
