//! What holds of the live configuration that is merged, activated and drafted.
use crate::error::CodexxError;
use crate::json::{field, json_value, parsed_json, text_of};
use crate::providers::live_laws::law_official_activation_isolates_accounts;
use crate::providers::live_toml::{
    build_provider_toml_draft_with_origin_inner, clear_foreign_provider_credentials,
    complete_config, configure_live_provider_auth, detected_live_custom_provider, draft_entries,
    draft_provider, is_provider_only_document, live_auth_api_key,
    merge_provider_toml_into_live_with_policy, model_keys, official_activation_config_text,
    official_activation_entries, overlay_provider_template, preferences_of,
    provider_activation_document, provider_config_base_document, recovers_shared_tables, route_keys,
    saved_preferences, saved_template, switched_section, with_model_keys, with_route_keys,
};
use crate::providers::official_auth::{
    auth_value_has_material, config_snapshot_is_official, document_is_official,
};
use crate::providers::store::{
    bearer_token, canonical_url, normal_form, provider_section, stripped, without_token,
    ProviderView, SavedProvider,
};
use crate::providers::transport::{
    configure_third_party_transport, deepseek_endpoint, is_deepseek_http_endpoint,
};
use crate::text::{blank, bytes_text, kept, opt_view, trimmed};
use crate::toml::{
    boolean_entry, document_entries, document_text, fields_of, kept_entry, parsed_toml,
    section_entry, table_entries, text_entry, Entries, TomlView,
};
use crate::web::url_origin;
use serde_json::Value;
use toml_edit::{DocumentMut, Table};
use vstd::prelude::*;

verus! {

proof fn lemma_settings_differ()
    ensures
        "model"@ != "model_provider"@,
        "model"@ != "model_providers"@,
        "model"@ != "experimental_bearer_token"@,
        "model_provider"@ != "model_providers"@,
        "model_provider"@ != "experimental_bearer_token"@,
        "model_providers"@ != "experimental_bearer_token"@,
{
    reveal_strlit("model");
    reveal_strlit("model_provider");
    reveal_strlit("model_providers");
    reveal_strlit("experimental_bearer_token");
    assert("model"@.len() == 5);
    assert("model_provider"@.len() == 14);
    assert("model_providers"@.len() == 15);
    assert("experimental_bearer_token"@.len() == 25);
}

proof fn lemma_fields_differ()
    ensures
        "name"@ != "base_url"@,
        "name"@ != "wire_api"@,
        "name"@ != "requires_openai_auth"@,
        "name"@ != "supports_websockets"@,
        "name"@ != "experimental_bearer_token"@,
        "name"@ != "env_key"@,
        "name"@ != "env_key_instructions"@,
        "name"@ != "auth"@,
        "name"@ != "http_headers"@,
        "name"@ != "env_http_headers"@,
        "name"@ != "query_params"@,
        "base_url"@ != "wire_api"@,
        "base_url"@ != "requires_openai_auth"@,
        "base_url"@ != "supports_websockets"@,
        "base_url"@ != "experimental_bearer_token"@,
        "base_url"@ != "env_key"@,
        "base_url"@ != "env_key_instructions"@,
        "base_url"@ != "auth"@,
        "base_url"@ != "http_headers"@,
        "base_url"@ != "env_http_headers"@,
        "base_url"@ != "query_params"@,
        "wire_api"@ != "requires_openai_auth"@,
        "wire_api"@ != "supports_websockets"@,
        "wire_api"@ != "experimental_bearer_token"@,
        "wire_api"@ != "env_key"@,
        "wire_api"@ != "env_key_instructions"@,
        "wire_api"@ != "auth"@,
        "wire_api"@ != "http_headers"@,
        "wire_api"@ != "env_http_headers"@,
        "wire_api"@ != "query_params"@,
        "requires_openai_auth"@ != "supports_websockets"@,
        "requires_openai_auth"@ != "experimental_bearer_token"@,
        "requires_openai_auth"@ != "env_key"@,
        "requires_openai_auth"@ != "env_key_instructions"@,
        "requires_openai_auth"@ != "auth"@,
        "requires_openai_auth"@ != "http_headers"@,
        "requires_openai_auth"@ != "env_http_headers"@,
        "requires_openai_auth"@ != "query_params"@,
        "supports_websockets"@ != "experimental_bearer_token"@,
        "supports_websockets"@ != "env_key"@,
        "supports_websockets"@ != "env_key_instructions"@,
        "supports_websockets"@ != "auth"@,
        "supports_websockets"@ != "http_headers"@,
        "supports_websockets"@ != "env_http_headers"@,
        "supports_websockets"@ != "query_params"@,
        "experimental_bearer_token"@ != "env_key"@,
        "experimental_bearer_token"@ != "env_key_instructions"@,
        "experimental_bearer_token"@ != "auth"@,
        "experimental_bearer_token"@ != "http_headers"@,
        "experimental_bearer_token"@ != "env_http_headers"@,
        "experimental_bearer_token"@ != "query_params"@,
        "env_key"@ != "env_key_instructions"@,
        "env_key"@ != "auth"@,
        "env_key"@ != "http_headers"@,
        "env_key"@ != "env_http_headers"@,
        "env_key"@ != "query_params"@,
        "env_key_instructions"@ != "auth"@,
        "env_key_instructions"@ != "http_headers"@,
        "env_key_instructions"@ != "env_http_headers"@,
        "env_key_instructions"@ != "query_params"@,
        "auth"@ != "http_headers"@,
        "auth"@ != "env_http_headers"@,
        "auth"@ != "query_params"@,
        "http_headers"@ != "env_http_headers"@,
        "http_headers"@ != "query_params"@,
        "env_http_headers"@ != "query_params"@,
{
    reveal_strlit("name");
    reveal_strlit("base_url");
    reveal_strlit("wire_api");
    reveal_strlit("requires_openai_auth");
    reveal_strlit("supports_websockets");
    reveal_strlit("experimental_bearer_token");
    reveal_strlit("env_key");
    reveal_strlit("env_key_instructions");
    reveal_strlit("auth");
    reveal_strlit("http_headers");
    reveal_strlit("env_http_headers");
    reveal_strlit("query_params");
    assert("name"@.len() == 4);
    assert("base_url"@.len() == 8);
    assert("wire_api"@.len() == 8);
    assert("requires_openai_auth"@.len() == 20);
    assert("supports_websockets"@.len() == 19);
    assert("experimental_bearer_token"@.len() == 25);
    assert("env_key"@.len() == 7);
    assert("env_key_instructions"@.len() == 20);
    assert("auth"@.len() == 4);
    assert("http_headers"@.len() == 12);
    assert("env_http_headers"@.len() == 16);
    assert("query_params"@.len() == 12);
    assert("name"@[0] != "auth"@[0]);
    assert("base_url"@[0] != "wire_api"@[0]);
    assert("requires_openai_auth"@[0] != "env_key_instructions"@[0]);
    assert("http_headers"@[0] != "query_params"@[0]);
}

proof fn lemma_shared_differ()
    ensures
        "model"@ != "model_provider"@,
        "model"@ != "model_providers"@,
        "model"@ != "experimental_bearer_token"@,
        "model"@ != "mcp_servers"@,
        "model"@ != "desktop"@,
        "model"@ != "marketplaces"@,
        "model"@ != "plugins"@,
        "model"@ != "projects"@,
        "model_provider"@ != "model_providers"@,
        "model_provider"@ != "experimental_bearer_token"@,
        "model_provider"@ != "mcp_servers"@,
        "model_provider"@ != "desktop"@,
        "model_provider"@ != "marketplaces"@,
        "model_provider"@ != "plugins"@,
        "model_provider"@ != "projects"@,
        "model_providers"@ != "experimental_bearer_token"@,
        "model_providers"@ != "mcp_servers"@,
        "model_providers"@ != "desktop"@,
        "model_providers"@ != "marketplaces"@,
        "model_providers"@ != "plugins"@,
        "model_providers"@ != "projects"@,
        "experimental_bearer_token"@ != "mcp_servers"@,
        "experimental_bearer_token"@ != "desktop"@,
        "experimental_bearer_token"@ != "marketplaces"@,
        "experimental_bearer_token"@ != "plugins"@,
        "experimental_bearer_token"@ != "projects"@,
        "mcp_servers"@ != "desktop"@,
        "mcp_servers"@ != "marketplaces"@,
        "mcp_servers"@ != "plugins"@,
        "mcp_servers"@ != "projects"@,
        "desktop"@ != "marketplaces"@,
        "desktop"@ != "plugins"@,
        "desktop"@ != "projects"@,
        "marketplaces"@ != "plugins"@,
        "marketplaces"@ != "projects"@,
        "plugins"@ != "projects"@,
{
    reveal_strlit("model");
    reveal_strlit("model_provider");
    reveal_strlit("model_providers");
    reveal_strlit("experimental_bearer_token");
    reveal_strlit("mcp_servers");
    reveal_strlit("desktop");
    reveal_strlit("marketplaces");
    reveal_strlit("plugins");
    reveal_strlit("projects");
    assert("model"@.len() == 5);
    assert("model_provider"@.len() == 14);
    assert("model_providers"@.len() == 15);
    assert("experimental_bearer_token"@.len() == 25);
    assert("mcp_servers"@.len() == 11);
    assert("desktop"@.len() == 7);
    assert("marketplaces"@.len() == 12);
    assert("plugins"@.len() == 7);
    assert("projects"@.len() == 8);
    assert("desktop"@[0] != "plugins"@[0]);
}

/// Whether two configurations agree in a setting.
pub open spec fn agree(left: Entries, right: Entries, key: Seq<char>) -> bool {
    (left.contains_key(key) <==> right.contains_key(key)) && (left.contains_key(key) ==> left[key]
        == right[key])
}

/// The providers that a configuration lists.
pub open spec fn listed(entries: Entries) -> Entries {
    match section_entry(entries, "model_providers"@) {
        Some(providers) => providers,
        None => Map::empty(),
    }
}

/// A setting that decides where requests go and as whom.
pub open spec fn is_route_key(key: Seq<char>) -> bool {
    key == "model_provider"@ || key == "model_providers"@ || key == "base_url"@ || key == "experimental_bearer_token"@ || key == "auth"@ || key == "auth_mode"@ || key == "tokens"@ || key == "openai_api_key"@ || key == "api_key"@ || key == "api_base"@ || key == "chatgpt_base_url"@ || key == "forced_login_method"@ || key == "forced_chatgpt_workspace_id"@ || key == "env_key"@ || key == "env_key_instructions"@ || key == "http_headers"@ || key == "env_http_headers"@ || key == "query_params"@
}

/// A setting that belongs to the choice of a model.
pub open spec fn is_choice_key(key: Seq<char>) -> bool {
    key == "model"@ || key == "review_model"@ || key == "model_reasoning_effort"@ || key == "model_reasoning_summary"@ || key == "model_verbosity"@ || key == "model_context_window"@ || key == "model_auto_compact_token_limit"@ || key == "model_supports_reasoning_summaries"@ || key == "model_catalog_json"@ || key == "service_tier"@
}

proof fn lemma_route_keys(key: Seq<char>)
    ensures
        route_keys().contains(key) <==> is_route_key(key),
{
    let keys = route_keys();
    assert(keys[0] == "model_provider"@);
    assert(keys[1] == "model_providers"@);
    assert(keys[2] == "base_url"@);
    assert(keys[3] == "experimental_bearer_token"@);
    assert(keys[4] == "auth"@);
    assert(keys[5] == "auth_mode"@);
    assert(keys[6] == "tokens"@);
    assert(keys[7] == "openai_api_key"@);
    assert(keys[8] == "api_key"@);
    assert(keys[9] == "api_base"@);
    assert(keys[10] == "chatgpt_base_url"@);
    assert(keys[11] == "forced_login_method"@);
    assert(keys[12] == "forced_chatgpt_workspace_id"@);
    assert(keys[13] == "env_key"@);
    assert(keys[14] == "env_key_instructions"@);
    assert(keys[15] == "http_headers"@);
    assert(keys[16] == "env_http_headers"@);
    assert(keys[17] == "query_params"@);
    if keys.contains(key) {
        let i = choose|i: int| 0 <= i < keys.len() && keys[i] == key;
        assert(i == 0 || i == 1 || i == 2 || i == 3 || i == 4 || i == 5 || i == 6 || i == 7 || i == 8 || i == 9 || i == 10 || i == 11 || i == 12 || i == 13 || i == 14 || i == 15 || i == 16 || i == 17);
    }
}

proof fn lemma_choice_keys(key: Seq<char>)
    ensures
        model_keys().contains(key) <==> is_choice_key(key),
{
    let keys = model_keys();
    assert(keys[0] == "model"@);
    assert(keys[1] == "review_model"@);
    assert(keys[2] == "model_reasoning_effort"@);
    assert(keys[3] == "model_reasoning_summary"@);
    assert(keys[4] == "model_verbosity"@);
    assert(keys[5] == "model_context_window"@);
    assert(keys[6] == "model_auto_compact_token_limit"@);
    assert(keys[7] == "model_supports_reasoning_summaries"@);
    assert(keys[8] == "model_catalog_json"@);
    assert(keys[9] == "service_tier"@);
    if keys.contains(key) {
        let i = choose|i: int| 0 <= i < keys.len() && keys[i] == key;
        assert(i == 0 || i == 1 || i == 2 || i == 3 || i == 4 || i == 5 || i == 6 || i == 7 || i == 8 || i == 9);
    }
}

proof fn lemma_choices_follow(entries: Entries, source: Entries, n: nat, key: Seq<char>)
    requires
        n <= model_keys().len(),
    ensures
        ({
            let after = with_model_keys(entries, source, n);
            &&& !model_keys().take(n as int).contains(key) ==> agree(after, entries, key)
            &&& model_keys().take(n as int).contains(key) ==> {
                &&& source.contains_key(key) ==> after.contains_key(key) && after[key] == source[key]
                &&& !source.contains_key(key) && key == "model_catalog_json"@ ==> agree(
                    after,
                    entries,
                    key,
                )
                &&& !source.contains_key(key) && key != "model_catalog_json"@
                    ==> !after.contains_key(key)
            }
        }),
    decreases n,
{
    if n > 0 {
        lemma_choices_follow(entries, source, (n - 1) as nat, key);
        let shorter = model_keys().take(n - 1);
        let longer = model_keys().take(n as int);
        assert(longer[n - 1] == model_keys()[n - 1]);
        assert(longer.contains(key) == (shorter.contains(key) || key == model_keys()[n - 1])) by {
            if shorter.contains(key) {
                let i = shorter.index_of(key);
                assert(longer[i] == key);
            }
            if longer.contains(key) {
                let i = longer.index_of(key);
                if i < n - 1 {
                    assert(shorter[i] == key);
                }
            }
        }
    }
}

/// Activating an official profile takes every setting of the route and the account from the profile,
/// and none of them from before; the settings for the model too, but for a catalog that the profile
/// does not name; every other setting stays.
pub proof fn law_official_activations_replace_the_route(
    target_text: &str,
    base: DocumentMut,
    r: Result<(String, Option<String>), CodexxError>,
    key: Seq<char>,
) -> (doc: DocumentMut)
    requires
        call_ensures(official_activation_config_text, (target_text, base), r),
        r is Ok,
    ensures
        document_text(doc) == r->Ok_0.0@,
        parsed_toml(target_text@) matches Ok(target) && {
            let after = document_entries(doc);
            let before = document_entries(base);
            &&& is_route_key(key) ==> agree(after, target, key)
            &&& is_choice_key(key) && target.contains_key(key) ==> agree(after, target, key)
            &&& is_choice_key(key) && !target.contains_key(key) && key != "model_catalog_json"@
                ==> !after.contains_key(key)
            &&& !is_route_key(key) && !is_choice_key(key) ==> agree(after, before, key)
            &&& opt_view(r->Ok_0.1) == (match text_entry(target, "model"@) {
                Some(model) => kept(model),
                None => None,
            })
        },
{
    let target = parsed_toml(target_text@)->Ok_0;
    let before = document_entries(base);
    let entries = official_activation_entries(target, before);
    law_official_activation_isolates_accounts(target, before, key);
    lemma_route_keys(key);
    lemma_choice_keys(key);
    let middle = with_model_keys(before, target, model_keys().len());
    lemma_choices_follow(before, target, model_keys().len(), key);
    assert(model_keys().take(model_keys().len() as int) =~= model_keys());
    lemma_routes_follow(middle, target, route_keys().len(), key);
    assert(route_keys().take(route_keys().len() as int) =~= route_keys());
    choose|doc: DocumentMut| #[trigger]
        document_entries(doc) == entries && document_text(doc) == r->Ok_0.0@
}

proof fn lemma_routes_follow(entries: Entries, source: Entries, n: nat, key: Seq<char>)
    requires
        n <= route_keys().len(),
    ensures
        !route_keys().take(n as int).contains(key) ==> agree(
            with_route_keys(entries, source, n),
            entries,
            key,
        ),
    decreases n,
{
    if n > 0 {
        lemma_routes_follow(entries, source, (n - 1) as nat, key);
        let shorter = route_keys().take(n - 1);
        let longer = route_keys().take(n as int);
        assert(longer[n - 1] == route_keys()[n - 1]);
        if shorter.contains(key) {
            let i = shorter.index_of(key);
            assert(longer[i] == key);
        }
    }
}

/// Activating a saved provider routes to the provider of the draft, with its table as the draft has
/// it but for a token, and uses the model of the saved provider. The settings for the model are those
/// that its own template states. Every other setting, and every other provider but for its token,
/// stays.
pub proof fn law_activations_use_the_saved_provider(
    saved: &SavedProvider,
    draft: &str,
    base: DocumentMut,
    r: Result<DocumentMut, CodexxError>,
    key: Seq<char>,
    name: Seq<char>,
)
    requires
        call_ensures(provider_activation_document, (saved, draft, base), r),
        r is Ok,
    ensures
        parsed_toml(draft@) matches Ok(target) && {
            let after = document_entries(r->Ok_0);
            let before = document_entries(base);
            let id = trimmed(text_entry(target, "model_provider"@)->0);
            let preferences = match saved.toml_config {
                Some(text) => parsed_toml(text@)->Ok_0,
                None => Map::empty(),
            };
            &&& text_entry(after, "model"@) == Some(saved.model@)
            &&& text_entry(after, "model_provider"@) == Some(id)
            &&& !after.contains_key("experimental_bearer_token"@)
            &&& section_entry(listed(target), id) matches Some(table) ==> (section_entry(
                listed(after),
                id,
            ) matches Some(left) && !left.contains_key("experimental_bearer_token"@) && (name
                != "experimental_bearer_token"@ ==> agree(left, table, name)))
            &&& key != id && (section_entry(listed(before), key) is Some && name
                != "experimental_bearer_token"@) ==> (section_entry(
                listed(after),
                key,
            ) matches Some(left) && agree(left, section_entry(listed(before), key)->0, name))
            &&& is_choice_key(key) && key != "model"@ && preferences.contains_key(key) ==> agree(
                after,
                preferences,
                key,
            )
            &&& is_choice_key(key) && key != "model"@ && !preferences.contains_key(key) && key
                != "model_catalog_json"@ ==> !after.contains_key(key)
            &&& !is_choice_key(key) && key != "model_provider"@ && key != "model_providers"@ && key
                != "experimental_bearer_token"@ ==> agree(after, before, key)
        },
{
    lemma_settings_differ();
    lemma_choice_keys(key);
    let target = parsed_toml(draft@)->Ok_0;
    let before = document_entries(base);
    let after = document_entries(r->Ok_0);
    let preferences = preferences_of(saved@)->Ok_0;
    let id = kept_entry(target, "model_provider"@)->0;
    let kept_keys = with_model_keys(before, preferences, model_keys().len());
    lemma_choices_follow(before, preferences, model_keys().len(), key);
    lemma_choices_follow(before, preferences, model_keys().len(), "model_providers"@);
    lemma_choice_keys("model_providers"@);
    lemma_choice_names();
    assert(model_keys().take(model_keys().len() as int) =~= model_keys());
    let chosen = kept_keys.insert("model"@, TomlView::Text(saved@.model)).insert(
        "model_provider"@,
        TomlView::Text(id),
    );
    let tables = section_entry(target, "model_providers"@)->0;
    let providers = listed(before);
    assert(listed(chosen) =~= providers);
    let whole = chosen.insert(
        "model_providers"@,
        TomlView::Section(providers.insert(id, tables[id])),
    );
    assert(after == stripped(whole));
    let merged = listed(after);
    assert(merged[id] == without_token(tables[id]));
    if key != id && providers.contains_key(key) {
        assert(merged[key] == without_token(providers[key]));
    }
}

proof fn lemma_choice_names()
    ensures
        "model"@ != "model_provider"@,
        "model"@ != "model_providers"@,
        "model"@ != "experimental_bearer_token"@,
        "review_model"@ != "model_provider"@,
        "review_model"@ != "model_providers"@,
        "review_model"@ != "experimental_bearer_token"@,
        "model_reasoning_effort"@ != "model_provider"@,
        "model_reasoning_effort"@ != "model_providers"@,
        "model_reasoning_effort"@ != "experimental_bearer_token"@,
        "model_reasoning_summary"@ != "model_provider"@,
        "model_reasoning_summary"@ != "model_providers"@,
        "model_reasoning_summary"@ != "experimental_bearer_token"@,
        "model_verbosity"@ != "model_provider"@,
        "model_verbosity"@ != "model_providers"@,
        "model_verbosity"@ != "experimental_bearer_token"@,
        "model_context_window"@ != "model_provider"@,
        "model_context_window"@ != "model_providers"@,
        "model_context_window"@ != "experimental_bearer_token"@,
        "model_auto_compact_token_limit"@ != "model_provider"@,
        "model_auto_compact_token_limit"@ != "model_providers"@,
        "model_auto_compact_token_limit"@ != "experimental_bearer_token"@,
        "model_supports_reasoning_summaries"@ != "model_provider"@,
        "model_supports_reasoning_summaries"@ != "model_providers"@,
        "model_supports_reasoning_summaries"@ != "experimental_bearer_token"@,
        "model_catalog_json"@ != "model_provider"@,
        "model_catalog_json"@ != "model_providers"@,
        "model_catalog_json"@ != "experimental_bearer_token"@,
        "service_tier"@ != "model_provider"@,
        "service_tier"@ != "model_providers"@,
        "service_tier"@ != "experimental_bearer_token"@,
{
    reveal_strlit("model");
    reveal_strlit("review_model");
    reveal_strlit("model_reasoning_effort");
    reveal_strlit("model_reasoning_summary");
    reveal_strlit("model_verbosity");
    reveal_strlit("model_context_window");
    reveal_strlit("model_auto_compact_token_limit");
    reveal_strlit("model_supports_reasoning_summaries");
    reveal_strlit("model_catalog_json");
    reveal_strlit("service_tier");
    reveal_strlit("model_provider");
    reveal_strlit("model_providers");
    reveal_strlit("experimental_bearer_token");
    assert("model"@.len() == 5);
    assert("review_model"@.len() == 12);
    assert("model_reasoning_effort"@.len() == 22);
    assert("model_reasoning_summary"@.len() == 23);
    assert("model_verbosity"@.len() == 15);
    assert("model_context_window"@.len() == 20);
    assert("model_auto_compact_token_limit"@.len() == 30);
    assert("model_supports_reasoning_summaries"@.len() == 34);
    assert("model_catalog_json"@.len() == 18);
    assert("service_tier"@.len() == 12);
    assert("model_provider"@.len() == 14);
    assert("model_providers"@.len() == 15);
    assert("experimental_bearer_token"@.len() == 25);
    assert("model_verbosity"@[6] != "model_providers"@[6]);
}

/// Merging a provider's configuration routes to its provider, listed as `custom`, with its model and
/// with every field of its table but for credentials and the setting for WebSockets. The key is the one
/// that was given, and otherwise the token of that configuration. The rest is the live configuration,
/// or the provider's where that is complete or taken whole.
pub proof fn law_merges_use_the_given_provider(
    current_text: &str,
    provider_text: &str,
    explicit: &Option<String>,
    full: bool,
    r: Result<(DocumentMut, Option<String>), CodexxError>,
    key: Seq<char>,
    name: Seq<char>,
)
    requires
        call_ensures(
            merge_provider_toml_into_live_with_policy,
            (current_text, provider_text, explicit, full),
            r,
        ),
        r is Ok,
    ensures
        parsed_toml(provider_text@) matches Ok(source) && {
            let after = document_entries(r->Ok_0.0);
            let id = trimmed(text_entry(source, "model_provider"@)->0);
            let base = if full || complete_config(source) {
                source
            } else {
                parsed_toml(current_text@)->Ok_0
            };
            let table = section_entry(listed(source), id)->0;
            &&& text_entry(after, "model"@) == Some(trimmed(text_entry(source, "model"@)->0))
            &&& text_entry(after, "model_provider"@) == Some("custom"@)
            &&& section_entry(listed(source), id) is Some
            &&& section_entry(listed(after), "custom"@) matches Some(left) && (name
                != "experimental_bearer_token"@ && name != "env_key"@ && name
                != "env_key_instructions"@ && name != "auth"@ && name != "http_headers"@ && name
                != "env_http_headers"@ && name != "supports_websockets"@ ==> agree(left, table, name))
            &&& *explicit is Some && !blank((*explicit)->0@) ==> opt_view(r->Ok_0.1) == Some(
                trimmed((*explicit)->0@),
            )
            &&& *explicit is None || blank((*explicit)->0@) ==> opt_view(r->Ok_0.1) == bearer_token(
                source,
                Some(id),
            )
            &&& key != "model"@ && key != "model_provider"@ && key != "model_providers"@ && key
                != "experimental_bearer_token"@ ==> agree(after, base, key)
            &&& key != "custom"@ && key != id && (section_entry(listed(base), key) is Some && name
                != "experimental_bearer_token"@) ==> (section_entry(
                listed(after),
                key,
            ) matches Some(left) && agree(left, section_entry(listed(base), key)->0, name))
            &&& key == id && key != "custom"@ ==> !listed(after).contains_key(key)
        },
{
    lemma_settings_differ();
    lemma_fields_differ();
    let source = parsed_toml(provider_text@)->Ok_0;
    let id = kept_entry(source, "model_provider"@)->0;
    let table = provider_section(source, id)->0;
    let base = if full || complete_config(source) {
        source
    } else {
        parsed_toml(current_text@)->Ok_0
    };
    let after = document_entries(r->Ok_0.0);
    let chosen = switched_section(table, opt_view(r->Ok_0.1));
    assert(section_entry(listed(after), "custom"@) == Some(chosen));
    if key != "custom"@ && key != id && listed(base).contains_key(key) {
        assert(listed(stripped(base))[key] == without_token(listed(base)[key]));
        assert(listed(after)[key] == listed(stripped(base))[key]);
    }
}

/// A draft that is made says of its provider what the provider says: its model, and in the table of
/// the provider that it selects its name, its endpoint in canonical form, its interface and the login
/// that it needs; and it holds no token.
pub proof fn law_drafts_state_the_provider(
    provider: SavedProvider,
    template: Option<&DocumentMut>,
    base: DocumentMut,
    new_provider: bool,
    r: Result<String, CodexxError>,
) -> (doc: DocumentMut)
    requires
        call_ensures(
            build_provider_toml_draft_with_origin_inner,
            (provider, template, base, new_provider),
            r,
        ),
        r is Ok,
    ensures
        r->Ok_0@ == crate::text::trimmed_end(document_text(doc)),
        ({
            let entries = document_entries(doc);
            let id = text_entry(entries, "model_provider"@)->0;
            &&& text_entry(entries, "model"@) == Some(trimmed(provider.model@))
            &&& text_entry(entries, "model_provider"@) is Some
            &&& !entries.contains_key("experimental_bearer_token"@)
            &&& section_entry(listed(entries), id) matches Some(table) && {
                &&& text_entry(table, "name"@) == Some(trimmed(provider.provider_name@))
                &&& text_entry(table, "base_url"@) == Some(canonical_url(provider.base_url@))
                &&& text_entry(table, "wire_api"@) == Some(
                    if blank(provider.wire_api@) {
                        "responses"@
                    } else {
                        trimmed(provider.wire_api@)
                    },
                )
                &&& boolean_entry(table, "requires_openai_auth"@) == Some(
                    provider.requires_openai_auth,
                )
                &&& !table.contains_key("experimental_bearer_token"@)
            }
        }),
{
    let shown = draft_provider(provider@);
    let parts = match template {
        Some(doc) => Some(document_entries(*doc)),
        None => None,
    };
    let made = draft_entries(shown, parts, document_entries(base), new_provider)->Ok_0;
    let text = choose|text: Seq<char>| #[trigger]
        crate::providers::store::prints(text, made) && match normal_form(
            ProviderView { toml_config: Some(text), ..shown },
        ) {
            Err(error) => r matches Err(found) && found@ == error,
            Ok((_, Some(finished))) => r matches Ok(draft) && crate::providers::store::prints_over(
                draft@,
                finished,
                crate::toml::spelled(crate::text::trimmed_end(text)),
            ),
            Ok((_, None)) => r is Err,
        };
    let given = ProviderView { toml_config: Some(text), ..shown };
    let entries = normal_form(given)->Ok_0.1->0;
    lemma_templates_state(given);
    choose|doc: DocumentMut| #[trigger]
        document_entries(doc) == entries && r->Ok_0@ == crate::text::trimmed_end(
            document_text(doc),
        )
}

/// What the template of a normalized provider says.
proof fn lemma_templates_state(provider: ProviderView)
    requires
        normal_form(provider) matches Ok((_, Some(_))),
    ensures
        ({
            let (view, template) = normal_form(provider)->Ok_0;
            let entries = template->0;
            let id = text_entry(entries, "model_provider"@)->0;
            &&& text_entry(entries, "model"@) == Some(trimmed(provider.model))
            &&& text_entry(entries, "model_provider"@) is Some
            &&& !entries.contains_key("experimental_bearer_token"@)
            &&& section_entry(listed(entries), id) matches Some(table) && {
                &&& text_entry(table, "name"@) == Some(trimmed(provider.provider_name))
                &&& text_entry(table, "base_url"@) == Some(canonical_url(provider.base_url))
                &&& text_entry(table, "wire_api"@) == Some(
                    if blank(provider.wire_api) {
                        "responses"@
                    } else {
                        trimmed(provider.wire_api)
                    },
                )
                &&& boolean_entry(table, "requires_openai_auth"@) == Some(
                    provider.requires_openai_auth,
                )
                &&& !table.contains_key("experimental_bearer_token"@)
            }
        }),
{
    lemma_settings_differ();
    lemma_fields_differ();
    let (view, template) = normal_form(provider)->Ok_0;
    let entries = template->0;
    let source = parsed_toml(view.toml_config->0)->Ok_0;
    let id = kept_entry(source, "model_provider"@)->0;
    let base = stripped(source).insert("model"@, TomlView::Text(view.model));
    let section = provider_section(base, id)->0;
    let table = crate::providers::store::synced_section(view, section);
    let whole = crate::providers::store::with_provider_section(base, id, table).insert(
        "model_provider"@,
        TomlView::Text(id),
    ).insert("model"@, TomlView::Text(view.model));
    assert(entries == stripped(whole));
    assert(listed(whole)[id] == TomlView::Section(table));
    assert(listed(entries)[id] == without_token(listed(whole)[id]));
}

/// The configuration that drafts start from has the live settings, without any token, and of the
/// official one nothing but a shared table that the live one lacks.
pub proof fn law_drafts_start_from_the_live_configuration(
    current: DocumentMut,
    official: Option<&DocumentMut>,
    r: DocumentMut,
    key: Seq<char>,
)
    requires
        call_ensures(provider_config_base_document, (current, official), r),
    ensures
        !document_entries(r).contains_key("experimental_bearer_token"@),
        key != "experimental_bearer_token"@ && key != "model_providers"@ && document_entries(
            current,
        ).contains_key(key) ==> agree(document_entries(r), document_entries(current), key),
        key != "experimental_bearer_token"@ && key != "model_providers"@ && !document_entries(
            current,
        ).contains_key(key) && document_entries(r).contains_key(key) ==> (
        official matches Some(doc) && agree(document_entries(r), document_entries(*doc), key)) && (
        key == "mcp_servers"@ || key == "desktop"@ || key == "marketplaces"@ || key == "plugins"@ || key == "projects"@),
        !document_entries(current).contains_key(key) && (key == "mcp_servers"@ || key == "desktop"@ || key == "marketplaces"@ || key == "plugins"@ || key == "projects"@) && (
        official matches Some(doc) && document_entries(*doc).contains_key(key) && fields_of(
            document_entries(*doc)[key],
        ) is Some) ==> document_entries(r).contains_key(key) && document_entries(r)[key]
            == document_entries(*official->0)[key],
{
    lemma_shared_differ();
}

/// Shared tables are recovered where the live configuration holds a provider alone and nobody decided
/// about them; a configuration holds a provider alone where it has no setting that providers share.
pub proof fn law_provider_only_configurations_share_nothing(
    doc: &DocumentMut,
    handled: bool,
    only: bool,
    r: bool,
    key: Seq<char>,
)
    requires
        call_ensures(is_provider_only_document, (doc,), only),
        call_ensures(recovers_shared_tables, (doc, handled), r),
    ensures
        r <==> only && !handled,
        document_entries(*doc).contains_key(key) && (key == "mcp_servers"@ || key == "desktop"@ || key == "marketplaces"@ || key == "plugins"@ || key == "projects"@ || key
            == "approval_policy"@ || key == "sandbox_mode"@) ==> !only,
        (forall|name: Seq<char>| #[trigger]
            document_entries(*doc).contains_key(name) ==> is_choice_key(name) || name
                == "model_provider"@ || name == "model_providers"@) ==> only,
{
    lemma_private_names();
}

proof fn lemma_private_names()
    ensures
        "model"@ != "mcp_servers"@,
        "model"@ != "desktop"@,
        "model"@ != "marketplaces"@,
        "model"@ != "plugins"@,
        "model"@ != "projects"@,
        "model"@ != "approval_policy"@,
        "model"@ != "sandbox_mode"@,
        "review_model"@ != "mcp_servers"@,
        "review_model"@ != "desktop"@,
        "review_model"@ != "marketplaces"@,
        "review_model"@ != "plugins"@,
        "review_model"@ != "projects"@,
        "review_model"@ != "approval_policy"@,
        "review_model"@ != "sandbox_mode"@,
        "model_reasoning_effort"@ != "mcp_servers"@,
        "model_reasoning_effort"@ != "desktop"@,
        "model_reasoning_effort"@ != "marketplaces"@,
        "model_reasoning_effort"@ != "plugins"@,
        "model_reasoning_effort"@ != "projects"@,
        "model_reasoning_effort"@ != "approval_policy"@,
        "model_reasoning_effort"@ != "sandbox_mode"@,
        "model_reasoning_summary"@ != "mcp_servers"@,
        "model_reasoning_summary"@ != "desktop"@,
        "model_reasoning_summary"@ != "marketplaces"@,
        "model_reasoning_summary"@ != "plugins"@,
        "model_reasoning_summary"@ != "projects"@,
        "model_reasoning_summary"@ != "approval_policy"@,
        "model_reasoning_summary"@ != "sandbox_mode"@,
        "model_verbosity"@ != "mcp_servers"@,
        "model_verbosity"@ != "desktop"@,
        "model_verbosity"@ != "marketplaces"@,
        "model_verbosity"@ != "plugins"@,
        "model_verbosity"@ != "projects"@,
        "model_verbosity"@ != "approval_policy"@,
        "model_verbosity"@ != "sandbox_mode"@,
        "model_context_window"@ != "mcp_servers"@,
        "model_context_window"@ != "desktop"@,
        "model_context_window"@ != "marketplaces"@,
        "model_context_window"@ != "plugins"@,
        "model_context_window"@ != "projects"@,
        "model_context_window"@ != "approval_policy"@,
        "model_context_window"@ != "sandbox_mode"@,
        "model_auto_compact_token_limit"@ != "mcp_servers"@,
        "model_auto_compact_token_limit"@ != "desktop"@,
        "model_auto_compact_token_limit"@ != "marketplaces"@,
        "model_auto_compact_token_limit"@ != "plugins"@,
        "model_auto_compact_token_limit"@ != "projects"@,
        "model_auto_compact_token_limit"@ != "approval_policy"@,
        "model_auto_compact_token_limit"@ != "sandbox_mode"@,
        "model_supports_reasoning_summaries"@ != "mcp_servers"@,
        "model_supports_reasoning_summaries"@ != "desktop"@,
        "model_supports_reasoning_summaries"@ != "marketplaces"@,
        "model_supports_reasoning_summaries"@ != "plugins"@,
        "model_supports_reasoning_summaries"@ != "projects"@,
        "model_supports_reasoning_summaries"@ != "approval_policy"@,
        "model_supports_reasoning_summaries"@ != "sandbox_mode"@,
        "model_catalog_json"@ != "mcp_servers"@,
        "model_catalog_json"@ != "desktop"@,
        "model_catalog_json"@ != "marketplaces"@,
        "model_catalog_json"@ != "plugins"@,
        "model_catalog_json"@ != "projects"@,
        "model_catalog_json"@ != "approval_policy"@,
        "model_catalog_json"@ != "sandbox_mode"@,
        "service_tier"@ != "mcp_servers"@,
        "service_tier"@ != "desktop"@,
        "service_tier"@ != "marketplaces"@,
        "service_tier"@ != "plugins"@,
        "service_tier"@ != "projects"@,
        "service_tier"@ != "approval_policy"@,
        "service_tier"@ != "sandbox_mode"@,
        "disable_response_storage"@ != "mcp_servers"@,
        "disable_response_storage"@ != "desktop"@,
        "disable_response_storage"@ != "marketplaces"@,
        "disable_response_storage"@ != "plugins"@,
        "disable_response_storage"@ != "projects"@,
        "disable_response_storage"@ != "approval_policy"@,
        "disable_response_storage"@ != "sandbox_mode"@,
        "model_provider"@ != "mcp_servers"@,
        "model_provider"@ != "desktop"@,
        "model_provider"@ != "marketplaces"@,
        "model_provider"@ != "plugins"@,
        "model_provider"@ != "projects"@,
        "model_provider"@ != "approval_policy"@,
        "model_provider"@ != "sandbox_mode"@,
        "model_providers"@ != "mcp_servers"@,
        "model_providers"@ != "desktop"@,
        "model_providers"@ != "marketplaces"@,
        "model_providers"@ != "plugins"@,
        "model_providers"@ != "projects"@,
        "model_providers"@ != "approval_policy"@,
        "model_providers"@ != "sandbox_mode"@,
        "experimental_bearer_token"@ != "mcp_servers"@,
        "experimental_bearer_token"@ != "desktop"@,
        "experimental_bearer_token"@ != "marketplaces"@,
        "experimental_bearer_token"@ != "plugins"@,
        "experimental_bearer_token"@ != "projects"@,
        "experimental_bearer_token"@ != "approval_policy"@,
        "experimental_bearer_token"@ != "sandbox_mode"@,
{
    reveal_strlit("model");
    reveal_strlit("review_model");
    reveal_strlit("model_reasoning_effort");
    reveal_strlit("model_reasoning_summary");
    reveal_strlit("model_verbosity");
    reveal_strlit("model_context_window");
    reveal_strlit("model_auto_compact_token_limit");
    reveal_strlit("model_supports_reasoning_summaries");
    reveal_strlit("model_catalog_json");
    reveal_strlit("service_tier");
    reveal_strlit("disable_response_storage");
    reveal_strlit("model_provider");
    reveal_strlit("model_providers");
    reveal_strlit("experimental_bearer_token");
    reveal_strlit("mcp_servers");
    reveal_strlit("desktop");
    reveal_strlit("marketplaces");
    reveal_strlit("plugins");
    reveal_strlit("projects");
    reveal_strlit("approval_policy");
    reveal_strlit("sandbox_mode");
    assert("model"@.len() == 5);
    assert("review_model"@.len() == 12);
    assert("model_reasoning_effort"@.len() == 22);
    assert("model_reasoning_summary"@.len() == 23);
    assert("model_verbosity"@.len() == 15);
    assert("model_context_window"@.len() == 20);
    assert("model_auto_compact_token_limit"@.len() == 30);
    assert("model_supports_reasoning_summaries"@.len() == 34);
    assert("model_catalog_json"@.len() == 18);
    assert("service_tier"@.len() == 12);
    assert("disable_response_storage"@.len() == 24);
    assert("model_provider"@.len() == 14);
    assert("model_providers"@.len() == 15);
    assert("experimental_bearer_token"@.len() == 25);
    assert("mcp_servers"@.len() == 11);
    assert("desktop"@.len() == 7);
    assert("marketplaces"@.len() == 12);
    assert("plugins"@.len() == 7);
    assert("projects"@.len() == 8);
    assert("approval_policy"@.len() == 15);
    assert("sandbox_mode"@.len() == 12);
    assert("review_model"@[0] != "marketplaces"@[0]);
    assert("review_model"@[0] != "sandbox_mode"@[0]);
    assert("model_verbosity"@[0] != "approval_policy"@[0]);
    assert("service_tier"@[0] != "marketplaces"@[0]);
    assert("service_tier"@[1] != "sandbox_mode"@[1]);
    assert("model_providers"@[0] != "approval_policy"@[0]);
}

/// The live provider is detected as the configuration states it: under its identifier, with its name,
/// or its identifier where it has none, its endpoint, its model, its interface and login, and with the
/// token of the configuration, or the key of the credential file where there is none.
pub proof fn law_detected_providers_are_as_stated(
    doc: &DocumentMut,
    auth: Option<&[u8]>,
    key: Option<String>,
    official: bool,
    r: Result<Option<SavedProvider>, CodexxError>,
)
    requires
        call_ensures(detected_live_custom_provider, (doc, auth), r),
        call_ensures(live_auth_api_key, (auth,), key),
        call_ensures(document_is_official, (doc,), official),
    ensures
        r is Ok,
        official ==> r->Ok_0 is None,
        r->Ok_0 matches Some(found) ==> {
            let entries = document_entries(*doc);
            let id = trimmed(text_entry(entries, "model_provider"@)->0);
            let table = section_entry(listed(entries), id)->0;
            &&& found.id@ == id
            &&& found.model@ == trimmed(text_entry(entries, "model"@)->0)
            &&& section_entry(listed(entries), id) is Some
            &&& found.base_url@ == trimmed(text_entry(table, "base_url"@)->0)
            &&& kept_entry(table, "name"@) matches Some(name) ==> found.provider_name@ == name
            &&& kept_entry(table, "name"@) is None ==> found.provider_name@ == id
            &&& kept_entry(table, "wire_api"@) matches Some(wire_api) ==> found.wire_api@ == wire_api
            &&& kept_entry(table, "wire_api"@) is None ==> found.wire_api@ == "responses"@
            &&& found.requires_openai_auth <==> boolean_entry(table, "requires_openai_auth"@) == Some(
                true,
            )
            &&& bearer_token(entries, Some(id)) is Some ==> opt_view(found.api_key) == bearer_token(
                entries,
                Some(id),
            )
            &&& bearer_token(entries, Some(id)) is None ==> opt_view(found.api_key) == opt_view(key)
        },
{
}

/// The key in a credential file is its entry for a key, trimmed; a file that cannot be read, and no
/// file, have none.
pub proof fn law_credential_files_give_their_key(auth: Option<&[u8]>, r: Option<String>)
    requires
        call_ensures(live_auth_api_key, (auth,), r),
    ensures
        auth is None ==> r is None,
        auth matches Some(bytes) && parsed_json(bytes@) is Err ==> r is None,
        auth matches Some(bytes) && parsed_json(bytes@) is Ok ==> opt_view(r) == (match text_of(
            field(parsed_json(auth->0@)->Ok_0, "OPENAI_API_KEY"@),
        ) {
            Some(key) => kept(key),
            None => None,
        }),
{
}

/// A configuration is official where it names no provider, the built-in one, or one without an
/// endpoint; one that names a provider with an endpoint is not.
pub proof fn law_official_routes_have_no_endpoint(doc: &DocumentMut, r: bool)
    requires
        call_ensures(document_is_official, (doc,), r),
    ensures
        ({
            let entries = document_entries(*doc);
            let named = text_entry(entries, "model_provider"@);
            &&& named is None || blank(named->0) ==> r
            &&& named is Some && trimmed(named->0) == "openai"@ ==> r
            &&& named is Some && !blank(named->0) && trimmed(named->0) != "openai"@ ==> (
            match section_entry(listed(entries), trimmed(named->0)) {
                Some(table) => r == (text_entry(table, "base_url"@) is None || blank(
                    text_entry(table, "base_url"@)->0,
                )),
                None => !r,
            })
        }),
{
}

/// Without a configuration file the route is official; of a file that cannot be read nothing is said.
pub proof fn law_snapshots_are_official_by_their_route(config: Option<&[u8]>, r: Option<bool>)
    requires
        call_ensures(config_snapshot_is_official, (config,), r),
    ensures
        config is None ==> r == Some(true),
        config matches Some(bytes) && bytes_text(bytes@) is None ==> r is None,
        config matches Some(bytes) && (bytes_text(bytes@) matches Some(text) && parsed_toml(text)
            is Err) ==> r is None,
        config matches Some(bytes) && (bytes_text(bytes@) matches Some(text) && parsed_toml(text)
            is Ok) ==> r is Some,
        forall|doc: &DocumentMut, official: bool|
            config is Some && bytes_text(config->0@) is Some && parsed_toml(
                bytes_text(config->0@)->0,
            ) == Ok::<Entries, Seq<char>>(document_entries(*doc)) && #[trigger] call_ensures(
                document_is_official,
                (doc,),
                official,
            ) ==> r == Some(official),
{
}

/// A credential file has something to authenticate with where it has a key or one of the three tokens
/// of a login that is not blank.
pub proof fn law_credentials_need_a_key_or_a_token(auth: &Value, r: bool)
    requires
        call_ensures(auth_value_has_material, (auth,), r),
    ensures
        ({
            let value = json_value(*auth);
            let tokens = field(value, "tokens"@);
            let holds = |found: Option<crate::json::JsonView>| text_of(found) is Some && !blank(
                text_of(found)->0,
            );
            r <==> holds(field(value, "OPENAI_API_KEY"@)) || (tokens is Some && (holds(
                field(tokens->0, "access_token"@),
            ) || holds(field(tokens->0, "refresh_token"@)) || holds(field(tokens->0, "id_token"@))))
        }),
{
}

/// WebSockets are off for a third-party endpoint, unless its own template for the same endpoint states
/// otherwise and the endpoint is not one that lacks them; nothing else in the table changes.
pub proof fn law_websockets_are_off_unless_stated(
    table: &mut Table,
    base_url: &str,
    own: bool,
    name: Seq<char>,
)
    requires
        call_ensures(configure_third_party_transport, (table, base_url, own), ()),
    ensures
        name != "supports_websockets"@ ==> agree(
            table_entries(*final(table)),
            table_entries(*old(table)),
            name,
        ),
        boolean_entry(table_entries(*final(table)), "supports_websockets"@) is Some,
        boolean_entry(table_entries(*final(table)), "supports_websockets"@) == Some(true) ==> own
            && boolean_entry(table_entries(*old(table)), "supports_websockets"@) == Some(true)
            && !deepseek_endpoint(base_url@),
        !own || deepseek_endpoint(base_url@) ==> boolean_entry(
            table_entries(*final(table)),
            "supports_websockets"@,
        ) == Some(false),
        own && !deepseek_endpoint(base_url@) && (text_entry(
            table_entries(*old(table)),
            "base_url"@,
        ) matches Some(before) && canonical_url(before) == canonical_url(base_url@)) && boolean_entry(
            table_entries(*old(table)),
            "supports_websockets"@,
        ) is Some ==> agree(
            table_entries(*final(table)),
            table_entries(*old(table)),
            "supports_websockets"@,
        ),
{
}

/// The DeepSeek interface is known by its host, over either scheme of the web.
pub proof fn law_deepseek_is_known_by_its_host(base_url: &str, r: bool)
    requires
        call_ensures(is_deepseek_http_endpoint, (base_url,), r),
    ensures
        r <==> (url_origin(trimmed(base_url@)) matches Some((scheme, Some(host))) && host
            == "api.deepseek.com"@ && (scheme == "https"@ || scheme == "http"@)),
{
}

/// A table that is taken over loses every credential, unless it is the provider's own for the same
/// endpoint; nothing else in it changes.
pub proof fn law_foreign_credentials_are_cleared(
    table: &mut Table,
    base_url: &str,
    own: bool,
    name: Seq<char>,
)
    requires
        call_ensures(clear_foreign_provider_credentials, (table, base_url, own), ()),
    ensures
        ({
            let before = table_entries(*old(table));
            let after = table_entries(*final(table));
            let credential = name == "experimental_bearer_token"@ || name == "env_key"@ || name
                == "env_key_instructions"@ || name == "auth"@ || name == "http_headers"@ || name
                == "env_http_headers"@ || name == "query_params"@;
            let same = text_entry(before, "base_url"@) is Some && canonical_url(
                text_entry(before, "base_url"@)->0,
            ) == canonical_url(base_url@);
            &&& credential && !(own && same) ==> !after.contains_key(name)
            &&& own && same ==> agree(after, before, name)
            &&& !credential ==> agree(after, before, name)
        }),
{
    lemma_fields_differ();
}

/// In the live configuration a provider that needs no official login has its key in its table, and then
/// no other credential; with the official login, or without a key, it has no token there.
pub proof fn law_live_tables_hold_one_key(
    table: &mut Table,
    api_key: &Option<String>,
    needed: bool,
    name: Seq<char>,
)
    requires
        call_ensures(configure_live_provider_auth, (table, api_key, needed), ()),
    ensures
        ({
            let before = table_entries(*old(table));
            let after = table_entries(*final(table));
            let keyed = api_key is Some && !blank(api_key->0@);
            &&& !needed && keyed ==> text_entry(after, "experimental_bearer_token"@) == Some(
                trimmed(api_key->0@),
            ) && !after.contains_key("env_key"@) && !after.contains_key("env_key_instructions"@)
                && !after.contains_key("auth"@)
            &&& needed || !keyed ==> !after.contains_key("experimental_bearer_token"@) && (name
                != "experimental_bearer_token"@ ==> agree(after, before, name))
            &&& name != "experimental_bearer_token"@ && name != "env_key"@ && name
                != "env_key_instructions"@ && name != "auth"@ && name != "http_headers"@ && name
                != "env_http_headers"@ ==> agree(after, before, name)
        }),
{
    lemma_fields_differ();
}

/// A template that is laid over a configuration has its way in every setting that it states; the
/// configuration keeps the rest. The providers of both are listed, and the template's where both list
/// one.
pub proof fn law_templates_have_their_way(
    base: DocumentMut,
    template: &DocumentMut,
    r: Result<DocumentMut, CodexxError>,
    key: Seq<char>,
)
    requires
        call_ensures(overlay_provider_template, (base, template), r),
        r is Ok,
    ensures
        key != "model_providers"@ && document_entries(*template).contains_key(key) ==> agree(
            document_entries(r->Ok_0),
            document_entries(*template),
            key,
        ),
        key != "model_providers"@ && !document_entries(*template).contains_key(key) ==> agree(
            document_entries(r->Ok_0),
            document_entries(base),
            key,
        ),
        listed(document_entries(*template)).contains_key(key) ==> agree(
            listed(document_entries(r->Ok_0)),
            listed(document_entries(*template)),
            key,
        ),
        !listed(document_entries(*template)).contains_key(key) ==> agree(
            listed(document_entries(r->Ok_0)),
            listed(document_entries(base)),
            key,
        ),
{
}

/// The template of a saved provider is what its text reads as, and so are the settings for its model.
pub proof fn law_saved_templates_are_read(
    provider: &SavedProvider,
    template: Result<Option<DocumentMut>, CodexxError>,
    preferences: Result<DocumentMut, CodexxError>,
)
    requires
        call_ensures(saved_template, (provider,), template),
        call_ensures(saved_preferences, (provider,), preferences),
    ensures
        provider.toml_config is None ==> template matches Ok(None),
        provider.toml_config is None ==> preferences is Ok && document_entries(
            preferences->Ok_0,
        ) == Map::<Seq<char>, TomlView>::empty(),
        provider.toml_config matches Some(text) && !blank(text@) ==> (template is Ok <==> parsed_toml(
            trimmed(provider.toml_config->0@),
        ) is Ok) && (template is Ok ==> template->Ok_0 is Some && document_entries(
            template->Ok_0->0,
        ) == parsed_toml(trimmed(provider.toml_config->0@))->Ok_0),
        provider.toml_config matches Some(text) && parsed_toml(text@) is Ok ==> preferences is Ok
            && document_entries(preferences->Ok_0) == parsed_toml(
            provider.toml_config->0@,
        )->Ok_0,
{
}

/// A JSON file holds the indented value and a line break behind it.
pub proof fn law_json_files_end_with_a_line_break(value: &Value, r: Option<Vec<u8>>)
    requires
        call_ensures(crate::providers::live_toml::json_bytes, (value,), r),
    ensures
        r is Some <==> crate::json::json_pretty(json_value(*value)) is Some,
        r is Some ==> r->0@.len() > 0 && r->0@.last() == 10 && r->0@.drop_last()
            == crate::json::json_pretty(json_value(*value))->0,
{
    if r is Some {
        let bytes = crate::json::json_pretty(json_value(*value))->0;
        assert(bytes.push(10).drop_last() =~= bytes);
    }
}

/// A draft is made in the provider's own template where that is complete, in the shared
/// configuration with the template laid over it where the template holds a provider alone, and in
/// the shared configuration where there is none. Every setting that does not follow the provider is
/// what it is there.
pub proof fn law_drafts_keep_the_other_settings(
    provider: SavedProvider,
    template: Option<&DocumentMut>,
    base: DocumentMut,
    new_provider: bool,
    only: bool,
    key: Seq<char>,
    r: Result<String, CodexxError>,
) -> (made: DocumentMut)
    requires
        call_ensures(
            build_provider_toml_draft_with_origin_inner,
            (provider, template, base, new_provider),
            r,
        ),
        template is Some ==> call_ensures(is_provider_only_document, (template->0,), only),
        r is Ok,
    ensures
        normal_form(
            ProviderView {
                toml_config: Some(crate::text::trimmed_end(document_text(made))),
                ..draft_provider(provider@)
            },
        ) matches Ok((_, Some(finished))) && crate::providers::store::prints(r->Ok_0@, finished),
        key != "model"@ && key != "model_provider"@ && key != "model_providers"@ && key
            != "experimental_bearer_token"@ ==> ({
            let own = if template is Some {
                document_entries(*template->0)
            } else {
                Map::empty()
            };
            &&& template is Some && own.contains_key(key) ==> agree(
                document_entries(made),
                own,
                key,
            )
            &&& template is Some && !own.contains_key(key) && !only ==> !document_entries(
                made,
            ).contains_key(key)
            &&& template is None || (!own.contains_key(key) && only) ==> agree(
                document_entries(made),
                document_entries(base),
                key,
            )
        }),
        template is None ==> text_entry(document_entries(made), "model_provider"@) == Some(
            "custom"@,
        ),
        template is Some && !only && kept_entry(
            document_entries(*template->0),
            "model_provider"@,
        ) is Some && section_entry(
            listed(document_entries(*template->0)),
            kept_entry(document_entries(*template->0), "model_provider"@)->0,
        ) is Some ==> text_entry(document_entries(made), "model_provider"@) == kept_entry(
            document_entries(*template->0),
            "model_provider"@,
        ),
{
    lemma_settings_differ();
    let shown = draft_provider(provider@);
    let parts = match template {
        Some(doc) => Some(document_entries(*doc)),
        None => None,
    };
    let entries = draft_entries(shown, parts, document_entries(base), new_provider)->Ok_0;
    let text = choose|text: Seq<char>| #[trigger]
        crate::providers::store::prints(text, entries) && match normal_form(
            ProviderView { toml_config: Some(text), ..shown },
        ) {
            Err(error) => r matches Err(found) && found@ == error,
            Ok((_, Some(finished))) => r matches Ok(draft) && crate::providers::store::prints_over(
                draft@,
                finished,
                crate::toml::spelled(crate::text::trimmed_end(text)),
            ),
            Ok((_, None)) => r is Err,
        };
    let start = crate::providers::live_toml::draft_start(parts, document_entries(base))->Ok_0;
    let clean = stripped(start);
    let id = crate::providers::live_toml::draft_id(parts is Some, clean);
    assert(text_entry(entries, "model_provider"@) == Some(id));
    if template is Some && !only {
        let own = document_entries(*template->0);
        let wanted = kept_entry(own, "model_provider"@);
        if wanted is Some && section_entry(listed(own), wanted->0) is Some {
            assert(kept_entry(clean, "model_provider"@) == wanted);
            assert(listed(clean)[wanted->0] == without_token(listed(own)[wanted->0]));
            assert(provider_section(clean, wanted->0) is Some);
        }
    }
    choose|doc: DocumentMut| #[trigger]
        document_entries(doc) == entries && text == crate::text::trimmed_end(document_text(doc))
}

/// A configuration is merged only if it names a model and a provider, lists that provider with an
/// endpoint, does not still hold the example's values, and has a key where the provider needs one.
pub proof fn law_merges_need_a_whole_provider(
    current_text: &str,
    provider_text: &str,
    explicit: &Option<String>,
    full: bool,
    name: &str,
    base_url: &str,
    example: bool,
    r: Result<(DocumentMut, Option<String>), CodexxError>,
)
    requires
        call_ensures(
            merge_provider_toml_into_live_with_policy,
            (current_text, provider_text, explicit, full),
            r,
        ),
        call_ensures(crate::providers::store::is_placeholder_provider, (name, base_url), example),
        parsed_toml(provider_text@) is Ok,
    ensures
        ({
            let source = parsed_toml(provider_text@)->Ok_0;
            let id = kept_entry(source, "model_provider"@);
            let table = section_entry(listed(source), id->0);
            &&& r is Ok ==> kept_entry(source, "model"@) is Some && id is Some && table is Some
                && kept_entry(table->0, "base_url"@) is Some
            &&& r is Ok && text_entry(table->0, "base_url"@) == Some(base_url@) && (text_entry(
                table->0,
                "name"@,
            ) == Some(name@) || (text_entry(table->0, "name"@) is None && name@.len() == 0))
                ==> !example
            &&& r is Ok && boolean_entry(table->0, "requires_openai_auth"@) == Some(true)
                ==> r->Ok_0.1 is Some
        }),
{
    if name@.len() == 0 {
        assert(name@ =~= seq![]);
    }
}

/// A provider's table gives a provider just if it names an endpoint, and then its own endpoint,
/// name, interface and need of a login; the interface is the usual one where none is named.
pub proof fn law_tables_give_their_provider(
    table: &Table,
    r: Option<crate::providers::live_toml::CodexSection>,
)
    requires
        call_ensures(crate::providers::live_toml::codex_section_from_table, (table,), r),
    ensures
        ({
            let entries = crate::toml::table_entries(*table);
            &&& r is Some <==> kept_entry(entries, "base_url"@) is Some
            &&& r is Some ==> kept_entry(entries, "base_url"@) == Some(r->0.base_url@)
            &&& r is Some ==> opt_view(r->0.name) == kept_entry(entries, "name"@)
            &&& r is Some && kept_entry(entries, "wire_api"@) is Some ==> kept_entry(
                entries,
                "wire_api"@,
            ) == Some(r->0.wire_api@)
            &&& r is Some && kept_entry(entries, "wire_api"@) is None ==> r->0.wire_api@
                == "responses"@
            &&& r is Some ==> (r->0.requires_openai_auth <==> boolean_entry(
                entries,
                "requires_openai_auth"@,
            ) == Some(true))
        }),
{
}

/// A table that is given its own key keeps its headers but for one that authorizes, in whatever
/// case that is named.
pub proof fn law_own_keys_leave_no_authorization(
    table: &mut Table,
    api_key: &Option<String>,
    header: Seq<char>,
)
    requires
        call_ensures(configure_live_provider_auth, (table, api_key, false), ()),
        api_key is Some && !blank(api_key->0@),
        crate::toml::table_entries(*old(table)).contains_key("http_headers"@),
        fields_of(crate::toml::table_entries(*old(table))["http_headers"@]) is Some,
    ensures
        crate::toml::table_entries(*final(table)).contains_key("http_headers"@),
        ({
            let before = fields_of(crate::toml::table_entries(*old(table))["http_headers"@])->0;
            let after = fields_of(crate::toml::table_entries(*final(table))["http_headers"@]);
            &&& after is Some
            &&& crate::text::lowered(header) == "authorization"@ ==> !after->0.contains_key(header)
            &&& crate::text::lowered(header) != "authorization"@ ==> agree(after->0, before, header)
        }),
{
    lemma_fields_differ();
}

} // verus!
