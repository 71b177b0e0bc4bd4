//! What switches, drafts and activations keep apart: credentials of one provider from the next, and
//! what providers share from what belongs to one of them.
use crate::error::{CodexxError, ErrorView};
use crate::providers::live_toml::{
    activation_entries, complete_config, draft_entries, draft_provider, draft_section, draft_start,
    drafted, ensured_section, is_authorization, merged_live, model_keys,
    official_activation_entries, parsed_document, route_keys, same_table_endpoint, with_live_auth,
    with_model_keys, with_route_keys,
};
use crate::providers::model_catalog::normalized_mappings;
use crate::providers::store::{
    normal_form, prints, provider_section, stripped, synced_section, trimmed_provider,
    with_provider_section, ProviderView,
};
use crate::providers::store_laws::{
    holds_token, law_no_token_is_left, law_only_tokens_are_taken_out,
};
use crate::text::{blank, trimmed, trimmed_end};
use crate::toml::{
    fields_of, kept_entry, parsed_toml, section_entry, text_entry, Entries, Spellings, TomlView,
};
use vstd::prelude::*;

verus! {

proof fn lemma_model_keys_follow(entries: Entries, source: Entries, n: nat, key: Seq<char>)
    requires
        n <= model_keys().len(),
    ensures
        !model_keys().take(n as int).contains(key) ==> (with_model_keys(
            entries,
            source,
            n,
        ).contains_key(key) == entries.contains_key(key) && (entries.contains_key(key)
            ==> with_model_keys(entries, source, n)[key] == entries[key])),
    decreases n,
{
    if n > 0 {
        lemma_model_keys_follow(entries, source, (n - 1) as nat, key);
        let shorter = model_keys().take(n - 1);
        let longer = model_keys().take(n as int);
        assert(longer[n - 1] == model_keys()[n - 1]);
        if shorter.contains(key) {
            let i = shorter.index_of(key);
            assert(longer[i] == key);
        }
    }
}

proof fn lemma_route_keys_follow(entries: Entries, source: Entries, n: nat, key: Seq<char>)
    requires
        n <= route_keys().len(),
    ensures
        !route_keys().take(n as int).contains(key) ==> (with_route_keys(
            entries,
            source,
            n,
        ).contains_key(key) == entries.contains_key(key) && (entries.contains_key(key)
            ==> with_route_keys(entries, source, n)[key] == entries[key])),
        route_keys().take(n as int).contains(key) ==> (with_route_keys(
            entries,
            source,
            n,
        ).contains_key(key) == source.contains_key(key) && (source.contains_key(key)
            ==> with_route_keys(entries, source, n)[key] == source[key])),
    decreases n,
{
    if n > 0 {
        lemma_route_keys_follow(entries, source, (n - 1) as nat, key);
        let shorter = route_keys().take(n - 1);
        let longer = route_keys().take(n as int);
        assert(longer[n - 1] == route_keys()[n - 1]);
        assert(longer.contains(key) == (shorter.contains(key) || key == route_keys()[n - 1])) by {
            if shorter.contains(key) {
                let i = shorter.index_of(key);
                assert(longer[i] == key);
            }
            if longer.contains(key) {
                let i = longer.index_of(key);
                if i < n - 1 {
                    assert(shorter[i] == key);
                }
            }
        }
    }
}

/// Activating an official profile takes all that decides where requests go and as whom from the
/// profile, and nothing of it from the configuration before; whatever belongs neither to the route
/// nor to the model stays as it was.
pub proof fn law_official_activation_isolates_accounts(
    target: Entries,
    base: Entries,
    key: Seq<char>,
)
    ensures
        ({
            let after = official_activation_entries(target, base);
            &&& route_keys().contains(key) ==> after.contains_key(key) == target.contains_key(key)
                && (target.contains_key(key) ==> after[key] == target[key])
            &&& !route_keys().contains(key) && !model_keys().contains(key) ==> after.contains_key(
                key,
            ) == base.contains_key(key) && (base.contains_key(key) ==> after[key] == base[key])
        }),
{
    let middle = with_model_keys(base, target, model_keys().len());
    lemma_model_keys_follow(base, target, model_keys().len(), key);
    lemma_route_keys_follow(middle, target, route_keys().len(), key);
    assert(model_keys().take(model_keys().len() as int) =~= model_keys());
    assert(route_keys().take(route_keys().len() as int) =~= route_keys());
}

/// Activating a saved provider keeps what providers share: whatever belongs neither to the choice of
/// a model nor to the list of providers stays as it was, and no token is left in the configuration.
pub proof fn law_activation_keeps_shared_settings(
    saved: ProviderView,
    target: Entries,
    preferences: Entries,
    base: Entries,
    key: Seq<char>,
)
    requires
        activation_entries(saved, target, preferences, base) is Ok,
        !model_keys().contains(key),
        key != "model_provider"@,
        key != "model_providers"@,
        key != "experimental_bearer_token"@,
    ensures
        ({
            let after = activation_entries(saved, target, preferences, base)->Ok_0;
            &&& after.contains_key(key) == base.contains_key(key)
            &&& base.contains_key(key) ==> after[key] == base[key]
            &&& !holds_token(after)
        }),
{
    lemma_model_keys_follow(base, preferences, model_keys().len(), key);
    assert(model_keys().take(model_keys().len() as int) =~= model_keys());
    assert(model_keys()[0] == "model"@);
    let after = activation_entries(saved, target, preferences, base)->Ok_0;
    let id = kept_entry(target, "model_provider"@)->0;
    let current = with_model_keys(base, preferences, model_keys().len()).insert(
        "model"@,
        TomlView::Text(saved.model),
    );
    let chosen = current.insert("model_provider"@, TomlView::Text(id));
    let providers = ensured_section(chosen, "model_providers"@)->Ok_0;
    let tables = section_entry(target, "model_providers"@)->0;
    let whole = chosen.insert(
        "model_providers"@,
        TomlView::Section(providers.insert(id, tables[id])),
    );
    assert(after == stripped(whole));
    law_only_tokens_are_taken_out(whole, key);
    law_no_token_is_left(whole);
}

/// A draft never holds a token.
pub proof fn law_drafts_hold_no_token(
    provider: ProviderView,
    template: Option<Entries>,
    base: Entries,
    new_provider: bool,
)
    requires
        draft_entries(provider, template, base, new_provider) is Ok,
    ensures
        !holds_token(draft_entries(provider, template, base, new_provider)->Ok_0),
{
    lemma_names_differ();
    let start = draft_start(template, base)->Ok_0;
    let entries = stripped(start);
    law_no_token_is_left(start);
    let after = draft_entries(provider, template, base, new_provider)->Ok_0;
    let providers = section_entry(after, "model_providers"@)->0;
    assert(!after.contains_key("experimental_bearer_token"@));
    assert forall|id: Seq<char>| #[trigger] providers.contains_key(id) implies !(
    providers[id] matches TomlView::Section(section) && section.contains_key(
        "experimental_bearer_token"@,
    )) by {
        if section_entry(entries, "model_providers"@) is Some {
            let listed = section_entry(entries, "model_providers"@)->0;
            if listed.contains_key(id) {
                assert(!(listed[id] matches TomlView::Section(section) && section.contains_key(
                    "experimental_bearer_token"@,
                )));
            }
        }
    }
}

/// A finished draft, of a provider that is saved or of a new one, prints a configuration that holds
/// the trimmed model of the provider and no token, its own or that of any provider that it lists.
pub proof fn law_finished_drafts_hold_the_model_and_no_token(
    provider: ProviderView,
    template: Option<Entries>,
    base: Entries,
    new_provider: bool,
    spellings: Option<Spellings>,
    r: Result<String, CodexxError>,
)
    requires
        drafted(provider, template, base, new_provider, spellings, r),
    ensures
        r matches Ok(draft) ==> exists|entries: Entries| #[trigger]
            prints(draft@, entries) && text_entry(entries, "model"@) == Some(
                trimmed(provider.model),
            ) && !holds_token(entries),
{
    if let Ok(draft) = r {
        lemma_names_differ();
        let shown = draft_provider(provider);
        let made = draft_entries(shown, template, base, new_provider)->Ok_0;
        let text = choose|text: Seq<char>| #[trigger]
            prints(text, made) && match normal_form(
                ProviderView { toml_config: Some(text), ..shown },
            ) {
                Err(error) => r matches Err(found) && found@ == error,
                Ok((_, Some(template))) => r matches Ok(draft) && prints(draft@, template),
                Ok((_, None)) => r matches Err(found) && found@ == ErrorView::Config(
                    "无法生成供应商 TOML"@,
                ),
            };
        let (_, finished) = normal_form(ProviderView { toml_config: Some(text), ..shown })->Ok_0;
        let entries = finished->0;
        let parsed = parsed_toml(trimmed_end(text))->Ok_0;
        let id = kept_entry(parsed, "model_provider"@)->0;
        let model = trimmed(provider.model);
        let based = stripped(parsed).insert("model"@, TomlView::Text(model));
        let section = provider_section(based, id)->0;
        let menu = normalized_mappings(shown.model_mappings, shown.model)->Ok_0;
        let view = trimmed_provider(ProviderView { toml_config: Some(text), ..shown }, menu);
        let whole = with_provider_section(based, id, synced_section(view, section)).insert(
            "model_provider"@,
            TomlView::Text(id),
        ).insert("model"@, TomlView::Text(model));
        assert(entries == stripped(whole));
        law_no_token_is_left(whole);
        law_only_tokens_are_taken_out(whole, "model"@);
        assert(prints(draft@, entries));
    }
}

proof fn lemma_names_differ()
    ensures
        "experimental_bearer_token"@ != "model_providers"@,
        "experimental_bearer_token"@ != "model_provider"@,
        "experimental_bearer_token"@ != "model"@,
        "experimental_bearer_token"@ != "name"@,
        "experimental_bearer_token"@ != "base_url"@,
        "experimental_bearer_token"@ != "wire_api"@,
        "experimental_bearer_token"@ != "requires_openai_auth"@,
        "experimental_bearer_token"@ != "supports_websockets"@,
        "model_providers"@ != "model_provider"@,
        "model_providers"@ != "model"@,
        "model_provider"@ != "model"@,
{
    reveal_strlit("experimental_bearer_token");
    reveal_strlit("model_providers");
    reveal_strlit("model_provider");
    reveal_strlit("model");
    reveal_strlit("name");
    reveal_strlit("base_url");
    reveal_strlit("wire_api");
    reveal_strlit("requires_openai_auth");
    reveal_strlit("supports_websockets");
    assert("experimental_bearer_token"@.len() == 25);
    assert("model_providers"@.len() == 15);
    assert("model_provider"@.len() == 14);
    assert("model"@.len() == 5);
    assert("name"@.len() == 4);
    assert("base_url"@.len() == 8);
    assert("wire_api"@.len() == 8);
    assert("requires_openai_auth"@.len() == 20);
    assert("supports_websockets"@.len() == 19);
}

/// A key of a provider's table that holds a credential.
pub open spec fn is_credential_key(key: Seq<char>) -> bool {
    key == "experimental_bearer_token"@ || key == "env_key"@ || key == "env_key_instructions"@ || key
        == "auth"@ || key == "http_headers"@ || key == "env_http_headers"@ || key == "query_params"@
}

proof fn lemma_credential_keys_are_others(key: Seq<char>)
    requires
        is_credential_key(key),
    ensures
        key != "name"@,
        key != "base_url"@,
        key != "wire_api"@,
        key != "requires_openai_auth"@,
        key != "supports_websockets"@,
{
    reveal_strlit("experimental_bearer_token");
    reveal_strlit("env_key");
    reveal_strlit("env_key_instructions");
    reveal_strlit("auth");
    reveal_strlit("http_headers");
    reveal_strlit("env_http_headers");
    reveal_strlit("query_params");
    reveal_strlit("name");
    reveal_strlit("base_url");
    reveal_strlit("wire_api");
    reveal_strlit("requires_openai_auth");
    reveal_strlit("supports_websockets");
    assert("name"@[0] == 'n' && "auth"@[0] == 'a');
    assert("env_key_instructions"@[0] == 'e' && "requires_openai_auth"@[0] == 'r');
    assert("experimental_bearer_token"@.len() == 25 && "env_key"@.len() == 7 && "http_headers"@.len()
        == 12 && "env_http_headers"@.len() == 16 && "query_params"@.len() == 12);
    assert("base_url"@.len() == 8 && "wire_api"@.len() == 8 && "supports_websockets"@.len() == 19
        && "name"@.len() == 4 && "auth"@.len() == 4 && "env_key_instructions"@.len() == 20);
}

/// A provider that is new, or whose endpoint changed, starts without the credentials of the provider
/// whose table it took over.
pub proof fn law_new_endpoints_take_no_credentials(
    provider: ProviderView,
    section: Entries,
    own_template: bool,
    key: Seq<char>,
)
    requires
        !own_template || !same_table_endpoint(section, provider.base_url),
        is_credential_key(key),
    ensures
        !draft_section(provider, section, own_template).contains_key(key),
{
    lemma_credential_keys_are_others(key);
}

/// In the live configuration a provider has one credential: its own key where it has one and needs
/// no official login, and then no other one beside it.
pub proof fn law_live_provider_has_one_credential(
    entries: Entries,
    key: Seq<char>,
    header: Seq<char>,
)
    requires
        !blank(key),
        is_authorization(header),
    ensures
        ({
            let after = with_live_auth(entries, Some(key), false);
            &&& after.contains_key("experimental_bearer_token"@)
            &&& after["experimental_bearer_token"@] == TomlView::Text(trimmed(key))
            &&& !after.contains_key("env_key"@)
            &&& !after.contains_key("env_key_instructions"@)
            &&& !after.contains_key("auth"@)
            &&& after.contains_key("http_headers"@) ==> (fields_of(
                after["http_headers"@],
            ) matches Some(fields) ==> !fields.contains_key(header))
            &&& after.contains_key("env_http_headers"@) ==> (fields_of(
                after["env_http_headers"@],
            ) matches Some(fields) ==> !fields.contains_key(header))
        }),
        !with_live_auth(entries, Some(key), true).contains_key("experimental_bearer_token"@),
{
    reveal_strlit("experimental_bearer_token");
    reveal_strlit("env_key");
    reveal_strlit("env_key_instructions");
    reveal_strlit("auth");
    reveal_strlit("http_headers");
    reveal_strlit("env_http_headers");
    assert("experimental_bearer_token"@.len() == 25 && "env_key"@.len() == 7
        && "env_key_instructions"@.len() == 20 && "auth"@.len() == 4 && "http_headers"@.len() == 12
        && "env_http_headers"@.len() == 16);
}

/// After a switch the live configuration routes to the provider that was chosen, listed as `custom`,
/// and no other provider has a token in it.
pub proof fn law_switch_leaves_no_other_token(
    current_text: Seq<char>,
    provider_text: Seq<char>,
    explicit: Option<Seq<char>>,
    full: bool,
    id: Seq<char>,
)
    requires
        merged_live(current_text, provider_text, explicit, full) is Ok,
    ensures
        ({
            let after = merged_live(current_text, provider_text, explicit, full)->Ok_0.0;
            &&& text_entry(after, "model_provider"@) == Some("custom"@)
            &&& !after.contains_key("experimental_bearer_token"@)
            &&& section_entry(after, "model_providers"@) matches Some(providers)
                && providers.contains_key("custom"@) && (id != "custom"@ && providers.contains_key(id)
                ==> !(providers[id] matches TomlView::Section(section) && section.contains_key(
                "experimental_bearer_token"@,
            )))
        }),
{
    lemma_names_differ();
    let source = parsed_document("config.toml"@, provider_text)->Ok_0;
    let live = if full || complete_config(source) {
        source
    } else {
        parsed_document("config.toml"@, current_text)->Ok_0
    };
    law_no_token_is_left(live);
    let entries = stripped(live);
    let after = merged_live(current_text, provider_text, explicit, full)->Ok_0.0;
    let providers = section_entry(after, "model_providers"@)->0;
    if id != "custom"@ && providers.contains_key(id) {
        if section_entry(entries, "model_providers"@) is Some {
            let listed = section_entry(entries, "model_providers"@)->0;
            assert(listed.contains_key(id));
            assert(providers[id] == listed[id]);
        }
    }
}

} // verus!
