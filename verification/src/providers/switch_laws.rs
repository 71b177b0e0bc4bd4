//! What a switch to a provider that the user entered leaves in the live configuration.
use crate::error::CodexxError;
use crate::json::{field, json_value, JsonView};
use crate::providers::live::{
    check_provider_input, input_section, switch_provider_locked, switched_entries, PreparedSwitch,
    ProviderInput,
};
use crate::providers::live_toml::{provider_auth_action, LiveAuthAction};
use crate::providers::store::{
    canonical_url, normalized_name, provider_keys, rest, stripped, without_token,
};
use crate::text::{blank, lemma_trimmed_twice, trimmed, without_trailing};
use crate::toml::{
    boolean_entry, document_entries, document_spellings, document_text, parsed_toml, section_entry,
    spelled, text_entry, Entries,
};
use toml_edit::DocumentMut;
use vstd::prelude::*;

verus! {

/// The fields of a provider's table have different names.
proof fn lemma_fields_differ()
    ensures
        "name"@ != "base_url"@,
        "name"@ != "wire_api"@,
        "name"@ != "requires_openai_auth"@,
        "name"@ != "supports_websockets"@,
        "name"@ != "experimental_bearer_token"@,
        "name"@ != "env_key"@,
        "name"@ != "env_key_instructions"@,
        "name"@ != "auth"@,
        "name"@ != "http_headers"@,
        "name"@ != "env_http_headers"@,
        "base_url"@ != "wire_api"@,
        "base_url"@ != "requires_openai_auth"@,
        "base_url"@ != "supports_websockets"@,
        "base_url"@ != "experimental_bearer_token"@,
        "base_url"@ != "env_key"@,
        "base_url"@ != "env_key_instructions"@,
        "base_url"@ != "auth"@,
        "base_url"@ != "http_headers"@,
        "base_url"@ != "env_http_headers"@,
        "wire_api"@ != "requires_openai_auth"@,
        "wire_api"@ != "supports_websockets"@,
        "wire_api"@ != "experimental_bearer_token"@,
        "wire_api"@ != "env_key"@,
        "wire_api"@ != "env_key_instructions"@,
        "wire_api"@ != "auth"@,
        "wire_api"@ != "http_headers"@,
        "wire_api"@ != "env_http_headers"@,
        "requires_openai_auth"@ != "supports_websockets"@,
        "requires_openai_auth"@ != "experimental_bearer_token"@,
        "requires_openai_auth"@ != "env_key"@,
        "requires_openai_auth"@ != "env_key_instructions"@,
        "requires_openai_auth"@ != "auth"@,
        "requires_openai_auth"@ != "http_headers"@,
        "requires_openai_auth"@ != "env_http_headers"@,
        "supports_websockets"@ != "experimental_bearer_token"@,
        "supports_websockets"@ != "env_key"@,
        "supports_websockets"@ != "env_key_instructions"@,
        "supports_websockets"@ != "auth"@,
        "supports_websockets"@ != "http_headers"@,
        "supports_websockets"@ != "env_http_headers"@,
        "experimental_bearer_token"@ != "env_key"@,
        "experimental_bearer_token"@ != "env_key_instructions"@,
        "experimental_bearer_token"@ != "auth"@,
        "experimental_bearer_token"@ != "http_headers"@,
        "experimental_bearer_token"@ != "env_http_headers"@,
        "env_key"@ != "env_key_instructions"@,
        "env_key"@ != "auth"@,
        "env_key"@ != "http_headers"@,
        "env_key"@ != "env_http_headers"@,
        "env_key_instructions"@ != "auth"@,
        "env_key_instructions"@ != "http_headers"@,
        "env_key_instructions"@ != "env_http_headers"@,
        "auth"@ != "http_headers"@,
        "auth"@ != "env_http_headers"@,
        "http_headers"@ != "env_http_headers"@,
{
    reveal_strlit("name");
    reveal_strlit("base_url");
    reveal_strlit("wire_api");
    reveal_strlit("requires_openai_auth");
    reveal_strlit("supports_websockets");
    reveal_strlit("experimental_bearer_token");
    reveal_strlit("env_key");
    reveal_strlit("env_key_instructions");
    reveal_strlit("auth");
    reveal_strlit("http_headers");
    reveal_strlit("env_http_headers");
    assert("name"@.len() == 4);
    assert("base_url"@.len() == 8);
    assert("wire_api"@.len() == 8);
    assert("requires_openai_auth"@.len() == 20);
    assert("supports_websockets"@.len() == 19);
    assert("experimental_bearer_token"@.len() == 25);
    assert("env_key"@.len() == 7);
    assert("env_key_instructions"@.len() == 20);
    assert("auth"@.len() == 4);
    assert("http_headers"@.len() == 12);
    assert("env_http_headers"@.len() == 16);
    assert("name"@[0] != "auth"@[0]);
    assert("base_url"@[0] != "wire_api"@[0]);
    assert("requires_openai_auth"@[0] != "env_key_instructions"@[0]);
}

/// The settings that a switch changes have different names.
proof fn lemma_settings_differ()
    ensures
        "model"@ != "model_provider"@,
        "model"@ != "model_providers"@,
        "model"@ != "experimental_bearer_token"@,
        "model_provider"@ != "model_providers"@,
        "model_provider"@ != "experimental_bearer_token"@,
        "model_providers"@ != "experimental_bearer_token"@,
{
    reveal_strlit("model");
    reveal_strlit("model_provider");
    reveal_strlit("model_providers");
    reveal_strlit("experimental_bearer_token");
    assert("model"@.len() == 5);
    assert("model_provider"@.len() == 14);
    assert("model_providers"@.len() == 15);
    assert("experimental_bearer_token"@.len() == 25);
}

/// The providers that a configuration lists.
pub open spec fn listed(entries: Entries) -> Entries {
    match section_entry(entries, "model_providers"@) {
        Some(providers) => providers,
        None => Map::empty(),
    }
}

/// The configuration that a switch writes.
proof fn lemma_written(
    input: &ProviderInput,
    current_text: &str,
    r: Result<PreparedSwitch, CodexxError>,
) -> (doc: DocumentMut)
    requires
        call_ensures(switch_provider_locked, (input, current_text), r),
        r is Ok,
    ensures
        document_text(doc) == r->Ok_0.replacement@,
        switched_entries(input@, current_text@) is Ok,
        document_entries(doc) == switched_entries(input@, current_text@)->Ok_0,
        rest(document_spellings(doc), provider_keys()) == rest(
            spelled(current_text@),
            provider_keys(),
        ),
{
    let entries = switched_entries(input@, current_text@)->Ok_0;
    choose|doc: DocumentMut| #[trigger]
        document_entries(doc) == entries && document_text(doc) == r->Ok_0.replacement@ && rest(
            document_spellings(doc),
            provider_keys(),
        ) == rest(spelled(current_text@), provider_keys())
}

/// After a switch the live configuration uses the provider that the user entered: its name, its
/// endpoint and its model as they were entered, but for white space around them and slashes behind
/// the endpoint; the interface that was entered, and `responses` only where none was; the official
/// login unless that was denied; and no WebSockets.
pub proof fn law_switch_uses_what_was_entered(
    input: &ProviderInput,
    current_text: &str,
    r: Result<PreparedSwitch, CodexxError>,
) -> (doc: DocumentMut)
    requires
        call_ensures(switch_provider_locked, (input, current_text), r),
        r is Ok,
    ensures
        document_text(doc) == r->Ok_0.replacement@,
        text_entry(document_entries(doc), "model_provider"@) == Some("custom"@),
        text_entry(document_entries(doc), "model"@) == Some(trimmed(input.model@)),
        section_entry(document_entries(doc), "model_providers"@) is Some,
        section_entry(listed(document_entries(doc)), "custom"@) matches Some(table) && {
            &&& input.wire_api matches Some(wire_api) ==> text_entry(table, "wire_api"@) == Some(
                wire_api@,
            )
            &&& input.wire_api is None ==> text_entry(table, "wire_api"@) == Some("responses"@)
            &&& text_entry(table, "name"@) == Some(trimmed(input.provider_name@))
            &&& text_entry(table, "base_url"@) == Some(
                without_trailing(trimmed(input.base_url@), '/'),
            )
            &&& input.requires_openai_auth matches Some(needed) ==> boolean_entry(
                table,
                "requires_openai_auth"@,
            ) == Some(needed)
            &&& input.requires_openai_auth is None ==> boolean_entry(table, "requires_openai_auth"@)
                == Some(true)
            &&& boolean_entry(table, "supports_websockets"@) == Some(false)
        },
{
    let doc = lemma_written(input, current_text, r);
    lemma_fields_differ();
    lemma_settings_differ();
    let table = input_section(input@);
    assert(section_entry(listed(document_entries(doc)), "custom"@) == Some(table));
    doc
}

/// Two switches that differ in the interface that was entered write two interfaces.
pub proof fn law_switches_tell_interfaces_apart(
    input: &ProviderInput,
    other: &ProviderInput,
    current_text: &str,
    r: Result<PreparedSwitch, CodexxError>,
    s: Result<PreparedSwitch, CodexxError>,
) -> (docs: (DocumentMut, DocumentMut))
    requires
        call_ensures(switch_provider_locked, (input, current_text), r),
        call_ensures(switch_provider_locked, (other, current_text), s),
        r is Ok,
        s is Ok,
        input.wire_api is Some,
        other.wire_api is Some,
        input.wire_api->0@ != other.wire_api->0@,
    ensures
        document_text(docs.0) == r->Ok_0.replacement@,
        document_text(docs.1) == s->Ok_0.replacement@,
        text_entry(section_entry(listed(document_entries(docs.0)), "custom"@)->0, "wire_api"@)
            != text_entry(
            section_entry(listed(document_entries(docs.1)), "custom"@)->0,
            "wire_api"@,
        ),
{
    let a = law_switch_uses_what_was_entered(input, current_text, r);
    let b = law_switch_uses_what_was_entered(other, current_text, s);
    (a, b)
}

/// A switch keeps everything else: every setting that does not follow the provider has its value and
/// stays as it is written, and every other provider keeps its table but for its token.
pub proof fn law_switch_keeps_everything_else(
    input: &ProviderInput,
    current_text: &str,
    r: Result<PreparedSwitch, CodexxError>,
    key: Seq<char>,
    id: Seq<char>,
    name: Seq<char>,
) -> (doc: DocumentMut)
    requires
        call_ensures(switch_provider_locked, (input, current_text), r),
        r is Ok,
    ensures
        document_text(doc) == r->Ok_0.replacement@,
        parsed_toml(current_text@) matches Ok(before) && {
            let after = document_entries(doc);
            &&& key != "model"@ && key != "model_provider"@ && key != "model_providers"@ && key
                != "experimental_bearer_token"@ ==> {
                &&& after.contains_key(key) <==> before.contains_key(key)
                &&& before.contains_key(key) ==> after[key] == before[key]
                &&& document_spellings(doc).contains_key(key) <==> spelled(current_text@).contains_key(
                    key,
                )
                &&& spelled(current_text@).contains_key(key) ==> document_spellings(doc)[key]
                    == spelled(current_text@)[key]
            }
            &&& id != "custom"@ ==> {
                &&& listed(after).contains_key(id) <==> listed(before).contains_key(id)
                &&& section_entry(listed(before), id) matches Some(table) ==> (section_entry(
                    listed(after),
                    id,
                ) matches Some(left) && (name != "experimental_bearer_token"@ ==> (
                left.contains_key(name) <==> table.contains_key(name)) && (table.contains_key(name)
                    ==> left[name] == table[name])))
            }
        },
{
    let doc = lemma_written(input, current_text, r);
    lemma_settings_differ();
    let before = parsed_toml(current_text@)->Ok_0;
    let after = document_entries(doc);
    let spellings = document_spellings(doc);
    if !provider_keys().contains(key) {
        assert(rest(spellings, provider_keys()).contains_key(key) <==> spellings.contains_key(key));
        assert(rest(spelled(current_text@), provider_keys()).contains_key(key) <==> spelled(
            current_text@,
        ).contains_key(key));
        if spelled(current_text@).contains_key(key) {
            assert(rest(spellings, provider_keys())[key] == spellings[key]);
            assert(rest(spelled(current_text@), provider_keys())[key] == spelled(
                current_text@,
            )[key]);
        }
    }
    assert(listed(before).contains_key(id) ==> listed(stripped(before)).contains_key(id));
    if listed(before).contains_key(id) {
        assert(listed(stripped(before))[id] == without_token(listed(before)[id]));
    }
    doc
}

/// A switch keeps credentials apart: no token is left in the configuration but the key of the
/// provider that was entered, in its own table, and that only where it needs no official login. The
/// credential file holds that key and nothing else, and is removed where there is none.
pub proof fn law_switch_keeps_credentials_apart(
    input: &ProviderInput,
    current_text: &str,
    r: Result<PreparedSwitch, CodexxError>,
    id: Seq<char>,
) -> (doc: DocumentMut)
    requires
        call_ensures(switch_provider_locked, (input, current_text), r),
        r is Ok,
    ensures
        document_text(doc) == r->Ok_0.replacement@,
        !document_entries(doc).contains_key("experimental_bearer_token"@),
        id != "custom"@ ==> (section_entry(listed(document_entries(doc)), id) matches Some(table)
            ==> !table.contains_key("experimental_bearer_token"@)),
        ({
            let table = section_entry(listed(document_entries(doc)), "custom"@)->0;
            let keyed = input.api_key is Some && !blank(input.api_key->0@);
            &&& keyed && input.requires_openai_auth == Some(false) ==> text_entry(
                table,
                "experimental_bearer_token"@,
            ) == Some(trimmed(input.api_key->0@))
            &&& !keyed || input.requires_openai_auth != Some(false) ==> !table.contains_key(
                "experimental_bearer_token"@,
            )
            &&& keyed ==> (r->Ok_0.auth_action matches LiveAuthAction::Replace(auth) && field(
                json_value(auth),
                "OPENAI_API_KEY"@,
            ) == Some(JsonView::Text(trimmed(input.api_key->0@))) && forall|name: Seq<char>|
                name != "OPENAI_API_KEY"@ ==> #[trigger] field(json_value(auth), name) is None)
            &&& !keyed ==> r->Ok_0.auth_action is Remove
        }),
{
    let doc = lemma_written(input, current_text, r);
    lemma_fields_differ();
    lemma_settings_differ();
    let before = parsed_toml(current_text@)->Ok_0;
    let table = input_section(input@);
    assert(section_entry(listed(document_entries(doc)), "custom"@) == Some(table));
    if input.api_key is Some {
        lemma_trimmed_twice(input.api_key->0@);
    }
    if listed(before).contains_key(id) {
        assert(listed(stripped(before))[id] == without_token(listed(before)[id]));
    }
    doc
}

/// A switch is refused exactly where something that was entered is missing or is still the example,
/// where the configuration cannot be read or lists its providers otherwise than in a table, or where
/// the provider needs a key and none was entered.
pub proof fn law_switch_is_refused_only_for_a_reason(
    input: &ProviderInput,
    current_text: &str,
    r: Result<PreparedSwitch, CodexxError>,
)
    requires
        call_ensures(switch_provider_locked, (input, current_text), r),
    ensures
        ({
            let url = without_trailing(trimmed(input.base_url@), '/');
            let before = parsed_toml(current_text@);
            r is Err <==> (input.provider_id is Some && blank(input.provider_id->0@)) || blank(
                input.provider_name@,
            ) || url.len() == 0 || blank(input.model@) || (normalized_name(
                trimmed(input.provider_name@),
            ) == "your-provider"@ && canonical_url(url) == "https://example.com/v1"@) || before is Err
                || (before->Ok_0.contains_key("model_providers"@)
                && !(before->Ok_0["model_providers"@] is Section)) || (input.requires_openai_auth
                != Some(false) && (input.api_key is None || blank(input.api_key->0@)))
        }),
{
    lemma_settings_differ();
}

/// What is checked before anything is read is refused by the switch too.
pub proof fn law_refused_inputs_are_not_switched_to(
    input: &ProviderInput,
    current_text: &str,
    checked: Result<(), CodexxError>,
    r: Result<PreparedSwitch, CodexxError>,
)
    requires
        call_ensures(check_provider_input, (input,), checked),
        call_ensures(switch_provider_locked, (input, current_text), r),
    ensures
        checked is Err ==> r is Err && r->Err_0@ == checked->Err_0@,
{
}

/// Under a third-party provider the credential file holds its key and nothing else; without a key
/// there is none.
pub proof fn law_third_party_credentials_are_the_key_alone(
    api_key: &Option<String>,
    r: LiveAuthAction,
    name: Seq<char>,
)
    requires
        call_ensures(provider_auth_action, (api_key,), r),
    ensures
        api_key is None || blank(api_key->0@) ==> r is Remove,
        api_key is Some && !blank(api_key->0@) ==> (r matches LiveAuthAction::Replace(auth) && field(
            json_value(auth),
            "OPENAI_API_KEY"@,
        ) == Some(JsonView::Text(trimmed(api_key->0@))) && (name != "OPENAI_API_KEY"@ ==> field(
            json_value(auth),
            name,
        ) is None)),
{
}

/// A switch reports the provider by its name without the white space around it.
pub proof fn law_switches_name_the_provider(
    input: &ProviderInput,
    current_text: &str,
    given: &str,
    name: String,
    r: Result<PreparedSwitch, CodexxError>,
)
    requires
        call_ensures(switch_provider_locked, (input, current_text), r),
        given@ == input.provider_name@,
        call_ensures(crate::text::trim, (given,), name),
        r is Ok,
    ensures
        r->Ok_0.message@ == "已切换到 "@ + name@,
{
}

} // verus!
