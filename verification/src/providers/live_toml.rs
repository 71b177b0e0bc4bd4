//! The TOML of the live configuration: what is merged into it, drafted from it and taken out of
//! it.
use crate::error::{config, config2, config3, CodexxError, ErrorView};
use crate::json::{
    empty_object, field, get_field, json_pretty, json_text, json_value, no_fields, parse_json,
    parsed_json, set_field, text_of, write_json_pretty, JsonView,
};
use crate::providers::official_auth::{document_is_official, official_document};
use crate::providers::store::{
    bearer_token, canonical_provider_base_url, canonical_url, custom_id, custom_provider_id,
    experimental_bearer_token_from_doc, is_placeholder_provider, lemma_rest_stays, normal_form,
    normalize_saved_provider, others, placeholder_provider, print_template, prints, prints_over,
    provider_keys, provider_section, provider_template_from_document, reserved_codex_provider_id,
    reserved_id, rest, strip_provider_bearer_tokens, stripped, template_entries, ProviderView,
    SavedProvider,
};
use crate::providers::transport::{configure_third_party_transport, with_transport};
use crate::text::{
    blank, is_blank, keep, kept, lowered, opt_view, same_text, to_lower, trim, trim_end_char,
    trimmed, trimmed_end, without_trailing,
};
use crate::toml::{
    boolean_entry, document_entries, document_spellings, document_text, drop_field, entry_keys,
    field_keys, fields_of, get_boolean, get_kept_text, get_section, get_text, item_value,
    kept_entry, no_entries, parse_toml, parsed_toml, print_toml, section_entry, set_boolean,
    set_entry, set_section, set_text, spelled, table_entries, table_item, table_spellings,
    text_entry, with_fields, Entries, Spellings, TomlView,
};
use serde_json::Value;
use toml_edit::{DocumentMut, Table};
use vstd::prelude::*;

verus! {

/// What is to become of the live credential.
#[derive(Debug)]
pub enum LiveAuthAction {
    /// It is left alone.
    Keep,
    /// It is replaced.
    Replace(Value),
    /// It is removed.
    Remove,
}

/// What is to become of the live credential, as contracts speak of it.
pub ghost enum AuthActionView {
    Keep,
    Replace(JsonView),
    Remove,
}

impl View for LiveAuthAction {
    type V = AuthActionView;

    open spec fn view(&self) -> AuthActionView {
        match self {
            LiveAuthAction::Keep => AuthActionView::Keep,
            LiveAuthAction::Replace(value) => AuthActionView::Replace(json_value(*value)),
            LiveAuthAction::Remove => AuthActionView::Remove,
        }
    }
}

/// The credential file of a third-party key.
pub open spec fn key_file(key: Seq<char>) -> JsonView {
    JsonView::Object(no_fields().insert("OPENAI_API_KEY"@, JsonView::Text(key)))
}

/// What remains of an optional text once it is trimmed, if anything.
pub open spec fn kept_opt(text: Option<Seq<char>>) -> Option<Seq<char>> {
    match text {
        Some(text) => kept(text),
        None => None,
    }
}

/// What becomes of the live credential under a third-party provider: its key takes its place;
/// without a key there is none.
pub open spec fn auth_action(key: Option<Seq<char>>) -> AuthActionView {
    match kept_opt(key) {
        Some(key) => AuthActionView::Replace(key_file(key)),
        None => AuthActionView::Remove,
    }
}

fn keep_opt(text: &Option<String>) -> (r: Option<String>)
    ensures
        opt_view(r) == kept_opt(opt_view(*text)),
{
    match text {
        Some(text) => keep(text),
        None => None,
    }
}

/// What becomes of the live credential under a third-party provider.
pub fn provider_auth_action(api_key: &Option<String>) -> (r: LiveAuthAction)
    ensures
        r@ == auth_action(opt_view(*api_key)),
{
    match keep_opt(api_key) {
        Some(key) => {
            let mut auth = empty_object();
            set_field(&mut auth, "OPENAI_API_KEY", json_text(&key));
            LiveAuthAction::Replace(auth)
        },
        None => LiveAuthAction::Remove,
    }
}

/// The content of a JSON file: indented, with a line feed at the end.
pub open spec fn json_file(value: JsonView) -> Option<Seq<u8>> {
    match json_pretty(value) {
        Some(bytes) => Some(bytes.push(10)),
        None => None,
    }
}

/// The content of a JSON file.
pub fn json_bytes(value: &Value) -> (r: Option<Vec<u8>>)
    ensures
        match json_file(json_value(*value)) {
            Some(bytes) => r matches Some(found) && found@ == bytes,
            None => r is None,
        },
{
    match write_json_pretty(value) {
        Some(bytes) => {
            let mut bytes = bytes;
            bytes.push(10);
            Some(bytes)
        },
        None => None,
    }
}

/// Whether the name of a header is that of the authorization.
pub open spec fn is_authorization(name: Seq<char>) -> bool {
    lowered(name) == "authorization"@
}

/// Headers without an authorization.
pub open spec fn without_authorization(fields: Entries) -> Entries {
    Map::new(
        |name: Seq<char>| fields.contains_key(name) && !is_authorization(name),
        |name: Seq<char>| fields[name],
    )
}

/// A provider's table without the authorization among these headers.
pub open spec fn with_clean_headers(entries: Entries, headers: Seq<char>) -> Entries {
    if entries.contains_key(headers) {
        match fields_of(entries[headers]) {
            Some(fields) => entries.insert(
                headers,
                with_fields(entries[headers], without_authorization(fields)),
            ),
            None => entries,
        }
    } else {
        entries
    }
}

fn clean_headers(table: &mut Table, headers: &str)
    ensures
        table_entries(*final(table)) == with_clean_headers(table_entries(*old(table)), headers@),
{
    let ghost before = table_entries(*table);
    let mut item = match table.get(headers) {
        Some(item) => item.clone(),
        None => return,
    };
    let ghost start = item_value(item);
    let keys = match field_keys(&item) {
        Some(keys) => keys,
        None => return,
    };
    let ghost fields = fields_of(start)->Some_0;
    let mut i: usize = 0;
    while i < keys.len()
        invariant
            i <= keys@.len(),
            fields_of(start) == Some(fields),
            item_value(item) == with_fields(start, fields_of(item_value(item))->Some_0),
            fields_of(item_value(item)) is Some,
            forall|name: Seq<char>|
                #![trigger fields_of(item_value(item))->Some_0.contains_key(name)]
                fields_of(item_value(item))->Some_0.contains_key(name) <==> (fields.contains_key(
                    name,
                ) && !(is_authorization(name) && exists|j: int|
                    0 <= j < i && #[trigger] keys@[j]@ == name)),
            forall|name: Seq<char>|
                fields_of(item_value(item))->Some_0.contains_key(name) ==> #[trigger] fields_of(
                    item_value(item),
                )->Some_0[name] == fields[name],
        decreases keys@.len() - i,
    {
        let ghost current = fields_of(item_value(item))->Some_0;
        if same_text(&to_lower(&keys[i]), "authorization") {
            drop_field(&mut item, &keys[i]);
            assert(fields_of(item_value(item))->Some_0 == current.remove(keys@[i as int]@));
        }
        proof {
            let name = keys@[i as int]@;
            assert forall|other: Seq<char>|
                fields_of(item_value(item))->Some_0.contains_key(other) <==> (fields.contains_key(
                    other,
                ) && !(is_authorization(other) && exists|j: int|
                    0 <= j < i + 1 && #[trigger] keys@[j]@ == other)) by {
                if other == name {
                    assert(keys@[i as int]@ == other);
                }
                if exists|j: int| 0 <= j < i + 1 && #[trigger] keys@[j]@ == other {
                    let j = choose|j: int| 0 <= j < i + 1 && #[trigger] keys@[j]@ == other;
                    assert(j < i || other == name);
                }
                assert(current.contains_key(other) <==> (fields.contains_key(other) && !(
                is_authorization(other) && exists|j: int|
                    0 <= j < i && #[trigger] keys@[j]@ == other)));
            }
        }
        i = i + 1;
    }
    proof {
        let left = fields_of(item_value(item))->Some_0;
        assert(left =~= without_authorization(fields));
    }
    set_entry(table, headers, item);
}

/// A third-party provider's table as it stands in the live configuration. Codex reads no
/// credential file for a provider without official authentication, so its key goes into the
/// table, and no other credential stays there.
pub open spec fn with_live_auth(
    entries: Entries,
    key: Option<Seq<char>>,
    requires_openai_auth: bool,
) -> Entries {
    let base = entries.remove("experimental_bearer_token"@);
    if requires_openai_auth {
        base
    } else {
        match kept_opt(key) {
            None => base,
            Some(key) => with_clean_headers(
                with_clean_headers(
                    base.remove("env_key"@).remove("env_key_instructions"@).remove("auth"@),
                    "http_headers"@,
                ),
                "env_http_headers"@,
            ).insert("experimental_bearer_token"@, TomlView::Text(key)),
        }
    }
}

/// Puts a third-party provider's key into its table in the live configuration.
pub fn configure_live_provider_auth(
    table: &mut Table,
    api_key: &Option<String>,
    requires_openai_auth: bool,
)
    ensures
        table_entries(*final(table)) == with_live_auth(
            table_entries(*old(table)),
            opt_view(*api_key),
            requires_openai_auth,
        ),
{
    let _ = table.remove("experimental_bearer_token");
    if !requires_openai_auth {
        if let Some(key) = keep_opt(api_key) {
            let _ = table.remove("env_key");
            let _ = table.remove("env_key_instructions");
            let _ = table.remove("auth");
            clean_headers(table, "http_headers");
            clean_headers(table, "env_http_headers");
            set_text(table, "experimental_bearer_token", &key);
        }
    }
}

/// The third-party key in a credential file, if there is one. A file that cannot be read as JSON
/// has none.
pub open spec fn auth_file_key(auth: Option<Seq<u8>>) -> Option<Seq<char>> {
    match auth {
        None => None,
        Some(bytes) => match parsed_json(bytes) {
            Err(_) => None,
            Ok(value) => kept_opt(text_of(field(value, "OPENAI_API_KEY"@))),
        },
    }
}

/// The third-party key in a credential file.
pub fn live_auth_api_key(auth: Option<&[u8]>) -> (r: Option<String>)
    ensures
        opt_view(r) == auth_file_key(
            match auth {
                Some(bytes) => Some(bytes@),
                None => None,
            },
        ),
{
    let bytes = match auth {
        Some(bytes) => bytes,
        None => return None,
    };
    let value = match parse_json(bytes) {
        Ok(value) => value,
        Err(_) => return None,
    };
    match get_field(&value, "OPENAI_API_KEY") {
        Some(found) => match found.as_str() {
            Some(text) => keep(text),
            None => None,
        },
        None => None,
    }
}

/// What parsing a configuration file gives; an error names the file.
pub open spec fn parsed_document(name: Seq<char>, text: Seq<char>) -> Result<Entries, ErrorView> {
    match parsed_toml(text) {
        Ok(entries) => Ok(entries),
        Err(message) => Err(ErrorView::Config(name + ": "@ + message)),
    }
}

/// Parses a configuration file.
pub fn parse_toml_document(name: &str, text: &str) -> (r: Result<DocumentMut, CodexxError>)
    ensures
        match parsed_document(name@, text@) {
            Ok(entries) => r matches Ok(doc) && document_entries(doc) == entries
                && document_spellings(doc) == spelled(text@),
            Err(error) => r matches Err(found) && found@ == error,
        },
{
    match parse_toml(text) {
        Ok(doc) => Ok(doc),
        Err(message) => Err(config3(name, ": ", &message)),
    }
}

/// The table under a key, an empty one where there is none yet; an error where something else
/// stands there.
pub open spec fn ensured_section(entries: Entries, key: Seq<char>) -> Result<Entries, ErrorView> {
    if entries.contains_key(key) {
        match entries[key] {
            TomlView::Section(section) => Ok(section),
            _ => Err(ErrorView::Config(key + " 必须是 TOML table"@)),
        }
    } else {
        Ok(no_entries())
    }
}

/// A copy of the table under a key, an empty one where there is none yet.
pub fn ensure_table(table: &Table, key: &str) -> (r: Result<Table, CodexxError>)
    ensures
        match ensured_section(table_entries(*table), key@) {
            Ok(section) => r matches Ok(found) && table_entries(found) == section,
            Err(error) => r matches Err(found) && found@ == error,
        },
{
    match table.get(key) {
        Some(item) => match item.as_table() {
            Some(section) => Ok(section.clone()),
            None => Err(config2(key, " 必须是 TOML table")),
        },
        None => Ok(Table::new()),
    }
}

/// A provider as its table in a configuration describes it.
pub struct CodexSection {
    pub name: Option<String>,
    pub base_url: String,
    pub wire_api: String,
    pub requires_openai_auth: bool,
}

/// What the table of a provider says; nothing where it names no endpoint.
pub fn codex_section_from_table(table: &Table) -> (r: Option<CodexSection>)
    ensures
        match kept_entry(table_entries(*table), "base_url"@) {
            None => r is None,
            Some(base_url) => r matches Some(section) && section.base_url@ == base_url && opt_view(
                section.name,
            ) == kept_entry(table_entries(*table), "name"@) && section.wire_api@ == (match kept_entry(
                table_entries(*table),
                "wire_api"@,
            ) {
                Some(wire_api) => wire_api,
                None => "responses"@,
            }) && section.requires_openai_auth == (boolean_entry(
                table_entries(*table),
                "requires_openai_auth"@,
            ) == Some(true)),
        },
{
    let base_url = match get_kept_text(table, "base_url") {
        Some(base_url) => base_url,
        None => return None,
    };
    let wire_api = match get_kept_text(table, "wire_api") {
        Some(wire_api) => wire_api,
        None => "responses".to_owned(),
    };
    let requires_openai_auth: bool = match get_boolean(table, "requires_openai_auth") {
        Some(value) => value,
        None => false,
    };
    Some(
        CodexSection { name: get_kept_text(table, "name"), base_url, wire_api, requires_openai_auth },
    )
}

/// The third-party provider that a configuration uses, without its template, and the entries of
/// that template; nothing where the route is official, reserved or incomplete.
pub open spec fn detected_provider(entries: Entries, auth: Option<Seq<u8>>) -> Option<
    (ProviderView, Entries),
> {
    match (kept_entry(entries, "model_provider"@), kept_entry(entries, "model"@)) {
        (Some(id), Some(model)) => if official_document(entries) || (id != "custom"@ && reserved_id(
            id,
        )) {
            None
        } else {
            match provider_section(entries, id) {
                None => None,
                Some(section) => match kept_entry(section, "base_url"@) {
                    None => None,
                    Some(base_url) => Some(
                        (
                            ProviderView {
                                id,
                                provider_name: match kept_entry(section, "name"@) {
                                    Some(name) => name,
                                    None => id,
                                },
                                base_url,
                                model,
                                api_key: match bearer_token(entries, Some(id)) {
                                    Some(token) => Some(token),
                                    None => auth_file_key(auth),
                                },
                                toml_config: None,
                                wire_api: match kept_entry(section, "wire_api"@) {
                                    Some(wire_api) => wire_api,
                                    None => "responses"@,
                                },
                                requires_openai_auth: boolean_entry(
                                    section,
                                    "requires_openai_auth"@,
                                ) == Some(true),
                                model_mappings: seq![],
                            },
                            template_entries(entries, id, model),
                        ),
                    ),
                },
            }
        },
        _ => None,
    }
}

/// Whether `found` is a provider with a template of these entries, in which the settings that do
/// not follow the provider are written in this way; a template without any text is left out.
pub open spec fn with_printed_template(
    view: ProviderView,
    template: Entries,
    spellings: Spellings,
    found: ProviderView,
) -> bool {
    exists|text: Seq<char>| #[trigger]
        prints_over(text, template, spellings) && found == (ProviderView {
            toml_config: if text.len() == 0 {
                None
            } else {
                Some(text)
            },
            ..view
        })
}

/// The third-party provider that the live configuration uses. A key in the credential file is
/// looked at only once the route is known to be a third party's.
pub fn detected_live_custom_provider(doc: &DocumentMut, auth: Option<&[u8]>) -> (r: Result<
    Option<SavedProvider>,
    CodexxError,
>)
    ensures
        r is Ok,
        match detected_provider(
            document_entries(*doc),
            match auth {
                Some(bytes) => Some(bytes@),
                None => None,
            },
        ) {
            Some((view, template)) => r matches Ok(Some(found)) && with_printed_template(
                view,
                template,
                document_spellings(*doc),
                found@,
            ),
            None => r matches Ok(None),
        },
{
    let root = doc.as_table();
    let provider_id = match get_kept_text(root, "model_provider") {
        Some(id) => id,
        None => return Ok(None),
    };
    if document_is_official(doc) || (!same_text(&provider_id, "custom")
        && reserved_codex_provider_id(&provider_id)) {
        return Ok(None);
    }
    let model = match get_kept_text(root, "model") {
        Some(model) => model,
        None => return Ok(None),
    };
    let table = match get_section(root, "model_providers") {
        Some(providers) => match get_section(providers, &provider_id) {
            Some(table) => table,
            None => return Ok(None),
        },
        None => return Ok(None),
    };
    let section = match codex_section_from_table(table) {
        Some(section) => section,
        None => return Ok(None),
    };
    let api_key = match experimental_bearer_token_from_doc(doc, Some(provider_id.as_str())) {
        Some(token) => Some(token),
        None => live_auth_api_key(auth),
    };
    let provider_name = match section.name {
        Some(name) => name,
        None => provider_id.clone(),
    };
    let text = match provider_template_from_document(doc, &provider_id, &model) {
        Ok(text) => text,
        Err(error) => return Err(error),
    };
    let toml_config = if text.as_str().is_empty() {
        None
    } else {
        Some(text.clone())
    };
    let found = SavedProvider {
        id: provider_id,
        provider_name,
        base_url: section.base_url,
        model,
        api_key,
        toml_config,
        wire_api: section.wire_api,
        requires_openai_auth: section.requires_openai_auth,
        model_mappings: Vec::new(),
    };
    proof {
        assert(found@.model_mappings =~= seq![]);
        assert(prints_over(
            text@,
            template_entries(document_entries(*doc), provider_id@, model@),
            document_spellings(*doc),
        ));
    }
    Ok(Some(found))
}

/// A key that belongs to the choice of a provider and model, not to what providers share.
pub open spec fn is_model_key(key: Seq<char>) -> bool {
    key == "model"@ || key == "review_model"@ || key == "model_reasoning_effort"@ || key
        == "model_reasoning_summary"@ || key == "model_verbosity"@ || key == "model_context_window"@
        || key == "model_auto_compact_token_limit"@ || key == "model_supports_reasoning_summaries"@
        || key == "model_catalog_json"@ || key == "service_tier"@ || key
        == "disable_response_storage"@
}

fn model_key(key: &str) -> (r: bool)
    ensures
        r == is_model_key(key@),
{
    same_text(key, "model") || same_text(key, "review_model") || same_text(
        key,
        "model_reasoning_effort",
    ) || same_text(key, "model_reasoning_summary") || same_text(key, "model_verbosity")
        || same_text(key, "model_context_window") || same_text(key, "model_auto_compact_token_limit")
        || same_text(key, "model_supports_reasoning_summaries") || same_text(
        key,
        "model_catalog_json",
    ) || same_text(key, "service_tier") || same_text(key, "disable_response_storage")
}

/// Whether a configuration holds nothing but a provider and its model.
pub open spec fn provider_only(entries: Entries) -> bool {
    forall|key: Seq<char>| #[trigger]
        entries.contains_key(key) ==> is_model_key(key) || key == "model_provider"@ || key
            == "model_providers"@ || key == "experimental_bearer_token"@
}

/// Whether a configuration holds nothing but a provider and its model.
pub fn is_provider_only_document(doc: &DocumentMut) -> (r: bool)
    ensures
        r == provider_only(document_entries(*doc)),
{
    let ghost entries = document_entries(*doc);
    let keys = entry_keys(doc.as_table());
    let mut i: usize = 0;
    while i < keys.len()
        invariant
            i <= keys@.len(),
            entries == document_entries(*doc),
            forall|key: Seq<char>|
                entries.contains_key(key) <==> exists|j: int|
                    0 <= j < keys@.len() && #[trigger] keys@[j]@ == key,
            forall|j: int|
                0 <= j < i ==> is_model_key(#[trigger] keys@[j]@) || keys@[j]@ == "model_provider"@
                    || keys@[j]@ == "model_providers"@ || keys@[j]@ == "experimental_bearer_token"@,
        decreases keys@.len() - i,
    {
        let key = &keys[i];
        if !(model_key(key) || same_text(key, "model_provider") || same_text(key, "model_providers")
            || same_text(key, "experimental_bearer_token")) {
            assert(entries.contains_key(keys@[i as int]@));
            return false;
        }
        i = i + 1;
    }
    proof {
        assert forall|key: Seq<char>| #[trigger] entries.contains_key(key) implies is_model_key(key)
            || key == "model_provider"@ || key == "model_providers"@ || key
            == "experimental_bearer_token"@ by {
            let j = choose|j: int| 0 <= j < keys@.len() && #[trigger] keys@[j]@ == key;
            assert(is_model_key(keys@[j]@) || keys@[j]@ == "model_provider"@ || keys@[j]@
                == "model_providers"@ || keys@[j]@ == "experimental_bearer_token"@);
        }
    }
    true
}

/// A configuration with a shared table of another one, where it has none under that key.
pub open spec fn with_shared(entries: Entries, official: Entries, key: Seq<char>) -> Entries {
    if !entries.contains_key(key) && official.contains_key(key) && fields_of(official[key]) is Some {
        entries.insert(key, official[key])
    } else {
        entries
    }
}

/// A configuration with the shared tables of the official one. Nothing else comes from there: no
/// credential, route, execution or model setting.
pub open spec fn with_shared_tables(entries: Entries, official: Entries) -> Entries {
    with_shared(
        with_shared(
            with_shared(
                with_shared(
                    with_shared(entries, official, "mcp_servers"@),
                    official,
                    "desktop"@,
                ),
                official,
                "marketplaces"@,
            ),
            official,
            "plugins"@,
        ),
        official,
        "projects"@,
    )
}

/// The settings that the configuration that drafts start from may not have from the live one.
pub open spec fn base_keys() -> Set<Seq<char>> {
    provider_keys().union(set!["mcp_servers"@, "desktop"@, "marketplaces"@, "plugins"@, "projects"@])
}

fn share(table: &mut Table, official: &Table, key: &str)
    requires
        base_keys().contains(key@),
    ensures
        rest(table_spellings(*final(table)), base_keys()) == rest(
            table_spellings(*old(table)),
            base_keys(),
        ),
        table_entries(*final(table)) == with_shared(
            table_entries(*old(table)),
            table_entries(*official),
            key@,
        ),
{
    if table.get(key).is_none() {
        if let Some(item) = official.get(key) {
            if item.is_table_like() {
                let ghost before = table_spellings(*table);
                let _ = table.insert(key, item.clone());
                proof {
                    lemma_rest_stays(before, table_spellings(*table), key@, base_keys());
                }
            }
        }
    }
}

/// Whether shared tables are to be recovered from the official configuration: the live one holds
/// nothing but a provider, and nobody has decided about them yet.
pub fn recovers_shared_tables(doc: &DocumentMut, handled: bool) -> (r: bool)
    ensures
        r == (provider_only(document_entries(*doc)) && !handled),
{
    !handled && is_provider_only_document(doc)
}

/// The configuration that drafts start from, given the live one and, where shared tables are to
/// be recovered, the official one.
pub open spec fn config_base(entries: Entries, official: Option<Entries>) -> Entries {
    stripped(
        match official {
            Some(official) => with_shared_tables(entries, official),
            None => entries,
        },
    )
}

/// The configuration that drafts start from. What it has from the live one stays as it is written
/// there.
pub fn provider_config_base_document(current: DocumentMut, official: Option<&DocumentMut>) -> (r:
    DocumentMut)
    ensures
        rest(document_spellings(r), base_keys()) == rest(document_spellings(current), base_keys()),
        official is None ==> others(document_spellings(r)) == others(document_spellings(current)),
        document_entries(r) == config_base(
            document_entries(current),
            match official {
                Some(doc) => Some(document_entries(*doc)),
                None => None,
            },
        ),
{
    let mut current = current;
    if let Some(official) = official {
        let source = official.as_table();
        share(current.as_table_mut(), source, "mcp_servers");
        share(current.as_table_mut(), source, "desktop");
        share(current.as_table_mut(), source, "marketplaces");
        share(current.as_table_mut(), source, "plugins");
        share(current.as_table_mut(), source, "projects");
    }
    let ghost shared = document_spellings(current);
    strip_provider_bearer_tokens(&mut current);
    proof {
        let bare = document_spellings(current);
        assert(rest(bare, base_keys()) =~= rest(others(bare), base_keys()));
        assert(rest(shared, base_keys()) =~= rest(others(shared), base_keys()));
    }
    current
}

/// The text of the configuration that drafts start from.
pub fn get_provider_config_base_inner(current: DocumentMut, official: Option<&DocumentMut>) -> (r:
    String)
    ensures
        official is None ==> prints_over(
            r@,
            config_base(document_entries(current), None),
            document_spellings(current),
        ),
        prints(
            r@,
            config_base(
                document_entries(current),
                match official {
                    Some(doc) => Some(document_entries(*doc)),
                    None => None,
                },
            ),
        ),
{
    let doc = provider_config_base_document(current, official);
    print_template(&doc)
}

/// Every entry of the second, and those of the first that the second lacks.
pub open spec fn overlaid_entries(base: Entries, template: Entries) -> Entries {
    base.union_prefer_right(template)
}

/// A configuration with a template laid over it: the template's entries, and its providers among
/// those that are there.
pub open spec fn overlaid(base: Entries, template: Entries) -> Result<Entries, ErrorView> {
    let rest = overlaid_entries(base, template.remove("model_providers"@));
    if template.contains_key("model_providers"@) {
        match ensured_section(base, "model_providers"@) {
            Err(error) => Err(error),
            Ok(providers) => Ok(
                rest.insert(
                    "model_providers"@,
                    TomlView::Section(
                        match template["model_providers"@] {
                            TomlView::Section(tables) => overlaid_entries(providers, tables),
                            _ => providers,
                        },
                    ),
                ),
            ),
        }
    } else {
        Ok(rest)
    }
}

/// The entries of a table that are under these keys.
pub open spec fn only_keys(entries: Entries, keys: Seq<String>, n: int) -> Entries {
    Map::new(
        |key: Seq<char>|
            entries.contains_key(key) && exists|j: int| 0 <= j < n && #[trigger] keys[j]@ == key,
        |key: Seq<char>| entries[key],
    )
}

proof fn lemma_next_key(entries: Entries, keys: Seq<String>, i: int)
    requires
        0 <= i < keys.len(),
        entries.contains_key(keys[i]@),
    ensures
        only_keys(entries, keys, i + 1) == only_keys(entries, keys, i).insert(
            keys[i]@,
            entries[keys[i]@],
        ),
{
    let wider = only_keys(entries, keys, i + 1);
    let other = only_keys(entries, keys, i).insert(keys[i]@, entries[keys[i]@]);
    assert forall|key: Seq<char>| wider.contains_key(key) == other.contains_key(key) by {
        if wider.contains_key(key) {
            let j = choose|j: int| 0 <= j < i + 1 && #[trigger] keys[j]@ == key;
            assert(j < i || key == keys[i]@);
        }
        if other.contains_key(key) {
            if key != keys[i]@ {
                let j = choose|j: int| 0 <= j < i && #[trigger] keys[j]@ == key;
                assert(0 <= j < i + 1 && keys[j]@ == key);
            } else {
                assert(keys[i]@ == key);
            }
        }
    }
    assert(wider =~= other);
}

proof fn lemma_all_keys(entries: Entries, keys: Seq<String>)
    requires
        forall|key: Seq<char>|
            entries.contains_key(key) <==> exists|j: int|
                0 <= j < keys.len() && #[trigger] keys[j]@ == key,
    ensures
        only_keys(entries, keys, keys.len() as int) == entries,
{
    assert(only_keys(entries, keys, keys.len() as int) =~= entries);
}

fn overlay_table(base: &mut Table, template: &Table, skipped: &str)
    ensures
        table_entries(*final(base)) == overlaid_entries(
            table_entries(*old(base)),
            table_entries(*template).remove(skipped@),
        ),
{
    let ghost start = table_entries(*base);
    let ghost source = table_entries(*template);
    let keys = entry_keys(template);
    let mut i: usize = 0;
    assert(overlaid_entries(start, only_keys(source, keys@, 0).remove(skipped@)) =~= start);
    while i < keys.len()
        invariant
            i <= keys@.len(),
            source == table_entries(*template),
            forall|key: Seq<char>|
                source.contains_key(key) <==> exists|j: int|
                    0 <= j < keys@.len() && #[trigger] keys@[j]@ == key,
            table_entries(*base) == overlaid_entries(
                start,
                only_keys(source, keys@, i as int).remove(skipped@),
            ),
        decreases keys@.len() - i,
    {
        let key = &keys[i];
        let ghost current = table_entries(*base);
        assert(source.contains_key(keys@[i as int]@));
        proof {
            lemma_next_key(source, keys@, i as int);
        }
        if !same_text(key, skipped) {
            if let Some(item) = template.get(key) {
                let _ = base.insert(key, item.clone());
            }
            assert(table_entries(*base) =~= overlaid_entries(
                start,
                only_keys(source, keys@, i + 1).remove(skipped@),
            ));
        } else {
            assert(only_keys(source, keys@, i + 1).remove(skipped@) =~= only_keys(
                source,
                keys@,
                i as int,
            ).remove(skipped@));
        }
        i = i + 1;
    }
    proof {
        lemma_all_keys(source, keys@);
    }
}

/// Lays a template over a configuration.
pub fn overlay_provider_template(base: DocumentMut, template: &DocumentMut) -> (r: Result<
    DocumentMut,
    CodexxError,
>)
    ensures
        match overlaid(document_entries(base), document_entries(*template)) {
            Ok(entries) => r matches Ok(doc) && document_entries(doc) == entries,
            Err(error) => r matches Err(found) && found@ == error,
        },
{
    let mut base = base;
    let ghost start = document_entries(base);
    let ghost source = document_entries(*template);
    let mut merged: Option<Table> = None;
    if let Some(item) = template.as_table().get("model_providers") {
        let mut providers = match ensure_table(base.as_table(), "model_providers") {
            Ok(providers) => providers,
            Err(error) => return Err(error),
        };
        if let Some(tables) = item.as_table() {
            overlay_all(&mut providers, tables);
        }
        merged = Some(providers);
    }
    overlay_table(base.as_table_mut(), template.as_table(), "model_providers");
    if let Some(providers) = merged {
        set_section(base.as_table_mut(), "model_providers", providers);
    }
    proof {
        if !source.contains_key("model_providers"@) {
            assert(source.remove("model_providers"@) =~= source);
        }
    }
    Ok(base)
}

fn overlay_all(base: &mut Table, template: &Table)
    ensures
        table_entries(*final(base)) == overlaid_entries(
            table_entries(*old(base)),
            table_entries(*template),
        ),
{
    let ghost start = table_entries(*base);
    let ghost source = table_entries(*template);
    let keys = entry_keys(template);
    let mut i: usize = 0;
    assert(overlaid_entries(start, only_keys(source, keys@, 0)) =~= start);
    while i < keys.len()
        invariant
            i <= keys@.len(),
            source == table_entries(*template),
            forall|key: Seq<char>|
                source.contains_key(key) <==> exists|j: int|
                    0 <= j < keys@.len() && #[trigger] keys@[j]@ == key,
            table_entries(*base) == overlaid_entries(start, only_keys(source, keys@, i as int)),
        decreases keys@.len() - i,
    {
        let key = &keys[i];
        assert(source.contains_key(keys@[i as int]@));
        proof {
            lemma_next_key(source, keys@, i as int);
        }
        if let Some(item) = template.get(key) {
            let _ = base.insert(key, item.clone());
        }
        assert(table_entries(*base) =~= overlaid_entries(
            start,
            only_keys(source, keys@, i + 1),
        ));
        i = i + 1;
    }
    proof {
        lemma_all_keys(source, keys@);
    }
}

/// Whether a provider's table is for this endpoint.
pub open spec fn same_table_endpoint(entries: Entries, base_url: Seq<char>) -> bool {
    text_entry(entries, "base_url"@) matches Some(old) && canonical_url(old) == canonical_url(
        base_url,
    )
}

/// A provider's table without credentials of any kind.
pub open spec fn without_credentials(entries: Entries) -> Entries {
    entries.remove("experimental_bearer_token"@).remove("env_key"@).remove(
        "env_key_instructions"@,
    ).remove("auth"@).remove("http_headers"@).remove("env_http_headers"@).remove("query_params"@)
}

/// A provider's table without the credentials of another provider: it keeps its own only in its
/// own template and for the same endpoint.
pub open spec fn without_foreign_credentials(
    entries: Entries,
    base_url: Seq<char>,
    own_template: bool,
) -> Entries {
    if own_template && same_table_endpoint(entries, base_url) {
        entries
    } else {
        without_credentials(entries)
    }
}

/// Takes the credentials of another provider out of a provider's table.
pub fn clear_foreign_provider_credentials(table: &mut Table, base_url: &str, own_template: bool)
    ensures
        table_entries(*final(table)) == without_foreign_credentials(
            table_entries(*old(table)),
            base_url@,
            own_template,
        ),
        own_template && same_table_endpoint(table_entries(*old(table)), base_url@)
            ==> *final(table) == *old(table),
{
    let same_endpoint: bool = match get_text(table, "base_url") {
        Some(old) => same_text(
            &canonical_provider_base_url(&old),
            &canonical_provider_base_url(base_url),
        ),
        None => false,
    };
    if !own_template || !same_endpoint {
        let _ = table.remove("experimental_bearer_token");
        let _ = table.remove("env_key");
        let _ = table.remove("env_key_instructions");
        let _ = table.remove("auth");
        let _ = table.remove("http_headers");
        let _ = table.remove("env_http_headers");
        let _ = table.remove("query_params");
    }
}

/// The template of a saved provider, parsed; none where it has no text.
pub fn saved_template(provider: &SavedProvider) -> (r: Result<Option<DocumentMut>, CodexxError>)
    ensures
        match kept_opt(provider@.toml_config) {
            None => r matches Ok(None),
            Some(text) => match parsed_document("config.toml"@, text) {
                Ok(entries) => r matches Ok(Some(doc)) && document_entries(doc) == entries,
                Err(error) => r matches Err(found) && found@ == error,
            },
        },
{
    match keep_opt(&provider.toml_config) {
        None => Ok(None),
        Some(text) => match parse_toml_document("config.toml", &text) {
            Ok(doc) => Ok(Some(doc)),
            Err(error) => Err(error),
        },
    }
}

/// The settings for a model that a saved provider prefers, as its template gives them.
pub open spec fn preferences_of(provider: ProviderView) -> Result<Entries, ErrorView> {
    match provider.toml_config {
        None => Ok(no_entries()),
        Some(text) => parsed_document("config.toml"@, text),
    }
}

/// The settings for a model that a saved provider prefers, as its template gives them.
pub fn saved_preferences(provider: &SavedProvider) -> (r: Result<DocumentMut, CodexxError>)
    ensures
        match preferences_of(provider@) {
            Ok(entries) => r matches Ok(doc) && document_entries(doc) == entries,
            Err(error) => r matches Err(found) && found@ == error,
        },
{
    match &provider.toml_config {
        None => Ok(DocumentMut::new()),
        Some(text) => parse_toml_document("config.toml", text),
    }
}

/// The provider that a draft is for: one without an identifier gets one from its name.
pub open spec fn draft_provider(provider: ProviderView) -> ProviderView {
    if blank(provider.id) {
        ProviderView { id: custom_id(provider.provider_name), ..provider }
    } else {
        provider
    }
}

/// The configuration that a draft is made in: the provider's own template, laid over the base
/// where it holds nothing but a provider; the base where there is no template.
pub open spec fn draft_start(template: Option<Entries>, base: Entries) -> Result<Entries, ErrorView> {
    match template {
        Some(template) => if provider_only(template) {
            overlaid(base, template)
        } else {
            Ok(template)
        },
        None => Ok(base),
    }
}

/// Whether a draft starts from the configuration that drafts share: a template that is complete
/// needs none.
pub fn draft_needs_base(template: Option<&DocumentMut>) -> (r: bool)
    ensures
        r == match template {
            Some(doc) => provider_only(document_entries(*doc)),
            None => true,
        },
{
    match template {
        Some(doc) => is_provider_only_document(doc),
        None => true,
    }
}

/// The identifier under which a draft lists the provider: that of its template, if it has a table
/// there, otherwise `custom`.
pub open spec fn draft_id(has_template: bool, entries: Entries) -> Seq<char> {
    match kept_entry(entries, "model_provider"@) {
        Some(id) => if has_template && provider_section(entries, id) is Some {
            id
        } else {
            "custom"@
        },
        None => "custom"@,
    }
}

/// The table of a provider in a draft.
pub open spec fn draft_section(provider: ProviderView, section: Entries, own_template: bool) -> Entries {
    with_transport(
        without_foreign_credentials(section, provider.base_url, own_template),
        provider.base_url,
        own_template,
    ).insert("name"@, TomlView::Text(trimmed(provider.provider_name))).insert(
        "base_url"@,
        TomlView::Text(without_trailing(trimmed(provider.base_url), '/')),
    ).insert("wire_api"@, TomlView::Text(trimmed(provider.wire_api))).insert(
        "requires_openai_auth"@,
        TomlView::Boolean(provider.requires_openai_auth),
    )
}

/// The entries of a draft.
pub open spec fn draft_entries(
    provider: ProviderView,
    template: Option<Entries>,
    base: Entries,
    new_provider: bool,
) -> Result<Entries, ErrorView> {
    match draft_start(template, base) {
        Err(error) => Err(error),
        Ok(start) => {
            let entries = stripped(start);
            let id = draft_id(template is Some, entries);
            let chosen = entries.insert("model_provider"@, TomlView::Text(id)).insert(
                "model"@,
                TomlView::Text(trimmed(provider.model)),
            );
            match ensured_section(chosen, "model_providers"@) {
                Err(error) => Err(error),
                Ok(providers) => match ensured_section(providers, id) {
                    Err(error) => Err(error),
                    Ok(section) => Ok(
                        chosen.insert(
                            "model_providers"@,
                            TomlView::Section(
                                providers.insert(
                                    id,
                                    TomlView::Section(
                                        draft_section(
                                            provider,
                                            section,
                                            template is Some && !new_provider,
                                        ),
                                    ),
                                ),
                            ),
                        ),
                    ),
                },
            }
        },
    }
}

/// How the configuration that a draft starts from is written: its template where that is complete,
/// or the configuration that drafts share. A template laid over that one has parts of both.
pub open spec fn draft_spellings(template: Option<(Entries, Spellings)>, base: Spellings) -> Option<
    Spellings,
> {
    match template {
        Some((entries, written)) => if provider_only(entries) {
            None
        } else {
            Some(written)
        },
        None => Some(base),
    }
}

/// What a document holds and how it is written.
pub open spec fn template_parts(template: Option<&DocumentMut>) -> Option<(Entries, Spellings)> {
    match template {
        Some(doc) => Some((document_entries(*doc), document_spellings(*doc))),
        None => None,
    }
}

/// Whether a result is a draft: the template that a provider has once it is normalized with this
/// configuration as its template. Each of the two steps leaves the settings that do not follow the
/// provider as they are written.
pub open spec fn drafts(
    provider: ProviderView,
    entries: Entries,
    spellings: Option<Spellings>,
    r: Result<String, CodexxError>,
) -> bool {
    exists|text: Seq<char>| #[trigger]
        prints(text, entries) && (spellings matches Some(written) ==> prints_over(
            text,
            entries,
            written,
        )) && match normal_form(
            ProviderView { toml_config: Some(text), ..provider },
        ) {
            Err(error) => r matches Err(found) && found@ == error,
            Ok((_, Some(template))) => r matches Ok(draft) && prints_over(
                draft@,
                template,
                spelled(trimmed_end(text)),
            ),
            Ok((_, None)) => r matches Err(found) && found@ == ErrorView::Config(
                "无法生成供应商 TOML"@,
            ),
        }
}

/// Whether a result is what drafting the complete configuration of a provider gives.
pub open spec fn drafted(
    provider: ProviderView,
    template: Option<Entries>,
    base: Entries,
    new_provider: bool,
    spellings: Option<Spellings>,
    r: Result<String, CodexxError>,
) -> bool {
    match draft_entries(draft_provider(provider), template, base, new_provider) {
        Ok(entries) => drafts(draft_provider(provider), entries, spellings, r),
        Err(error) => r matches Err(found) && found@ == error,
    }
}

fn draft_document(
    provider: &SavedProvider,
    template: Option<&DocumentMut>,
    base: DocumentMut,
    new_provider: bool,
) -> (r: Result<DocumentMut, CodexxError>)
    ensures
        match draft_entries(
            provider@,
            match template {
                Some(doc) => Some(document_entries(*doc)),
                None => None,
            },
            document_entries(base),
            new_provider,
        ) {
            Ok(entries) => r matches Ok(doc) && document_entries(doc) == entries && (
            draft_spellings(
                template_parts(template),
                document_spellings(base),
            ) matches Some(written) ==> others(document_spellings(doc)) == others(written)),
            Err(error) => r matches Err(found) && found@ == error,
        },
{
    let mut doc = match template {
        Some(template) => if is_provider_only_document(template) {
            match overlay_provider_template(base, template) {
                Ok(doc) => doc,
                Err(error) => return Err(error),
            }
        } else {
            template.clone()
        },
        None => base,
    };
    strip_provider_bearer_tokens(&mut doc);
    let mut provider_id = "custom".to_owned();
    if template.is_some() {
        if let Some(id) = get_kept_text(doc.as_table(), "model_provider") {
            if let Some(providers) = get_section(doc.as_table(), "model_providers") {
                if get_section(providers, &id).is_some() {
                    provider_id = id;
                }
            }
        }
    }
    let own_template: bool = template.is_some() && !new_provider;
    let ghost bare = document_spellings(doc);
    set_text(doc.as_table_mut(), "model_provider", &provider_id);
    let ghost routed = document_spellings(doc);
    set_text(doc.as_table_mut(), "model", &trim(&provider.model));
    let ghost chosen = document_spellings(doc);
    let mut providers = match ensure_table(doc.as_table(), "model_providers") {
        Ok(providers) => providers,
        Err(error) => return Err(error),
    };
    let mut table = match ensure_table(&providers, &provider_id) {
        Ok(table) => table,
        Err(error) => return Err(error),
    };
    clear_foreign_provider_credentials(&mut table, &provider.base_url, own_template);
    configure_third_party_transport(&mut table, &provider.base_url, own_template);
    set_text(&mut table, "name", &trim(&provider.provider_name));
    set_text(&mut table, "base_url", &trim_end_char(&trim(&provider.base_url), '/'));
    set_text(&mut table, "wire_api", &trim(&provider.wire_api));
    set_boolean(&mut table, "requires_openai_auth", provider.requires_openai_auth);
    set_section(&mut providers, &provider_id, table);
    set_section(doc.as_table_mut(), "model_providers", providers);
    proof {
        lemma_rest_stays(bare, routed, "model_provider"@, provider_keys());
        lemma_rest_stays(routed, chosen, "model"@, provider_keys());
        lemma_rest_stays(chosen, document_spellings(doc), "model_providers"@, provider_keys());
    }
    Ok(doc)
}

/// Drafts the complete configuration of a provider from its template, if it has one, and the
/// configuration that drafts start from, which does not matter where `draft_needs_base` says no.
pub fn build_provider_toml_draft_with_origin_inner(
    provider: SavedProvider,
    template: Option<&DocumentMut>,
    base: DocumentMut,
    new_provider: bool,
) -> (r: Result<String, CodexxError>)
    ensures
        drafted(
            provider@,
            match template {
                Some(doc) => Some(document_entries(*doc)),
                None => None,
            },
            document_entries(base),
            new_provider,
            draft_spellings(template_parts(template), document_spellings(base)),
            r,
        ),
{
    let mut provider = provider;
    if is_blank(&provider.id) {
        provider.id = custom_provider_id(&provider.provider_name);
    }
    let doc = match draft_document(&provider, template, base, new_provider) {
        Ok(doc) => doc,
        Err(error) => return Err(error),
    };
    let text = print_template(&doc);
    let ghost view = provider@;
    let ghost printed = text@;
    provider.toml_config = Some(text);
    assert(prints(printed, document_entries(doc)));
    assert(draft_spellings(
        template_parts(template),
        document_spellings(base),
    ) matches Some(written) ==> prints_over(printed, document_entries(doc), written));
    assert(provider@ == (ProviderView { toml_config: Some(printed), ..view }));
    match normalize_saved_provider(provider) {
        Ok(normalized) => match normalized.toml_config {
            Some(draft) => Ok(draft),
            None => Err(config("无法生成供应商 TOML")),
        },
        Err(error) => Err(error),
    }
}

/// Drafts the complete configuration of a provider that is already saved: the draft is one that
/// `build_provider_toml_draft_with_origin_inner` makes of a provider that is not new.
pub fn build_provider_toml_draft_inner(
    provider: SavedProvider,
    template: Option<&DocumentMut>,
    base: DocumentMut,
) -> (r: Result<String, CodexxError>)
    ensures
        drafted(
            provider@,
            match template {
                Some(doc) => Some(document_entries(*doc)),
                None => None,
            },
            document_entries(base),
            false,
            draft_spellings(template_parts(template), document_spellings(base)),
            r,
        ),
        call_ensures(
            build_provider_toml_draft_with_origin_inner,
            (provider, template, base, false),
            r,
        ),
{
    build_provider_toml_draft_with_origin_inner(provider, template, base, false)
}

/// Whether a provider's configuration is complete, and not just a provider and its model: it
/// lists several providers or holds any other key.
pub open spec fn complete_config(entries: Entries) -> bool {
    (section_entry(entries, "model_providers"@) matches Some(providers) && exists|
        a: Seq<char>,
        b: Seq<char>,
    |
        a != b && #[trigger] providers.contains_key(a) && #[trigger] providers.contains_key(b))
        || exists|key: Seq<char>| #[trigger]
        entries.contains_key(key) && key != "model_provider"@ && key != "model"@ && key
            != "model_providers"@
}

fn is_complete_config(doc: &DocumentMut) -> (r: bool)
    ensures
        r == complete_config(document_entries(*doc)),
{
    let ghost entries = document_entries(*doc);
    if let Some(providers) = get_section(doc.as_table(), "model_providers") {
        let keys = entry_keys(providers);
        if keys.len() > 1 {
            proof {
                let first = keys@[0]@;
                let second = keys@[1]@;
                assert(table_entries(*providers).contains_key(first));
                assert(table_entries(*providers).contains_key(second));
            }
            return true;
        }
        proof {
            let held = table_entries(*providers);
            assert forall|a: Seq<char>, b: Seq<char>| #[trigger]
                held.contains_key(a) && #[trigger] held.contains_key(b) implies a == b by {
                let i = choose|i: int| 0 <= i < keys@.len() && #[trigger] keys@[i]@ == a;
                let j = choose|j: int| 0 <= j < keys@.len() && #[trigger] keys@[j]@ == b;
                assert(i == 0 && j == 0);
            }
        }
    }
    let keys = entry_keys(doc.as_table());
    let mut i: usize = 0;
    while i < keys.len()
        invariant
            i <= keys@.len(),
            entries == document_entries(*doc),
            forall|key: Seq<char>|
                entries.contains_key(key) <==> exists|j: int|
                    0 <= j < keys@.len() && #[trigger] keys@[j]@ == key,
            forall|j: int|
                0 <= j < i ==> #[trigger] keys@[j]@ == "model_provider"@ || keys@[j]@ == "model"@
                    || keys@[j]@ == "model_providers"@,
        decreases keys@.len() - i,
    {
        if !same_text(&keys[i], "model_provider") && !same_text(&keys[i], "model") && !same_text(
            &keys[i],
            "model_providers",
        ) {
            assert(entries.contains_key(keys@[i as int]@));
            return true;
        }
        i = i + 1;
    }
    proof {
        assert forall|key: Seq<char>| #[trigger] entries.contains_key(key) implies key
            == "model_provider"@ || key == "model"@ || key == "model_providers"@ by {
            let j = choose|j: int| 0 <= j < keys@.len() && #[trigger] keys@[j]@ == key;
            assert(keys@[j]@ == "model_provider"@ || keys@[j]@ == "model"@ || keys@[j]@
                == "model_providers"@);
        }
    }
    false
}

/// The key that a switch uses: the one given, otherwise the token in the configuration.
pub open spec fn switch_key(
    entries: Entries,
    provider_id: Seq<char>,
    explicit: Option<Seq<char>>,
) -> Option<Seq<char>> {
    match kept_opt(explicit) {
        Some(key) => Some(key),
        None => bearer_token(entries, Some(provider_id)),
    }
}

/// Why a provider's configuration cannot be switched to; the provider's table where it can.
pub open spec fn switch_source(entries: Entries, explicit: Option<Seq<char>>) -> Result<
    (Seq<char>, Seq<char>, Entries),
    ErrorView,
> {
    match kept_entry(entries, "model"@) {
        None => Err(ErrorView::Config("config.toml 必须包含 model"@)),
        Some(model) => match kept_entry(entries, "model_provider"@) {
            None => Err(ErrorView::Config("config.toml 必须包含 model_provider"@)),
            Some(id) => match provider_section(entries, id) {
                None => Err(
                    ErrorView::Config("config.toml 缺少 [model_providers."@ + id + "]"@),
                ),
                Some(section) => match kept_entry(section, "base_url"@) {
                    None => Err(ErrorView::Config("供应商配置必须包含非空 base_url"@)),
                    Some(_) => {
                        let base_url = text_entry(section, "base_url"@)->Some_0;
                        let name = match text_entry(section, "name"@) {
                            Some(name) => name,
                            None => seq![],
                        };
                        if placeholder_provider(name, base_url) {
                            Err(
                                ErrorView::Config(
                                    "供应商名称和 base_url 不能使用示例占位值，请填写实际配置"@,
                                ),
                            )
                        } else if boolean_entry(section, "requires_openai_auth"@) == Some(true)
                            && switch_key(entries, id, explicit) is None {
                            Err(
                                ErrorView::Config(
                                    "该供应商需要 API Key，未切换且未修改 auth.json"@,
                                ),
                            )
                        } else {
                            Ok((model, id, section))
                        }
                    },
                },
            },
        },
    }
}

/// The table of the provider that a switch leads to.
pub open spec fn switched_section(section: Entries, key: Option<Seq<char>>) -> Entries {
    let moved = with_transport(section, text_entry(section, "base_url"@)->Some_0, true);
    with_live_auth(moved, key, boolean_entry(moved, "requires_openai_auth"@) == Some(true))
}

/// A live configuration that routes to this provider, listed as `custom`.
pub open spec fn routed_to_custom(
    live: Entries,
    model: Seq<char>,
    source_id: Seq<char>,
    section: Entries,
) -> Result<Entries, ErrorView> {
    let chosen = stripped(live).insert("model_provider"@, TomlView::Text("custom"@)).insert(
        "model"@,
        TomlView::Text(model),
    );
    match ensured_section(chosen, "model_providers"@) {
        Err(error) => Err(error),
        Ok(providers) => Ok(
            chosen.insert(
                "model_providers"@,
                TomlView::Section(
                    providers.remove("custom"@).remove(source_id).insert(
                        "custom"@,
                        TomlView::Section(section),
                    ),
                ),
            ),
        ),
    }
}

/// What merging a provider's configuration into the live one gives: the new live entries and the
/// key. A complete configuration takes the place of the live one; one that is just a provider and
/// its model is merged into it.
pub open spec fn merged_live(
    current_text: Seq<char>,
    provider_text: Seq<char>,
    explicit: Option<Seq<char>>,
    full: bool,
) -> Result<(Entries, Option<Seq<char>>), ErrorView> {
    match parsed_document("config.toml"@, provider_text) {
        Err(error) => Err(error),
        Ok(source) => match switch_source(source, explicit) {
            Err(error) => Err(error),
            Ok((model, id, section)) => {
                let key = switch_key(source, id, explicit);
                let base = if full || complete_config(source) {
                    Ok(source)
                } else {
                    parsed_document("config.toml"@, current_text)
                };
                match base {
                    Err(error) => Err(error),
                    Ok(live) => match routed_to_custom(
                        live,
                        model,
                        id,
                        switched_section(section, key),
                    ) {
                        Err(error) => Err(error),
                        Ok(entries) => Ok((entries, key)),
                    },
                }
            },
        },
    }
}

/// The text that a merged configuration starts from: the provider's where that is complete or to
/// be taken whole, else the live one.
pub open spec fn merge_source(current_text: Seq<char>, provider_text: Seq<char>, full: bool) -> Seq<
    char,
> {
    if full || complete_config(parsed_toml(provider_text)->Ok_0) {
        provider_text
    } else {
        current_text
    }
}

/// Merges a provider's configuration into the live one. The settings that do not follow the
/// provider stay as they are written.
pub fn merge_provider_toml_into_live_with_policy(
    current_text: &str,
    provider_text: &str,
    explicit_api_key: &Option<String>,
    explicit_full_config: bool,
) -> (r: Result<(DocumentMut, Option<String>), CodexxError>)
    ensures
        match merged_live(
            current_text@,
            provider_text@,
            opt_view(*explicit_api_key),
            explicit_full_config,
        ) {
            Ok((entries, key)) => r matches Ok((doc, found)) && document_entries(doc) == entries
                && opt_view(found) == key && others(document_spellings(doc)) == others(
                spelled(merge_source(current_text@, provider_text@, explicit_full_config)),
            ),
            Err(error) => r matches Err(found) && found@ == error,
        },
{
    let source = match parse_toml_document("config.toml", provider_text) {
        Ok(source) => source,
        Err(error) => return Err(error),
    };
    let model = match get_kept_text(source.as_table(), "model") {
        Some(model) => model,
        None => return Err(config("config.toml 必须包含 model")),
    };
    let source_id = match get_kept_text(source.as_table(), "model_provider") {
        Some(id) => id,
        None => return Err(config("config.toml 必须包含 model_provider")),
    };
    let mut section = match get_section(source.as_table(), "model_providers") {
        Some(providers) => match get_section(providers, &source_id) {
            Some(section) => section.clone(),
            None => return Err(config3("config.toml 缺少 [model_providers.", &source_id, "]")),
        },
        None => return Err(config3("config.toml 缺少 [model_providers.", &source_id, "]")),
    };
    let ghost start = table_entries(section);
    let name = match get_text(&section, "name") {
        Some(name) => name,
        None => String::new(),
    };
    let base_url = match get_text(&section, "base_url") {
        Some(base_url) => base_url,
        None => return Err(config("供应商配置必须包含非空 base_url")),
    };
    if is_blank(&base_url) {
        return Err(config("供应商配置必须包含非空 base_url"));
    }
    assert(name@ == (match text_entry(start, "name"@) {
        Some(name) => name,
        None => seq![],
    }));
    if is_placeholder_provider(&name, &base_url) {
        return Err(
            config("供应商名称和 base_url 不能使用示例占位值，请填写实际配置"),
        );
    }
    let api_key = match keep_opt(explicit_api_key) {
        Some(key) => Some(key),
        None => experimental_bearer_token_from_doc(&source, Some(source_id.as_str())),
    };
    configure_third_party_transport(&mut section, &base_url, true);
    let requires_openai_auth: bool = match get_boolean(&section, "requires_openai_auth") {
        Some(value) => value,
        None => false,
    };
    proof {
        reveal_strlit("requires_openai_auth");
        reveal_strlit("supports_websockets");
        assert("requires_openai_auth"@.len() == 20 && "supports_websockets"@.len() == 19);
        assert(boolean_entry(table_entries(section), "requires_openai_auth"@) == boolean_entry(
            start,
            "requires_openai_auth"@,
        ));
    }
    if requires_openai_auth && api_key.is_none() {
        return Err(config("该供应商需要 API Key，未切换且未修改 auth.json"));
    }
    configure_live_provider_auth(&mut section, &api_key, requires_openai_auth);
    assert(table_entries(section) == switched_section(start, opt_view(api_key)));
    let mut live = if explicit_full_config || is_complete_config(&source) {
        source
    } else {
        match parse_toml_document("config.toml", current_text) {
            Ok(live) => live,
            Err(error) => return Err(error),
        }
    };
    strip_provider_bearer_tokens(&mut live);
    let ghost bare = document_spellings(live);
    set_text(live.as_table_mut(), "model_provider", "custom");
    let ghost routed = document_spellings(live);
    set_text(live.as_table_mut(), "model", &model);
    let ghost chosen = document_spellings(live);
    let mut providers = match ensure_table(live.as_table(), "model_providers") {
        Ok(providers) => providers,
        Err(error) => return Err(error),
    };
    let ghost listed = table_entries(providers);
    let _ = providers.remove("custom");
    if !same_text(&source_id, "custom") {
        let _ = providers.remove(&source_id);
    }
    let _ = providers.insert("custom", table_item(section));
    assert(table_entries(providers) =~= listed.remove("custom"@).remove(source_id@).insert(
        "custom"@,
        TomlView::Section(table_entries(section)),
    ));
    set_section(live.as_table_mut(), "model_providers", providers);
    proof {
        lemma_rest_stays(bare, routed, "model_provider"@, provider_keys());
        lemma_rest_stays(routed, chosen, "model"@, provider_keys());
        lemma_rest_stays(chosen, document_spellings(live), "model_providers"@, provider_keys());
    }
    Ok((live, api_key))
}

/// A configuration whose setting for a model follows another one: the same item, or none. A
/// catalog of models stays where the other configuration names none.
pub open spec fn with_model_key(entries: Entries, source: Entries, key: Seq<char>) -> Entries {
    if source.contains_key(key) {
        entries.insert(key, source[key])
    } else if key == "model_catalog_json"@ {
        entries
    } else {
        entries.remove(key)
    }
}

/// The keys that belong to the choice of a model. Whether responses are stored is not among them:
/// privacy is shared.
pub open spec fn model_keys() -> Seq<Seq<char>> {
    seq![
        "model"@,
        "review_model"@,
        "model_reasoning_effort"@,
        "model_reasoning_summary"@,
        "model_verbosity"@,
        "model_context_window"@,
        "model_auto_compact_token_limit"@,
        "model_supports_reasoning_summaries"@,
        "model_catalog_json"@,
        "service_tier"@,
    ]
}

/// A configuration whose settings for a model follow another one, for the first keys.
pub open spec fn with_model_keys(entries: Entries, source: Entries, n: nat) -> Entries
    decreases n,
{
    if n == 0 {
        entries
    } else {
        with_model_key(
            with_model_keys(entries, source, (n - 1) as nat),
            source,
            model_keys()[n - 1],
        )
    }
}

/// The settings of a configuration that an activation may change.
pub open spec fn activation_keys() -> Set<Seq<char>> {
    model_keys().to_set().union(route_keys().to_set())
}

/// The keys that belong to the choice of a model may change.
proof fn lemma_model_keys_activate()
    ensures
        activation_keys().contains("model"@),
        activation_keys().contains("review_model"@),
        activation_keys().contains("model_reasoning_effort"@),
        activation_keys().contains("model_reasoning_summary"@),
        activation_keys().contains("model_verbosity"@),
        activation_keys().contains("model_context_window"@),
        activation_keys().contains("model_auto_compact_token_limit"@),
        activation_keys().contains("model_supports_reasoning_summaries"@),
        activation_keys().contains("model_catalog_json"@),
        activation_keys().contains("service_tier"@),
{
    let keys = model_keys();
    assert(keys.contains(keys[0]));
    assert(keys.contains(keys[1]));
    assert(keys.contains(keys[2]));
    assert(keys.contains(keys[3]));
    assert(keys.contains(keys[4]));
    assert(keys.contains(keys[5]));
    assert(keys.contains(keys[6]));
    assert(keys.contains(keys[7]));
    assert(keys.contains(keys[8]));
    assert(keys.contains(keys[9]));
}

/// The keys that decide where requests go may change.
proof fn lemma_route_keys_activate()
    ensures
        activation_keys().contains("model_provider"@),
        activation_keys().contains("model_providers"@),
        activation_keys().contains("base_url"@),
        activation_keys().contains("experimental_bearer_token"@),
        activation_keys().contains("auth"@),
        activation_keys().contains("auth_mode"@),
        activation_keys().contains("tokens"@),
        activation_keys().contains("openai_api_key"@),
        activation_keys().contains("api_key"@),
        activation_keys().contains("api_base"@),
        activation_keys().contains("chatgpt_base_url"@),
        activation_keys().contains("forced_login_method"@),
        activation_keys().contains("forced_chatgpt_workspace_id"@),
        activation_keys().contains("env_key"@),
        activation_keys().contains("env_key_instructions"@),
        activation_keys().contains("http_headers"@),
        activation_keys().contains("env_http_headers"@),
        activation_keys().contains("query_params"@),
{
    let keys = route_keys();
    assert(keys.contains(keys[0]));
    assert(keys.contains(keys[1]));
    assert(keys.contains(keys[2]));
    assert(keys.contains(keys[3]));
    assert(keys.contains(keys[4]));
    assert(keys.contains(keys[5]));
    assert(keys.contains(keys[6]));
    assert(keys.contains(keys[7]));
    assert(keys.contains(keys[8]));
    assert(keys.contains(keys[9]));
    assert(keys.contains(keys[10]));
    assert(keys.contains(keys[11]));
    assert(keys.contains(keys[12]));
    assert(keys.contains(keys[13]));
    assert(keys.contains(keys[14]));
    assert(keys.contains(keys[15]));
    assert(keys.contains(keys[16]));
    assert(keys.contains(keys[17]));
}

fn adopt_model_key(table: &mut Table, source: &Table, key: &str)
    requires
        activation_keys().contains(key@),
    ensures
        rest(table_spellings(*final(table)), activation_keys()) == rest(
            table_spellings(*old(table)),
            activation_keys(),
        ),
        table_entries(*final(table)) == with_model_key(
            table_entries(*old(table)),
            table_entries(*source),
            key@,
        ),
{
    match source.get(key) {
        Some(item) => {
            let _ = table.insert(key, item.clone());
        },
        None => {
            if !same_text(key, "model_catalog_json") {
                let _ = table.remove(key);
            }
        },
    }
    proof {
        lemma_rest_stays(
            table_spellings(*old(table)),
            table_spellings(*table),
            key@,
            activation_keys(),
        );
    }
}

fn adopt_model_keys(table: &mut Table, source: &Table)
    ensures
        rest(table_spellings(*final(table)), activation_keys()) == rest(
            table_spellings(*old(table)),
            activation_keys(),
        ),
        table_entries(*final(table)) == with_model_keys(
            table_entries(*old(table)),
            table_entries(*source),
            model_keys().len(),
        ),
{
    proof {
        lemma_model_keys_activate();
    }
    adopt_model_key(table, source, "model");
    adopt_model_key(table, source, "review_model");
    adopt_model_key(table, source, "model_reasoning_effort");
    adopt_model_key(table, source, "model_reasoning_summary");
    adopt_model_key(table, source, "model_verbosity");
    adopt_model_key(table, source, "model_context_window");
    adopt_model_key(table, source, "model_auto_compact_token_limit");
    adopt_model_key(table, source, "model_supports_reasoning_summaries");
    adopt_model_key(table, source, "model_catalog_json");
    adopt_model_key(table, source, "service_tier");
    proof {
        reveal_with_fuel(with_model_keys, 11);
    }
}

/// A configuration whose routing follows another one: the same item, or none.
pub open spec fn with_route_key(entries: Entries, source: Entries, key: Seq<char>) -> Entries {
    if source.contains_key(key) {
        entries.insert(key, source[key])
    } else {
        entries.remove(key)
    }
}

/// The keys that decide where requests go and as whom.
pub open spec fn route_keys() -> Seq<Seq<char>> {
    seq![
        "model_provider"@,
        "model_providers"@,
        "base_url"@,
        "experimental_bearer_token"@,
        "auth"@,
        "auth_mode"@,
        "tokens"@,
        "openai_api_key"@,
        "api_key"@,
        "api_base"@,
        "chatgpt_base_url"@,
        "forced_login_method"@,
        "forced_chatgpt_workspace_id"@,
        "env_key"@,
        "env_key_instructions"@,
        "http_headers"@,
        "env_http_headers"@,
        "query_params"@,
    ]
}

/// A configuration whose routing follows another one, for the first keys.
pub open spec fn with_route_keys(entries: Entries, source: Entries, n: nat) -> Entries
    decreases n,
{
    if n == 0 {
        entries
    } else {
        with_route_key(
            with_route_keys(entries, source, (n - 1) as nat),
            source,
            route_keys()[n - 1],
        )
    }
}

fn adopt_route_key(table: &mut Table, source: &Table, key: &str)
    requires
        activation_keys().contains(key@),
    ensures
        rest(table_spellings(*final(table)), activation_keys()) == rest(
            table_spellings(*old(table)),
            activation_keys(),
        ),
        table_entries(*final(table)) == with_route_key(
            table_entries(*old(table)),
            table_entries(*source),
            key@,
        ),
{
    let _ = table.remove(key);
    let ghost without = table_entries(*table);
    if let Some(item) = source.get(key) {
        let _ = table.insert(key, item.clone());
        assert(table_entries(*table) =~= table_entries(*old(table)).insert(
            key@,
            table_entries(*source)[key@],
        ));
    }
    proof {
        lemma_rest_stays(
            table_spellings(*old(table)),
            table_spellings(*table),
            key@,
            activation_keys(),
        );
    }
}

fn adopt_route_keys(table: &mut Table, source: &Table)
    ensures
        rest(table_spellings(*final(table)), activation_keys()) == rest(
            table_spellings(*old(table)),
            activation_keys(),
        ),
        table_entries(*final(table)) == with_route_keys(
            table_entries(*old(table)),
            table_entries(*source),
            route_keys().len(),
        ),
{
    proof {
        lemma_route_keys_activate();
    }
    adopt_route_key(table, source, "model_provider");
    adopt_route_key(table, source, "model_providers");
    adopt_route_key(table, source, "base_url");
    adopt_route_key(table, source, "experimental_bearer_token");
    adopt_route_key(table, source, "auth");
    adopt_route_key(table, source, "auth_mode");
    adopt_route_key(table, source, "tokens");
    adopt_route_key(table, source, "openai_api_key");
    adopt_route_key(table, source, "api_key");
    adopt_route_key(table, source, "api_base");
    adopt_route_key(table, source, "chatgpt_base_url");
    adopt_route_key(table, source, "forced_login_method");
    adopt_route_key(table, source, "forced_chatgpt_workspace_id");
    adopt_route_key(table, source, "env_key");
    adopt_route_key(table, source, "env_key_instructions");
    adopt_route_key(table, source, "http_headers");
    adopt_route_key(table, source, "env_http_headers");
    adopt_route_key(table, source, "query_params");
    proof {
        reveal_with_fuel(with_route_keys, 19);
    }
}

/// The live configuration that a saved provider is activated with: the shared settings of the
/// current one, the model settings of the provider's template, and the provider's table of the
/// draft.
pub open spec fn activation_entries(
    saved: ProviderView,
    target: Entries,
    preferences: Entries,
    base: Entries,
) -> Result<Entries, ErrorView> {
    let current = with_model_keys(base, preferences, model_keys().len()).insert(
        "model"@,
        TomlView::Text(saved.model),
    );
    match kept_entry(target, "model_provider"@) {
        None => Err(ErrorView::Config("供应商配置缺少 model_provider"@)),
        Some(id) => {
            let chosen = current.insert("model_provider"@, TomlView::Text(id));
            match section_entry(target, "model_providers"@) {
                None => Err(ErrorView::Config("供应商配置缺少模型接口设置"@)),
                Some(tables) => if !tables.contains_key(id) {
                    Err(ErrorView::Config("供应商配置缺少模型接口设置"@))
                } else {
                    match ensured_section(chosen, "model_providers"@) {
                        Err(error) => Err(error),
                        Ok(providers) => Ok(
                            stripped(
                                chosen.insert(
                                    "model_providers"@,
                                    TomlView::Section(providers.insert(id, tables[id])),
                                ),
                            ),
                        ),
                    }
                },
            }
        },
    }
}

/// What activating a saved provider gives, with the draft of its configuration.
pub open spec fn activated(saved: ProviderView, draft: Seq<char>, base: Entries) -> Result<
    Entries,
    ErrorView,
> {
    match parsed_document("config.toml"@, draft) {
        Err(error) => Err(error),
        Ok(target) => match preferences_of(saved) {
            Err(error) => Err(error),
            Ok(preferences) => activation_entries(saved, target, preferences, base),
        },
    }
}

/// The live configuration that a saved provider is activated with, given the draft of its
/// configuration and the configuration that activations start from. The shared settings stay as
/// they are written there.
pub fn provider_activation_document(saved: &SavedProvider, draft: &str, base: DocumentMut) -> (r:
    Result<DocumentMut, CodexxError>)
    ensures
        match activated(saved@, draft@, document_entries(base)) {
            Ok(entries) => r matches Ok(doc) && document_entries(doc) == entries && rest(
                document_spellings(doc),
                activation_keys(),
            ) == rest(document_spellings(base), activation_keys()),
            Err(error) => r matches Err(found) && found@ == error,
        },
{
    let target = match parse_toml_document("config.toml", draft) {
        Ok(target) => target,
        Err(error) => return Err(error),
    };
    let preferences = match saved_preferences(saved) {
        Ok(preferences) => preferences,
        Err(error) => return Err(error),
    };
    let mut current = base;
    adopt_model_keys(current.as_table_mut(), preferences.as_table());
    let ghost adopted = document_spellings(current);
    set_text(current.as_table_mut(), "model", &saved.model);
    let ghost chosen = document_spellings(current);
    let provider_id = match get_kept_text(target.as_table(), "model_provider") {
        Some(id) => id,
        None => return Err(config("供应商配置缺少 model_provider")),
    };
    set_text(current.as_table_mut(), "model_provider", &provider_id);
    let ghost routed = document_spellings(current);
    let item = match get_section(target.as_table(), "model_providers") {
        Some(tables) => match tables.get(&provider_id) {
            Some(item) => item.clone(),
            None => return Err(config("供应商配置缺少模型接口设置")),
        },
        None => return Err(config("供应商配置缺少模型接口设置")),
    };
    let mut providers = match ensure_table(current.as_table(), "model_providers") {
        Ok(providers) => providers,
        Err(error) => return Err(error),
    };
    let _ = providers.insert(&provider_id, item);
    set_section(current.as_table_mut(), "model_providers", providers);
    let ghost whole = document_spellings(current);
    strip_provider_bearer_tokens(&mut current);
    proof {
        let bare = document_spellings(current);
        lemma_model_keys_activate();
        lemma_route_keys_activate();
        lemma_rest_stays(adopted, chosen, "model"@, activation_keys());
        lemma_rest_stays(chosen, routed, "model_provider"@, activation_keys());
        lemma_rest_stays(routed, whole, "model_providers"@, activation_keys());
        assert(rest(bare, activation_keys()) =~= rest(others(bare), activation_keys()));
        assert(rest(whole, activation_keys()) =~= rest(others(whole), activation_keys()));
    }
    Ok(current)
}

/// Whether a text is the whole print of a configuration with these entries, in which everything
/// but the entries under `keys` is written in this way.
pub open spec fn prints_whole_over(
    text: Seq<char>,
    entries: Entries,
    spellings: Spellings,
    keys: Set<Seq<char>>,
) -> bool {
    exists|doc: DocumentMut| #[trigger]
        document_entries(doc) == entries && text == document_text(doc) && rest(
            document_spellings(doc),
            keys,
        ) == rest(spellings, keys)
}

/// Prints a configuration.
pub fn print_document(doc: &DocumentMut) -> (r: String)
    ensures
        r@ == document_text(*doc),
{
    print_toml(doc)
}

/// The entries of the live configuration that an official profile is activated with: the shared
/// settings of the current one, and routing, account and model of the profile alone.
pub open spec fn official_activation_entries(target: Entries, base: Entries) -> Entries {
    with_route_keys(
        with_model_keys(base, target, model_keys().len()),
        target,
        route_keys().len(),
    )
}

/// The text of the live configuration that an official profile with this configuration is activated
/// with, and the model that it is to be checked against. The shared settings stay as they are
/// written in the configuration that activations start from.
pub fn official_activation_config_text(target_text: &str, base: DocumentMut) -> (r: Result<
    (String, Option<String>),
    CodexxError,
>)
    ensures
        match parsed_document("config.toml"@, target_text@) {
            Err(error) => r matches Err(found) && found@ == error,
            Ok(target) => r matches Ok((text, model)) && prints_whole_over(
                text@,
                official_activation_entries(target, document_entries(base)),
                document_spellings(base),
                activation_keys(),
            ) && opt_view(model) == kept_entry(target, "model"@),
        },
{
    let target = match parse_toml_document("config.toml", target_text) {
        Ok(target) => target,
        Err(error) => return Err(error),
    };
    let mut current = base;
    adopt_model_keys(current.as_table_mut(), target.as_table());
    adopt_route_keys(current.as_table_mut(), target.as_table());
    Ok((print_document(&current), get_kept_text(target.as_table(), "model")))
}

} // verus!
