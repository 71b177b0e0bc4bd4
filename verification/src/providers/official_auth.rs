//! What counts as an official route and as an official credential.
use crate::json::{field, get_field, json_value, text_of, JsonView};
use crate::providers::store::provider_section;
use crate::text::{blank, bytes_text, is_blank, same_text, text_from_bytes};
use crate::toml::{
    document_entries, get_kept_text, get_section, kept_entry, parse_toml, parsed_toml, Entries,
};
use serde_json::Value;
use toml_edit::DocumentMut;
use vstd::prelude::*;

verus! {

/// Whether a configuration routes to the official interface: it names no provider, the built-in
/// one, or one whose table names no endpoint.
pub open spec fn official_document(entries: Entries) -> bool {
    match kept_entry(entries, "model_provider"@) {
        None => true,
        Some(id) => id == "openai"@ || (provider_section(entries, id) matches Some(section)
            && kept_entry(section, "base_url"@) is None),
    }
}

/// Whether a configuration routes to the official interface.
pub fn document_is_official(doc: &DocumentMut) -> (r: bool)
    ensures
        r == official_document(document_entries(*doc)),
{
    let id = match get_kept_text(doc.as_table(), "model_provider") {
        Some(id) => id,
        None => return true,
    };
    if same_text(&id, "openai") {
        return true;
    }
    match get_section(doc.as_table(), "model_providers") {
        Some(providers) => match get_section(providers, &id) {
            Some(section) => get_kept_text(section, "base_url").is_none(),
            None => false,
        },
        None => false,
    }
}

/// Whether the content of a configuration file routes to the official interface; nothing where it
/// cannot be read. No file at all does.
pub open spec fn official_snapshot(config: Option<Seq<u8>>) -> Option<bool> {
    match config {
        None => Some(true),
        Some(bytes) => match bytes_text(bytes) {
            None => None,
            Some(text) => match parsed_toml(text) {
                Err(_) => None,
                Ok(entries) => Some(official_document(entries)),
            },
        },
    }
}

/// Whether the content of a configuration file routes to the official interface.
pub fn config_snapshot_is_official(config: Option<&[u8]>) -> (r: Option<bool>)
    ensures
        r == official_snapshot(
            match config {
                Some(bytes) => Some(bytes@),
                None => None,
            },
        ),
{
    let config = match config {
        Some(config) => config,
        None => return Some(true),
    };
    match text_from_bytes(config) {
        Ok(text) => match parse_toml(&text) {
            Ok(doc) => Some(document_is_official(&doc)),
            Err(_) => None,
        },
        Err(_) => None,
    }
}

/// A credential that identifies a ChatGPT login: some token of it holds text.
pub open spec fn has_token(auth: JsonView, name: Seq<char>) -> bool {
    field(auth, "tokens"@) matches Some(tokens) && (text_of(field(tokens, name)) matches Some(text)
        && !blank(text))
}

/// Whether a credential file holds anything to authenticate with: a key or a token.
pub open spec fn auth_has_material(auth: JsonView) -> bool {
    (text_of(field(auth, "OPENAI_API_KEY"@)) matches Some(key) && !blank(key)) || has_token(
        auth,
        "access_token"@,
    ) || has_token(auth, "refresh_token"@) || has_token(auth, "id_token"@)
}

fn has_text(value: &Value, name: &str) -> (r: bool)
    ensures
        r == (text_of(field(json_value(*value), name@)) matches Some(text) && !blank(text)),
{
    match get_field(value, name) {
        Some(found) => match found.as_str() {
            Some(text) => !is_blank(text),
            None => false,
        },
        None => false,
    }
}

/// Whether a credential file holds anything to authenticate with.
pub fn auth_value_has_material(auth: &Value) -> (r: bool)
    ensures
        r == auth_has_material(json_value(*auth)),
{
    if has_text(auth, "OPENAI_API_KEY") {
        return true;
    }
    match get_field(auth, "tokens") {
        Some(tokens) => has_text(tokens, "access_token") || has_text(tokens, "refresh_token")
            || has_text(tokens, "id_token"),
        None => false,
    }
}

} // verus!
