//! The transport that a third-party endpoint is used with.
use crate::providers::store::{canonical_provider_base_url, canonical_url};
use crate::text::{same_text, trim, trimmed};
use crate::toml::{
    boolean_entry, boolean_item, get_boolean, get_text, spaced_like, table_entries, text_entry,
    Entries, TomlView,
};
use crate::web::{read_url_origin, url_origin};
use toml_edit::Table;
use vstd::prelude::*;

verus! {

/// Whether an endpoint is the DeepSeek interface itself.
pub open spec fn deepseek_endpoint(base_url: Seq<char>) -> bool {
    url_origin(trimmed(base_url)) matches Some((scheme, Some(host))) && (scheme == "http"@ || scheme
        == "https"@) && host == "api.deepseek.com"@
}

/// Whether an endpoint is the DeepSeek interface itself. A proxy in front of it may support
/// WebSockets on its own, so only the exact host counts.
pub fn is_deepseek_http_endpoint(base_url: &str) -> (r: bool)
    ensures
        r == deepseek_endpoint(base_url@),
{
    match read_url_origin(&trim(base_url)) {
        Some((scheme, Some(host))) => (same_text(&scheme, "http") || same_text(&scheme, "https"))
            && same_text(&host, "api.deepseek.com"),
        _ => false,
    }
}

/// Whether a provider's own setting for WebSockets stays as it is: it is the provider's own, made
/// for the same endpoint, and that endpoint is not known to lack them.
pub open spec fn keeps_websockets(entries: Entries, base_url: Seq<char>, own_template: bool) -> bool {
    &&& own_template
    &&& text_entry(entries, "base_url"@) matches Some(old) && canonical_url(old) == canonical_url(
        base_url,
    )
    &&& !deepseek_endpoint(base_url)
    &&& boolean_entry(entries, "supports_websockets"@) is Some
}

/// A provider's table once its transport is set.
pub open spec fn with_transport(entries: Entries, base_url: Seq<char>, own_template: bool) -> Entries {
    if keeps_websockets(entries, base_url, own_template) {
        entries
    } else {
        entries.insert("supports_websockets"@, TomlView::Boolean(false))
    }
}

/// Sets the transport of a provider's table. Whether WebSockets are supported belongs to the
/// endpoint, not to the configuration that a provider inherits. Call it before the endpoint in
/// the table is replaced.
pub fn configure_third_party_transport(table: &mut Table, base_url: &str, own_template: bool)
    ensures
        table_entries(*final(table)) == with_transport(
            table_entries(*old(table)),
            base_url@,
            own_template,
        ),
        keeps_websockets(table_entries(*old(table)), base_url@, own_template) ==> *final(table)
            == *old(table),
{
    let same_endpoint: bool = match get_text(table, "base_url") {
        Some(old) => same_text(
            &canonical_provider_base_url(&old),
            &canonical_provider_base_url(base_url),
        ),
        None => false,
    };
    let preserve: bool = own_template && same_endpoint && !is_deepseek_http_endpoint(base_url)
        && get_boolean(table, "supports_websockets").is_some();
    if !preserve {
        let mut replacement = boolean_item(false);
        if let Some(old) = table.get("supports_websockets") {
            replacement = spaced_like(replacement, old);
        }
        let _ = table.insert("supports_websockets", replacement);
    }
}

} // verus!
