//! Saved third-party providers: how they are identified, matched, normalized and stored.
use crate::digest::{sha256, sha256_of};
use crate::error::{config, config2, config3, CodexxError, ErrorView};
use crate::providers::model_catalog::{
    mapping_views, normalize_mappings, normalized_mappings, MappingView, ProviderModelMapping,
};
use crate::providers::transport::{configure_third_party_transport, with_transport};
use crate::text::{
    add_utf8, ascii_lower, blank, char_lower, chars_of, collapse, collapsed, copy_opt, decimal,
    decimal_of, has_char, has_prefix, is_alphanumeric, is_ascii_text, is_blank, is_digit, joined,
    keep, kept, lowercased, lowered, opt_view, same_bytes, same_text, text_between, text_views,
    to_lower, to_lowercase, trim, trim_end, trim_end_char, trimmed, trimmed_end, utf8,
    without_trailing,
};
use crate::toml::{
    boolean_entry, document_entries, document_spellings, document_text, entry_keys, get_boolean,
    get_kept_text, get_section, get_text, kept_entry, parse_toml, parsed_toml, print_toml,
    section_entry, set_boolean, set_section, set_text, spelled, table_entries, table_spellings,
    text_entry, Entries, Spellings, TomlView,
};
use crate::web::{read_request_url, request_url_parts, UrlParts, UrlView};
use toml_edit::DocumentMut;
use vstd::prelude::*;

verus! {

broadcast use vstd::seq_lib::group_seq_properties;

/// A saved provider.
#[derive(Debug, PartialEq, Eq)]
pub struct SavedProvider {
    pub id: String,
    pub provider_name: String,
    pub base_url: String,
    pub model: String,
    pub api_key: Option<String>,
    pub toml_config: Option<String>,
    pub wire_api: String,
    pub requires_openai_auth: bool,
    pub model_mappings: Vec<ProviderModelMapping>,
}

/// A saved provider, as contracts speak of it.
pub ghost struct ProviderView {
    pub id: Seq<char>,
    pub provider_name: Seq<char>,
    pub base_url: Seq<char>,
    pub model: Seq<char>,
    pub api_key: Option<Seq<char>>,
    pub toml_config: Option<Seq<char>>,
    pub wire_api: Seq<char>,
    pub requires_openai_auth: bool,
    pub model_mappings: Seq<MappingView>,
}

impl View for SavedProvider {
    type V = ProviderView;

    open spec fn view(&self) -> ProviderView {
        ProviderView {
            id: self.id@,
            provider_name: self.provider_name@,
            base_url: self.base_url@,
            model: self.model@,
            api_key: opt_view(self.api_key),
            toml_config: opt_view(self.toml_config),
            wire_api: self.wire_api@,
            requires_openai_auth: self.requires_openai_auth,
            model_mappings: mapping_views(self.model_mappings@),
        }
    }
}

fn copy_mappings(rows: &Vec<ProviderModelMapping>) -> (r: Vec<ProviderModelMapping>)
    ensures
        mapping_views(r@) == mapping_views(rows@),
{
    let mut out: Vec<ProviderModelMapping> = Vec::new();
    let mut i: usize = 0;
    while i < rows.len()
        invariant
            i <= rows@.len(),
            out@.len() == i,
            forall|j: int| 0 <= j < i ==> (#[trigger] out@[j])@ == rows@[j]@,
        decreases rows@.len() - i,
    {
        out.push(rows[i].clone());
        i = i + 1;
    }
    assert(mapping_views(out@) =~= mapping_views(rows@));
    out
}

impl Clone for SavedProvider {
    fn clone(&self) -> (r: Self)
        ensures
            r@ == self@,
    {
        SavedProvider {
            id: self.id.clone(),
            provider_name: self.provider_name.clone(),
            base_url: self.base_url.clone(),
            model: self.model.clone(),
            api_key: copy_opt(&self.api_key),
            toml_config: copy_opt(&self.toml_config),
            wire_api: self.wire_api.clone(),
            requires_openai_auth: self.requires_openai_auth,
            model_mappings: copy_mappings(&self.model_mappings),
        }
    }
}

/// Providers, as contracts speak of them.
pub open spec fn provider_views(providers: Seq<SavedProvider>) -> Seq<ProviderView> {
    providers.map_values(|provider: SavedProvider| provider@)
}

/// The host of a URL as it stands in a canonical URL.
pub open spec fn canonical_host(host: Seq<char>) -> Seq<char> {
    if host.contains(':') && !(host.len() > 0 && host[0] == '[') {
        seq!['['] + lowered(host) + seq![']']
    } else {
        lowered(host)
    }
}

/// The credentials of a URL as they stand in a canonical URL.
pub open spec fn canonical_user(url: UrlView) -> Seq<char> {
    if url.username.len() == 0 {
        seq![]
    } else {
        match url.password {
            Some(password) => url.username + seq![':'] + password + seq!['@'],
            None => url.username + seq!['@'],
        }
    }
}

/// The canonical text of a URL that was read: scheme and host in lower case, no slash at the end
/// of the path.
pub open spec fn canonical_text(url: UrlView) -> Seq<char> {
    lowered(url.scheme) + "://"@ + canonical_user(url) + canonical_host(url.host) + (match url.port {
        Some(port) => seq![':'] + decimal(port as nat),
        None => seq![],
    }) + without_trailing(url.path, '/') + (match url.query {
        Some(query) => seq!['?'] + query,
        None => seq![],
    })
}

/// The canonical form of an endpoint, given how it reads as a URL.
pub open spec fn canonical_endpoint(trimmed_input: Seq<char>, url: Option<UrlView>) -> Seq<char> {
    match url {
        Some(url) => canonical_text(url),
        None => without_trailing(trimmed_input, '/'),
    }
}

/// The canonical form of an endpoint.
pub open spec fn canonical_url(input: Seq<char>) -> Seq<char> {
    if blank(input) {
        seq![]
    } else {
        canonical_endpoint(trimmed(input), request_url_parts(trimmed(input)))
    }
}

/// The canonical form of an endpoint, given how it reads as a URL.
pub fn canonical_from_parts(trimmed_input: &str, url: &Option<UrlParts>) -> (r: String)
    ensures
        r@ == canonical_endpoint(
            trimmed_input@,
            match *url {
                Some(parts) => Some(parts@),
                None => None,
            },
        ),
{
    let url = match url {
        Some(url) => url,
        None => return trim_end_char(trimmed_input, '/'),
    };
    let mut canonical = to_lower(&url.scheme);
    canonical.append("://");
    let ghost head = canonical@;
    if !url.username.as_str().is_empty() {
        canonical.append(&url.username);
        if let Some(password) = &url.password {
            canonical.push(':');
            canonical.append(password);
        }
        canonical.push('@');
    }
    assert(canonical@ =~= head + canonical_user(url@));
    let ghost head = canonical@;
    let bracketed: bool = match url.host.as_str().chars().next() {
        Some(first) => first == '[',
        None => false,
    };
    if has_char(&url.host, ':') && !bracketed {
        canonical.push('[');
        canonical.append(&to_lower(&url.host));
        canonical.push(']');
    } else {
        canonical.append(&to_lower(&url.host));
    }
    assert(canonical@ =~= head + canonical_host(url.host@));
    let ghost head = canonical@;
    if let Some(port) = url.port {
        canonical.push(':');
        canonical.append(&decimal_of(port as u128));
    }
    let ghost tail = match url.port {
        Some(port) => seq![':'] + decimal(port as nat),
        None => seq![],
    };
    assert(canonical@ =~= head + tail);
    canonical.append(&trim_end_char(&url.path, '/'));
    let ghost head = canonical@;
    if let Some(query) = &url.query {
        canonical.push('?');
        canonical.append(query);
    }
    let ghost tail = match url@.query {
        Some(query) => seq!['?'] + query,
        None => seq![],
    };
    assert(canonical@ =~= head + tail);
    canonical
}

/// The canonical form of an endpoint.
pub fn canonical_provider_base_url(input: &str) -> (r: String)
    ensures
        r@ == canonical_url(input@),
{
    let text = trim(input);
    if text.as_str().is_empty() {
        return String::new();
    }
    canonical_from_parts(&text, &read_request_url(&text))
}

/// A provider's name with single spaces and in lower case.
pub open spec fn normalized_name(input: Seq<char>) -> Seq<char> {
    lowercased(collapsed(input))
}

/// Collapsing a text adds nothing to it but spaces.
pub proof fn lemma_collapsed_ascii(s: Seq<char>)
    ensures
        is_ascii_text(s) ==> is_ascii_text(collapsed(s)),
    decreases s.len(),
{
    if s.len() > 0 && is_ascii_text(s) {
        assert forall|i: int| 0 <= i < s.drop_last().len() implies (
        #[trigger] s.drop_last()[i]) as u32 <= 0x7f by {
            assert(s[i] as u32 <= 0x7f);
        }
        lemma_collapsed_ascii(s.drop_last());
        assert(s[s.len() - 1] as u32 <= 0x7f);
    }
}

/// A provider's name with single spaces and in lower case.
pub fn normalized_provider_name(input: &str) -> (r: String)
    ensures
        r@ == normalized_name(input@),
        is_ascii_text(input@) ==> r@ == lowered(collapsed(input@)),
{
    proof {
        lemma_collapsed_ascii(input@);
    }
    to_lowercase(&collapse(input))
}

/// Whether a provider still has the values of the example.
pub open spec fn placeholder_provider(provider_name: Seq<char>, base_url: Seq<char>) -> bool {
    normalized_name(provider_name) == "your-provider"@ && canonical_url(base_url)
        == "https://example.com/v1"@
}

/// Whether a provider still has the values of the example.
pub fn is_placeholder_provider(provider_name: &str, base_url: &str) -> (r: bool)
    ensures
        r == placeholder_provider(provider_name@, base_url@),
{
    same_text(&normalized_provider_name(provider_name), "your-provider") && same_text(
        &canonical_provider_base_url(base_url),
        "https://example.com/v1",
    )
}

/// The table of a provider in a configuration.
pub open spec fn provider_section(entries: Entries, provider_id: Seq<char>) -> Option<Entries> {
    match section_entry(entries, "model_providers"@) {
        Some(providers) => section_entry(providers, provider_id),
        None => None,
    }
}

/// The bearer token that a configuration carries for a provider: the provider's own before the
/// general one.
pub open spec fn bearer_token(entries: Entries, provider_id: Option<Seq<char>>) -> Option<Seq<char>> {
    let own = match provider_id {
        Some(id) => match provider_section(entries, id) {
            Some(section) => text_entry(section, "experimental_bearer_token"@),
            None => None,
        },
        None => None,
    };
    let found = match own {
        Some(token) => Some(token),
        None => text_entry(entries, "experimental_bearer_token"@),
    };
    match found {
        Some(token) => kept(token),
        None => None,
    }
}

/// The bearer token that a configuration carries for a provider.
pub fn experimental_bearer_token_from_doc(doc: &DocumentMut, provider_id: Option<&str>) -> (r: Option<
    String,
>)
    ensures
        opt_view(r) == bearer_token(
            document_entries(*doc),
            match provider_id {
                Some(id) => Some(id@),
                None => None,
            },
        ),
{
    let mut token: Option<String> = None;
    if let Some(id) = provider_id {
        if let Some(providers) = get_section(doc.as_table(), "model_providers") {
            if let Some(section) = get_section(providers, id) {
                token = get_text(section, "experimental_bearer_token");
            }
        }
    }
    if token.is_none() {
        token = get_text(doc.as_table(), "experimental_bearer_token");
    }
    match token {
        Some(token) => keep(&token),
        None => None,
    }
}

/// A provider's item without its bearer token.
pub open spec fn without_token(item: TomlView) -> TomlView {
    match item {
        TomlView::Section(section) => TomlView::Section(
            section.remove("experimental_bearer_token"@),
        ),
        _ => item,
    }
}

/// A configuration without any bearer token.
pub open spec fn stripped(entries: Entries) -> Entries {
    let rest = entries.remove("experimental_bearer_token"@);
    match section_entry(rest, "model_providers"@) {
        Some(providers) => rest.insert(
            "model_providers"@,
            TomlView::Section(providers.map_values(|item: TomlView| without_token(item))),
        ),
        None => rest,
    }
}

/// The settings of a configuration that follow the provider in use.
pub open spec fn provider_keys() -> Set<Seq<char>> {
    set!["model"@, "model_provider"@, "model_providers"@, "experimental_bearer_token"@]
}

/// How everything but the entries under these keys is written.
pub open spec fn rest(spellings: Spellings, keys: Set<Seq<char>>) -> Spellings {
    spellings.remove_keys(keys)
}

/// How the other settings of a configuration are written: everything that does not follow the
/// provider in use.
pub open spec fn others(spellings: Spellings) -> Spellings {
    rest(spellings, provider_keys())
}

/// A change under one of the keys leaves the rest as it is written.
pub proof fn lemma_rest_stays(
    before: Spellings,
    after: Spellings,
    key: Seq<char>,
    keys: Set<Seq<char>>,
)
    requires
        keys.contains(key),
        before.remove(key) == after.remove(key),
    ensures
        rest(before, keys) == rest(after, keys),
{
    assert(rest(before, keys) =~= rest(before.remove(key), keys));
    assert(rest(after, keys) =~= rest(after.remove(key), keys));
}

/// Takes every bearer token out of a configuration and leaves the rest of it alone.
pub fn strip_provider_bearer_tokens(doc: &mut DocumentMut)
    ensures
        document_entries(*final(doc)) == stripped(document_entries(*old(doc))),
        others(document_spellings(*final(doc))) == others(document_spellings(*old(doc))),
{
    let ghost start = document_spellings(*doc);
    let root = doc.as_table_mut();
    let _ = root.remove("experimental_bearer_token");
    let ghost shorter = table_spellings(*root);
    proof {
        lemma_rest_stays(start, shorter, "experimental_bearer_token"@, provider_keys());
    }
    let ghost rest = table_entries(*root);
    let mut providers = match get_section(root, "model_providers") {
        Some(providers) => providers.clone(),
        None => return,
    };
    let ghost before = table_entries(providers);
    let keys = entry_keys(&providers);
    let mut i: usize = 0;
    while i < keys.len()
        invariant
            i <= keys@.len(),
            forall|key: Seq<char>|
                before.contains_key(key) <==> exists|j: int|
                    0 <= j < keys@.len() && #[trigger] keys@[j]@ == key,
            forall|j: int, k: int|
                0 <= j < k < keys@.len() ==> #[trigger] keys@[j]@ != #[trigger] keys@[k]@,
            table_entries(providers).dom() == before.dom(),
            forall|j: int|
                0 <= j < i ==> table_entries(providers)[#[trigger] keys@[j]@] == without_token(
                    before[keys@[j]@],
                ),
            forall|j: int|
                i <= j < keys@.len() ==> table_entries(providers)[#[trigger] keys@[j]@]
                    == before[keys@[j]@],
        decreases keys@.len() - i,
    {
        let key = &keys[i];
        let ghost current = table_entries(providers);
        assert(before.contains_key(keys@[i as int]@));
        let mut section: Option<toml_edit::Table> = None;
        if let Some(found) = get_section(&providers, key) {
            section = Some(found.clone());
        }
        match section {
            Some(mut table) => {
                let _ = table.remove("experimental_bearer_token");
                set_section(&mut providers, key, table);
                assert(table_entries(providers).dom() =~= before.dom());
            },
            None => {},
        }
        i = i + 1;
    }
    proof {
        let wanted = before.map_values(|item: TomlView| without_token(item));
        assert forall|key: Seq<char>| before.contains_key(key) implies table_entries(providers)[key]
            == wanted[key] by {
            let j = choose|j: int| 0 <= j < keys@.len() && #[trigger] keys@[j]@ == key;
            assert(table_entries(providers)[keys@[j]@] == without_token(before[keys@[j]@]));
        }
        assert(table_entries(providers) =~= wanted);
    }
    set_section(root, "model_providers", providers);
    proof {
        lemma_rest_stays(shorter, table_spellings(*root), "model_providers"@, provider_keys());
    }
}

/// Whether a text is the print of a configuration with these entries, in which the settings that
/// do not follow the provider are written in this way.
pub open spec fn prints_over(text: Seq<char>, entries: Entries, spellings: Spellings) -> bool {
    exists|doc: DocumentMut| #[trigger]
        document_entries(doc) == entries && text == trimmed_end(document_text(doc)) && others(
            document_spellings(doc),
        ) == others(spellings)
}

/// Whether a text is the print of a configuration with these entries.
pub open spec fn prints(text: Seq<char>, entries: Entries) -> bool {
    exists|doc: DocumentMut| #[trigger]
        document_entries(doc) == entries && text == trimmed_end(document_text(doc))
}

/// Prints a configuration, without white space at its end.
pub fn print_template(doc: &DocumentMut) -> (r: String)
    ensures
        r@ == trimmed_end(document_text(*doc)),
        prints(r@, document_entries(*doc)),
{
    let text = trim_end(&print_toml(doc));
    proof {
        let found = *doc;
        assert(document_entries(found) == document_entries(*doc) && text@ == trimmed_end(
            document_text(found),
        ));
    }
    text
}

/// The message that a configuration lacks a provider's table.
pub open spec fn missing_section(provider_id: Seq<char>) -> ErrorView {
    ErrorView::Config("供应商 TOML 缺少 [model_providers."@ + provider_id + "]"@)
}

/// The entries of the template made from a configuration.
pub open spec fn template_entries(entries: Entries, provider_id: Seq<char>, model: Seq<char>) -> Entries {
    stripped(
        entries.insert("model_provider"@, TomlView::Text(provider_id)).insert(
            "model"@,
            TomlView::Text(model),
        ),
    )
}

/// The template of a provider: the whole configuration, switched to that provider and model and
/// without bearer tokens.
pub fn provider_template_from_document(doc: &DocumentMut, provider_id: &str, model: &str) -> (r: Result<
    String,
    CodexxError,
>)
    ensures
        if provider_section(document_entries(*doc), provider_id@) is Some {
            r matches Ok(text) && prints_over(
                text@,
                template_entries(document_entries(*doc), provider_id@, model@),
                document_spellings(*doc),
            )
        } else {
            r matches Err(error) && error@ == missing_section(provider_id@)
        },
{
    let exists: bool = match get_section(doc.as_table(), "model_providers") {
        Some(providers) => get_section(providers, provider_id).is_some(),
        None => false,
    };
    if !exists {
        return Err(config3("供应商 TOML 缺少 [model_providers.", provider_id, "]"));
    }
    let mut template = doc.clone();
    set_text(template.as_table_mut(), "model_provider", provider_id);
    let ghost switched = document_spellings(template);
    set_text(template.as_table_mut(), "model", model);
    proof {
        lemma_rest_stays(document_spellings(*doc), switched, "model_provider"@, provider_keys());
        lemma_rest_stays(switched, document_spellings(template), "model"@, provider_keys());
    }
    strip_provider_bearer_tokens(&mut template);
    Ok(print_template(&template))
}

/// The key that a provider is used with: its own, or the token in its template.
pub open spec fn effective_key(provider: ProviderView) -> Option<Seq<char>> {
    let own = match provider.api_key {
        Some(key) => kept(key),
        None => None,
    };
    match own {
        Some(key) => Some(key),
        None => match provider.toml_config {
            Some(text) => match parsed_toml(text) {
                Ok(entries) => bearer_token(entries, kept_entry(entries, "model_provider"@)),
                Err(_) => None,
            },
            None => None,
        },
    }
}

/// The key that a provider is used with.
pub fn effective_provider_api_key(provider: &SavedProvider) -> (r: Option<String>)
    ensures
        opt_view(r) == effective_key(provider@),
{
    if let Some(key) = &provider.api_key {
        let own = keep(key);
        if own.is_some() {
            return own;
        }
    }
    match &provider.toml_config {
        Some(text) => match parse_toml(text) {
            Ok(doc) => {
                let id = get_kept_text(doc.as_table(), "model_provider");
                match &id {
                    Some(id) => experimental_bearer_token_from_doc(&doc, Some(id.as_str())),
                    None => experimental_bearer_token_from_doc(&doc, None),
                }
            },
            Err(_) => None,
        },
        None => None,
    }
}

/// What a provider is told apart by.
#[derive(Debug, PartialEq, Eq)]
pub enum ProviderIdentity {
    /// A digest of its endpoint and key together.
    Credential(Vec<u8>),
    /// Its endpoint and name, where it has no key.
    Unauthenticated { base_url: String, name: String },
}

/// What a provider is told apart by, as contracts speak of it.
pub ghost enum IdentityView {
    Credential(Seq<u8>),
    Unauthenticated { base_url: Seq<char>, name: Seq<char> },
}

impl View for ProviderIdentity {
    type V = IdentityView;

    open spec fn view(&self) -> IdentityView {
        match self {
            ProviderIdentity::Credential(digest) => IdentityView::Credential(digest@),
            ProviderIdentity::Unauthenticated { base_url, name } => IdentityView::Unauthenticated {
                base_url: base_url@,
                name: name@,
            },
        }
    }
}

/// The bytes that identify an endpoint together with a key.
pub open spec fn credential_bytes(base_url: Seq<char>, key: Seq<char>) -> Seq<u8> {
    utf8("codex-x/provider-identity/v1\0"@) + utf8(base_url) + utf8("\0"@) + utf8(key)
}

/// What a provider is told apart by, if it has an endpoint and either a key or a name.
pub open spec fn identity(provider: ProviderView) -> Option<IdentityView> {
    let base_url = canonical_url(provider.base_url);
    if base_url.len() == 0 {
        None
    } else {
        match effective_key(provider) {
            Some(key) => Some(IdentityView::Credential(sha256(credential_bytes(base_url, key)))),
            None => {
                let name = normalized_name(provider.provider_name);
                if name.len() == 0 {
                    None
                } else {
                    Some(IdentityView::Unauthenticated { base_url, name })
                }
            },
        }
    }
}

/// What a provider is told apart by. A key only ever goes into a digest together with its
/// endpoint, so that no fingerprint of the key alone exists.
pub fn provider_identity(provider: &SavedProvider) -> (r: Option<ProviderIdentity>)
    ensures
        match identity(provider@) {
            Some(view) => r matches Some(found) && found@ == view,
            None => r is None,
        },
{
    let base_url = canonical_provider_base_url(&provider.base_url);
    if base_url.as_str().is_empty() {
        return None;
    }
    if let Some(key) = effective_provider_api_key(provider) {
        let mut bytes: Vec<u8> = Vec::new();
        add_utf8(&mut bytes, "codex-x/provider-identity/v1\0");
        add_utf8(&mut bytes, &base_url);
        add_utf8(&mut bytes, "\0");
        add_utf8(&mut bytes, &key);
        assert(bytes@ =~= credential_bytes(base_url@, key@));
        return Some(ProviderIdentity::Credential(sha256_of(&bytes)));
    }
    let name = normalized_provider_name(&provider.provider_name);
    if name.as_str().is_empty() {
        None
    } else {
        Some(ProviderIdentity::Unauthenticated { base_url, name })
    }
}

/// What a provider's profile is told apart by: the provider and its model.
#[derive(Debug, PartialEq, Eq)]
pub struct ProviderProfileIdentity {
    pub provider: ProviderIdentity,
    pub model: String,
}

/// What a provider's profile is told apart by, as contracts speak of it.
pub open spec fn profile_identity(provider: ProviderView) -> Option<(IdentityView, Seq<char>)> {
    match identity(provider) {
        Some(found) => Some((found, trimmed(provider.model))),
        None => None,
    }
}

/// What a provider's profile is told apart by.
pub fn provider_profile_identity(provider: &SavedProvider) -> (r: Option<ProviderProfileIdentity>)
    ensures
        match profile_identity(provider@) {
            Some((found, model)) => r matches Some(profile) && profile.provider@ == found
                && profile.model@ == model,
            None => r is None,
        },
{
    match provider_identity(provider) {
        Some(provider_found) => Some(
            ProviderProfileIdentity { provider: provider_found, model: trim(&provider.model) },
        ),
        None => None,
    }
}

fn same_profile(left: &ProviderProfileIdentity, right: &ProviderProfileIdentity) -> (r: bool)
    ensures
        r == (left.provider@ == right.provider@ && left.model@ == right.model@),
{
    let same: bool = match (&left.provider, &right.provider) {
        (ProviderIdentity::Credential(a), ProviderIdentity::Credential(b)) => same_bytes(
            a.as_slice(),
            b.as_slice(),
        ),
        (
            ProviderIdentity::Unauthenticated { base_url: a, name: n },
            ProviderIdentity::Unauthenticated { base_url: b, name: m },
        ) => same_text(a, b) && same_text(n, m),
        _ => false,
    };
    same && same_text(&left.model, &right.model)
}

/// Whether two providers have the same endpoint.
pub open spec fn same_endpoint(left: ProviderView, right: ProviderView) -> bool {
    canonical_url(left.base_url).len() > 0 && canonical_url(left.base_url) == canonical_url(
        right.base_url,
    )
}

/// Whether two providers have the same endpoint.
pub fn same_provider_endpoint(left: &SavedProvider, right: &SavedProvider) -> (r: bool)
    ensures
        r == same_endpoint(left@, right@),
{
    let base_url = canonical_provider_base_url(&left.base_url);
    !base_url.as_str().is_empty() && same_text(
        &base_url,
        &canonical_provider_base_url(&right.base_url),
    )
}

/// Whether two providers have the same endpoint and name.
pub open spec fn same_endpoint_and_name(left: ProviderView, right: ProviderView) -> bool {
    same_endpoint(left, right) && normalized_name(left.provider_name) == normalized_name(
        right.provider_name,
    )
}

/// Whether two providers have the same endpoint and name.
pub fn same_provider_endpoint_and_name(left: &SavedProvider, right: &SavedProvider) -> (r: bool)
    ensures
        r == same_endpoint_and_name(left@, right@),
{
    same_provider_endpoint(left, right) && same_text(
        &normalized_provider_name(&left.provider_name),
        &normalized_provider_name(&right.provider_name),
    )
}

/// Whether two providers have the same endpoint, name and model.
pub open spec fn same_fallback(left: ProviderView, right: ProviderView) -> bool {
    same_endpoint_and_name(left, right) && trimmed(left.model) == trimmed(right.model)
}

/// Whether two providers have the same endpoint, name and model.
pub fn same_provider_profile_fallback(left: &SavedProvider, right: &SavedProvider) -> (r: bool)
    ensures
        r == same_fallback(left@, right@),
{
    same_provider_endpoint_and_name(left, right) && same_text(
        &trim(&left.model),
        &trim(&right.model),
    )
}

/// Whether two providers have the same endpoint, name and model, and no two different keys.
pub open spec fn compatible(left: ProviderView, right: ProviderView) -> bool {
    same_fallback(left, right) && match (effective_key(left), effective_key(right)) {
        (Some(a), Some(b)) => a == b,
        _ => true,
    }
}

/// Whether two providers have the same endpoint, name and model, and no two different keys.
pub fn compatible_provider_match(left: &SavedProvider, right: &SavedProvider) -> (r: bool)
    ensures
        r == compatible(left@, right@),
{
    if !same_provider_profile_fallback(left, right) {
        return false;
    }
    match (effective_provider_api_key(left), effective_provider_api_key(right)) {
        (Some(a), Some(b)) => same_text(&a, &b),
        _ => true,
    }
}

/// An identifier of the kind that earlier releases gave to custom providers: `custom`, or that
/// with a number.
pub open spec fn historical_custom_id(id: Seq<char>) -> bool {
    let name = trimmed(id);
    name == "custom"@ || ("custom-"@.is_prefix_of(name) && name.len() > "custom-"@.len() && forall|
        i: int,
    |
        "custom-"@.len() <= i < name.len() ==> is_digit(#[trigger] name[i]))
}

/// Whether an identifier is of the kind that earlier releases gave to custom providers.
pub fn is_historical_custom_provider_id(id: &str) -> (r: bool)
    ensures
        r == historical_custom_id(id@),
{
    let name = trim(id);
    if same_text(&name, "custom") {
        return true;
    }
    proof {
        reveal_strlit("custom-");
    }
    if !has_prefix(&name, "custom-") {
        return false;
    }
    let chars = chars_of(&name);
    if chars.len() <= 7 {
        return false;
    }
    let mut i: usize = 7;
    while i < chars.len()
        invariant
            7 <= i <= chars@.len(),
            chars@ == name@,
            name@ == trimmed(id@),
            name@ != "custom"@,
            "custom-"@.len() == 7,
            forall|j: int| 7 <= j < i ==> is_digit(#[trigger] name@[j]),
        decreases chars@.len() - i,
    {
        let n: u32 = chars[i] as u32;
        if n < 48 || n > 57 {
            assert(!is_digit(name@[i as int]));
            return false;
        }
        i = i + 1;
    }
    true
}

/// The identifiers of the providers for which a test holds, in order.
pub open spec fn ids_where(providers: Seq<ProviderView>, keep: spec_fn(ProviderView) -> bool) -> Seq<
    Seq<char>,
>
    decreases providers.len(),
{
    if providers.len() == 0 {
        seq![]
    } else {
        let head = ids_where(providers.drop_last(), keep);
        if keep(providers.last()) {
            head.push(providers.last().id)
        } else {
            head
        }
    }
}

/// The providers that match a live one by endpoint, key and model; if there are none, by
/// endpoint, name and model with no two different keys; if there are none of these either and the
/// live identifier is a historical one, by endpoint, name and model alone.
pub open spec fn matching_ids(live: ProviderView, providers: Seq<ProviderView>) -> Seq<Seq<char>> {
    let exact = match profile_identity(live) {
        Some(found) => ids_where(
            providers,
            |candidate: ProviderView| profile_identity(candidate) == Some(found),
        ),
        None => seq![],
    };
    let near = ids_where(providers, |candidate: ProviderView| compatible(live, candidate));
    if exact.len() > 0 {
        exact
    } else if near.len() > 0 {
        near
    } else if historical_custom_id(live.id) {
        ids_where(providers, |candidate: ProviderView| same_fallback(live, candidate))
    } else {
        seq![]
    }
}

/// The saved providers that a live one may be.
pub fn matching_saved_provider_ids_for_live(live: &SavedProvider, providers: &[SavedProvider]) -> (r:
    Vec<String>)
    ensures
        text_views(r@) == matching_ids(live@, provider_views(providers@)),
{
    let ghost all = provider_views(providers@);
    let mut exact: Vec<String> = Vec::new();
    let mut near: Vec<String> = Vec::new();
    let mut fallback: Vec<String> = Vec::new();
    let wanted = provider_profile_identity(live);
    let historical = is_historical_custom_provider_id(&live.id);
    let ghost is_exact = |candidate: ProviderView|
        profile_identity(live@) is Some && profile_identity(candidate) == profile_identity(live@);
    let ghost is_near = |candidate: ProviderView| compatible(live@, candidate);
    let ghost is_fallback = |candidate: ProviderView| same_fallback(live@, candidate);
    let mut i: usize = 0;
    assert(text_views(exact@) =~= seq![]);
    assert(text_views(near@) =~= seq![]);
    assert(text_views(fallback@) =~= seq![]);
    while i < providers.len()
        invariant
            i <= providers@.len(),
            all == provider_views(providers@),
            match profile_identity(live@) {
                Some((found, model)) => wanted matches Some(profile) && profile.provider@ == found
                    && profile.model@ == model,
                None => wanted is None,
            },
            is_exact == (|candidate: ProviderView|
                profile_identity(live@) is Some && profile_identity(candidate) == profile_identity(
                    live@,
                )),
            is_near == (|candidate: ProviderView| compatible(live@, candidate)),
            is_fallback == (|candidate: ProviderView| same_fallback(live@, candidate)),
            text_views(exact@) == ids_where(all.take(i as int), is_exact),
            text_views(near@) == ids_where(all.take(i as int), is_near),
            text_views(fallback@) == ids_where(all.take(i as int), is_fallback),
        decreases providers@.len() - i,
    {
        let candidate = &providers[i];
        let ghost prefix = all.take(i + 1);
        assert(prefix.drop_last() =~= all.take(i as int));
        assert(prefix.last() == candidate@);
        let same: bool = match (&wanted, &provider_profile_identity(candidate)) {
            (Some(a), Some(b)) => same_profile(a, b),
            _ => false,
        };
        if same {
            let ghost before = exact@;
            exact.push(candidate.id.clone());
            assert(text_views(exact@) =~= text_views(before).push(candidate@.id));
        }
        if compatible_provider_match(live, candidate) {
            let ghost before = near@;
            near.push(candidate.id.clone());
            assert(text_views(near@) =~= text_views(before).push(candidate@.id));
        }
        if same_provider_profile_fallback(live, candidate) {
            let ghost before = fallback@;
            fallback.push(candidate.id.clone());
            assert(text_views(fallback@) =~= text_views(before).push(candidate@.id));
        }
        i = i + 1;
    }
    assert(all.take(all.len() as int) =~= all);
    proof {
        if let Some(found) = profile_identity(live@) {
            lemma_ids_where_same(
                all,
                is_exact,
                |candidate: ProviderView| profile_identity(candidate) == Some(found),
            );
        } else {
            lemma_ids_where_none(all, is_exact);
        }
    }
    if exact.len() > 0 {
        return exact;
    }
    if near.len() > 0 {
        return near;
    }
    if historical {
        fallback
    } else {
        let none: Vec<String> = Vec::new();
        assert(text_views(none@) =~= seq![]);
        none
    }
}

proof fn lemma_ids_where_same(
    providers: Seq<ProviderView>,
    left: spec_fn(ProviderView) -> bool,
    right: spec_fn(ProviderView) -> bool,
)
    requires
        forall|provider: ProviderView| #[trigger] left(provider) == right(provider),
    ensures
        ids_where(providers, left) == ids_where(providers, right),
    decreases providers.len(),
{
    if providers.len() > 0 {
        lemma_ids_where_same(providers.drop_last(), left, right);
        assert(left(providers.last()) == right(providers.last()));
    }
}

proof fn lemma_ids_where_none(providers: Seq<ProviderView>, keep: spec_fn(ProviderView) -> bool)
    requires
        forall|provider: ProviderView| !#[trigger] keep(provider),
    ensures
        ids_where(providers, keep).len() == 0,
    decreases providers.len(),
{
    if providers.len() > 0 {
        lemma_ids_where_none(providers.drop_last(), keep);
        assert(!keep(providers.last()));
    }
}

/// Whether a live provider uses the same route as a saved one: the same endpoint and, where both
/// have a key, the same key; where one has none, the same name.
pub open spec fn same_route(live: ProviderView, saved: ProviderView) -> bool {
    same_endpoint(live, saved) && match (effective_key(live), effective_key(saved)) {
        (Some(a), Some(b)) => a == b,
        _ => normalized_name(live.provider_name) == normalized_name(saved.provider_name),
    }
}

/// Whether a live provider uses the same route as a saved one.
pub fn same_live_provider_route(live: &SavedProvider, saved: &SavedProvider) -> (r: bool)
    ensures
        r == same_route(live@, saved@),
{
    if !same_provider_endpoint(live, saved) {
        return false;
    }
    match (effective_provider_api_key(live), effective_provider_api_key(saved)) {
        (Some(a), Some(b)) => same_text(&a, &b),
        _ => same_text(
            &normalized_provider_name(&live.provider_name),
            &normalized_provider_name(&saved.provider_name),
        ),
    }
}

/// Whether a provider of this identifier is saved and uses the route of the live one.
pub open spec fn routed(live: ProviderView, providers: Seq<ProviderView>, id: Seq<char>) -> bool {
    exists|i: int|
        0 <= i < providers.len() && (#[trigger] providers[i]).id == id && same_route(
            live,
            providers[i],
        )
}

fn is_routed(live: &SavedProvider, providers: &[SavedProvider], id: &str) -> (r: bool)
    ensures
        r == routed(live@, provider_views(providers@), id@),
{
    let mut i: usize = 0;
    while i < providers.len()
        invariant
            i <= providers@.len(),
            forall|j: int|
                0 <= j < i ==> !((#[trigger] provider_views(providers@)[j]).id == id@ && same_route(
                    live@,
                    provider_views(providers@)[j],
                )),
        decreases providers@.len() - i,
    {
        if same_text(&providers[i].id, id) && same_live_provider_route(live, &providers[i]) {
            assert(provider_views(providers@)[i as int].id == id@);
            return true;
        }
        i = i + 1;
    }
    false
}

/// The identifiers for which a test holds, in order.
pub open spec fn texts_where(texts: Seq<Seq<char>>, keep: spec_fn(Seq<char>) -> bool) -> Seq<Seq<char>>
    decreases texts.len(),
{
    if texts.len() == 0 {
        seq![]
    } else {
        let head = texts_where(texts.drop_last(), keep);
        if keep(texts.last()) {
            head.push(texts.last())
        } else {
            head
        }
    }
}

/// The saved providers that a live one is: the remembered one while its route still fits;
/// otherwise those that match its profile and route; otherwise all that share its route.
pub open spec fn live_ids(
    selected: Option<Seq<char>>,
    live: ProviderView,
    providers: Seq<ProviderView>,
) -> Seq<Seq<char>> {
    let fitting = texts_where(
        matching_ids(live, providers),
        |id: Seq<char>| routed(live, providers, id),
    );
    if selected matches Some(id) && routed(live, providers, id) {
        seq![selected->Some_0]
    } else if fitting.len() > 0 {
        fitting
    } else {
        ids_where(providers, |provider: ProviderView| same_route(live, provider))
    }
}

/// The saved providers that a live one is, given the one that is remembered as selected. A record
/// keeps its identity when the model or the shown name changes. Several candidates are all given
/// back, so that callers leave an ambiguous record alone.
pub fn matching_saved_provider_ids(
    selected: &Option<String>,
    live: &SavedProvider,
    providers: &[SavedProvider],
) -> (r: Vec<String>)
    ensures
        text_views(r@) == live_ids(opt_view(*selected), live@, provider_views(providers@)),
{
    let ghost all = provider_views(providers@);
    if let Some(id) = selected {
        if is_routed(live, providers, id) {
            let one = vec![id.clone()];
            assert(text_views(one@) =~= seq![id@]);
            return one;
        }
    }
    let candidates = matching_saved_provider_ids_for_live(live, providers);
    let ghost texts = text_views(candidates@);
    let ghost fits = |id: Seq<char>| routed(live@, all, id);
    let mut fitting: Vec<String> = Vec::new();
    let mut i: usize = 0;
    assert(text_views(fitting@) =~= seq![]);
    while i < candidates.len()
        invariant
            i <= candidates@.len(),
            all == provider_views(providers@),
            texts == text_views(candidates@),
            fits == (|id: Seq<char>| routed(live@, all, id)),
            text_views(fitting@) == texts_where(texts.take(i as int), fits),
        decreases candidates@.len() - i,
    {
        assert(texts.take(i + 1).drop_last() =~= texts.take(i as int));
        if is_routed(live, providers, &candidates[i]) {
            let ghost before = fitting@;
            fitting.push(candidates[i].clone());
            assert(text_views(fitting@) =~= text_views(before).push(texts[i as int]));
        }
        i = i + 1;
    }
    assert(texts.take(texts.len() as int) =~= texts);
    if fitting.len() > 0 {
        return fitting;
    }
    let ghost shares = |provider: ProviderView| same_route(live@, provider);
    let mut sharing: Vec<String> = Vec::new();
    let mut i: usize = 0;
    assert(text_views(sharing@) =~= seq![]);
    while i < providers.len()
        invariant
            i <= providers@.len(),
            all == provider_views(providers@),
            shares == (|provider: ProviderView| same_route(live@, provider)),
            text_views(sharing@) == ids_where(all.take(i as int), shares),
        decreases providers@.len() - i,
    {
        assert(all.take(i + 1).drop_last() =~= all.take(i as int));
        if same_live_provider_route(live, &providers[i]) {
            let ghost before = sharing@;
            sharing.push(providers[i].id.clone());
            assert(text_views(sharing@) =~= text_views(before).push(all[i as int].id));
        }
        i = i + 1;
    }
    assert(all.take(all.len() as int) =~= all);
    sharing
}

/// The saved provider that a live one is, if there is exactly one.
pub fn unique_saved_provider_id_for_live(live: &SavedProvider, providers: &[SavedProvider]) -> (r:
    Option<String>)
    ensures
        opt_view(r) == {
            let ids = matching_ids(live@, provider_views(providers@));
            if ids.len() == 1 {
                Some(ids[0])
            } else {
                None
            }
        },
{
    let matches = matching_saved_provider_ids_for_live(live, providers);
    if matches.len() == 1 {
        Some(matches[0].clone())
    } else {
        None
    }
}

/// An identifier that Codex gives a meaning of its own.
pub open spec fn reserved_id(id: Seq<char>) -> bool {
    let name = lowered(trimmed(id));
    name == "openai"@ || name == "custom"@ || name == "amazon-bedrock"@ || name == "ollama"@ || name
        == "lmstudio"@ || name == "oss"@
}

/// Whether Codex gives an identifier a meaning of its own.
pub fn reserved_codex_provider_id(id: &str) -> (r: bool)
    ensures
        r == reserved_id(id@),
{
    let name = to_lower(&trim(id));
    same_text(&name, "openai") || same_text(&name, "custom") || same_text(&name, "amazon-bedrock")
        || same_text(&name, "ollama") || same_text(&name, "lmstudio") || same_text(&name, "oss")
}

/// A character as it stands in an identifier.
pub open spec fn id_char(c: char) -> char {
    if is_alphanumeric(c) || c == '-' || c == '_' {
        ascii_lower(c)
    } else {
        '-'
    }
}

/// `s` without the characters `c` at its start.
pub open spec fn without_leading(s: Seq<char>, c: char) -> Seq<char>
    decreases s.len(),
{
    if s.len() > 0 && s[0] == c {
        without_leading(s.subrange(1, s.len() as int), c)
    } else {
        s
    }
}

/// A text as an identifier: ASCII letters in lower case, digits, `-` and `_`; anything else
/// becomes `-`, and none stands at either end.
pub open spec fn sanitized_id(input: Seq<char>) -> Seq<char> {
    let id = without_trailing(
        without_leading(Seq::new(input.len(), |i: int| id_char(input[i])), '-'),
        '-',
    );
    if id.len() == 0 {
        "provider"@
    } else {
        id
    }
}

/// A text as an identifier.
pub fn sanitize_id(input: &str) -> (r: String)
    ensures
        r@ == sanitized_id(input@),
{
    let chars = chars_of(input);
    let ghost mapped = Seq::new(input@.len(), |i: int| id_char(input@[i]));
    let mut out: Vec<char> = Vec::new();
    let mut i: usize = 0;
    while i < chars.len()
        invariant
            i <= chars@.len(),
            chars@ == input@,
            mapped == Seq::new(input@.len(), |i: int| id_char(input@[i])),
            out@ == mapped.take(i as int),
        decreases chars@.len() - i,
    {
        let c = chars[i];
        let n: u32 = c as u32;
        let kept: bool = (48 <= n && n <= 57) || (65 <= n && n <= 90) || (97 <= n && n <= 122) || c
            == '-' || c == '_';
        if kept {
            out.push(char_lower(c));
        } else {
            out.push('-');
        }
        assert(out@ =~= mapped.take(i + 1));
        i = i + 1;
    }
    assert(mapped.take(mapped.len() as int) =~= mapped);
    let mut from: usize = 0;
    assert(mapped.subrange(0, mapped.len() as int) =~= mapped);
    while from < out.len() && out[from] == '-'
        invariant
            from <= out@.len(),
            out@ == mapped,
            without_leading(mapped, '-') == without_leading(
                mapped.subrange(from as int, mapped.len() as int),
                '-',
            ),
        ensures
            from <= out@.len(),
            without_leading(mapped, '-') == mapped.subrange(from as int, mapped.len() as int),
        decreases out@.len() - from,
    {
        assert(mapped.subrange(from as int, mapped.len() as int).subrange(1, mapped.len() - from)
            =~= mapped.subrange(from + 1, mapped.len() as int));
        from = from + 1;
    }
    let id = trim_end_char(&text_between(&out, from, out.len()), '-');
    if id.as_str().is_empty() {
        "provider".to_owned()
    } else {
        id
    }
}

/// The identifier of a new custom provider.
pub open spec fn custom_id(input: Seq<char>) -> Seq<char> {
    let id = sanitized_id(input);
    if reserved_id(id) {
        id + "-custom"@
    } else {
        id
    }
}

/// The identifier of a new custom provider: never one that Codex reserves.
pub fn custom_provider_id(input: &str) -> (r: String)
    ensures
        r@ == custom_id(input@),
{
    let id = sanitize_id(input);
    if reserved_codex_provider_id(&id) {
        joined(&id, "-custom")
    } else {
        id
    }
}

/// A configuration with a provider's table replaced.
pub open spec fn with_provider_section(entries: Entries, provider_id: Seq<char>, section: Entries) -> Entries {
    match section_entry(entries, "model_providers"@) {
        Some(providers) => entries.insert(
            "model_providers"@,
            TomlView::Section(providers.insert(provider_id, TomlView::Section(section))),
        ),
        None => entries,
    }
}

/// `new` where it is there, otherwise `old`.
pub open spec fn or_old(new: Option<Seq<char>>, old: Seq<char>) -> Seq<char> {
    match new {
        Some(text) => text,
        None => old,
    }
}

/// A provider with the fields that its template states.
pub open spec fn with_template_fields(
    provider: ProviderView,
    entries: Entries,
    provider_id: Seq<char>,
    section: Entries,
) -> ProviderView {
    ProviderView {
        model: or_old(kept_entry(entries, "model"@), provider.model),
        provider_name: or_old(kept_entry(section, "name"@), provider.provider_name),
        base_url: match kept_entry(section, "base_url"@) {
            Some(base_url) => canonical_url(base_url),
            None => provider.base_url,
        },
        wire_api: or_old(kept_entry(section, "wire_api"@), provider.wire_api),
        requires_openai_auth: match boolean_entry(section, "requires_openai_auth"@) {
            Some(value) => value,
            None => provider.requires_openai_auth,
        },
        api_key: match provider.api_key {
            Some(key) => Some(key),
            None => bearer_token(entries, Some(provider_id)),
        },
        ..provider
    }
}

/// The template of a provider: the configuration, the identifier it selects and that provider's
/// table.
pub open spec fn template_of(text: Seq<char>) -> Result<(Entries, Seq<char>, Entries), ErrorView> {
    match parsed_toml(text) {
        Err(message) => Err(ErrorView::Config("供应商 TOML 无效: "@ + message)),
        Ok(entries) => match kept_entry(entries, "model_provider"@) {
            None => Err(ErrorView::Config("供应商 TOML 缺少 model_provider"@)),
            Some(id) => match provider_section(entries, id) {
                None => Err(missing_section(id)),
                Some(section) => Ok((entries, id, section)),
            },
        },
    }
}

/// What a provider becomes by its own template: the provider and the entries of its new
/// template, nothing where it has no template, or an error.
pub open spec fn authority(provider: ProviderView) -> Result<
    Option<(ProviderView, Entries)>,
    ErrorView,
> {
    match provider.toml_config {
        None => Ok(None),
        Some(text) => match template_of(text) {
            Err(error) => Err(error),
            Ok((entries, id, section)) => Ok(
                Some((with_template_fields(provider, entries, id, section), stripped(entries))),
            ),
        },
    }
}

/// Whether `after` is `view` with a template of these entries; the same where there is none. The
/// settings of the template that do not follow the provider stay as they were written.
pub open spec fn rewritten(view: ProviderView, template: Option<Entries>, after: ProviderView) -> bool {
    match template {
        None => after == view,
        Some(entries) => after == (ProviderView { toml_config: after.toml_config, ..view })
            && (after.toml_config matches Some(text) && view.toml_config matches Some(source)
            && prints_over(text, entries, spelled(source))),
    }
}

/// Whether `after` is what a provider becomes when it is read: it follows its template, unless
/// that is unusable.
pub open spec fn hydrates(before: ProviderView, after: ProviderView) -> bool {
    match authority(before) {
        Ok(Some((view, entries))) => rewritten(view, Some(entries), after),
        _ => after == before,
    }
}

/// Lets the template of a provider decide its fields; nothing changes where that fails.
pub fn apply_provider_toml_authority(provider: &mut SavedProvider) -> (r: Result<(), CodexxError>)
    ensures
        hydrates(old(provider)@, final(provider)@),
        match authority(old(provider)@) {
            Ok(_) => r is Ok,
            Err(error) => r matches Err(found) && found@ == error,
        },
{
    let text = match &provider.toml_config {
        Some(text) => text.clone(),
        None => return Ok(()),
    };
    let mut doc = match parse_toml(&text) {
        Ok(doc) => doc,
        Err(message) => return Err(config2("供应商 TOML 无效: ", &message)),
    };
    let provider_id = match get_kept_text(doc.as_table(), "model_provider") {
        Some(id) => id,
        None => return Err(config("供应商 TOML 缺少 model_provider")),
    };
    let section = match get_section(doc.as_table(), "model_providers") {
        Some(providers) => match get_section(providers, &provider_id) {
            Some(section) => section,
            None => return Err(
                config3("供应商 TOML 缺少 [model_providers.", &provider_id, "]"),
            ),
        },
        None => return Err(config3("供应商 TOML 缺少 [model_providers.", &provider_id, "]")),
    };
    let model = get_kept_text(doc.as_table(), "model");
    let provider_name = get_kept_text(section, "name");
    let base_url = get_kept_text(section, "base_url");
    let wire_api = get_kept_text(section, "wire_api");
    let requires_openai_auth = get_boolean(section, "requires_openai_auth");
    let token = experimental_bearer_token_from_doc(&doc, Some(provider_id.as_str()));
    if let Some(model) = model {
        provider.model = model;
    }
    if let Some(provider_name) = provider_name {
        provider.provider_name = provider_name;
    }
    if let Some(base_url) = base_url {
        provider.base_url = canonical_provider_base_url(&base_url);
    }
    if let Some(wire_api) = wire_api {
        provider.wire_api = wire_api;
    }
    if let Some(needed) = requires_openai_auth {
        provider.requires_openai_auth = needed;
    }
    if provider.api_key.is_none() {
        provider.api_key = token;
    }
    strip_provider_bearer_tokens(&mut doc);
    provider.toml_config = Some(print_template(&doc));
    Ok(())
}

/// Repairs a stored provider from its template. A template that cannot be used leaves it alone,
/// so that one bad record does not keep the others from being read.
pub fn normalize_stored_provider_from_toml(provider: &mut SavedProvider)
    ensures
        hydrates(old(provider)@, final(provider)@),
{
    let _ = apply_provider_toml_authority(provider);
}

/// The table of a provider with the standard fields of the provider written into it.
pub open spec fn synced_section(provider: ProviderView, section: Entries) -> Entries {
    with_transport(
        section.insert("name"@, TomlView::Text(provider.provider_name)),
        provider.base_url,
        true,
    ).insert("base_url"@, TomlView::Text(provider.base_url)).insert(
        "wire_api"@,
        TomlView::Text(provider.wire_api),
    ).insert("requires_openai_auth"@, TomlView::Boolean(provider.requires_openai_auth))
}

/// What a provider becomes when its template is made to follow its fields.
pub open spec fn synced(provider: ProviderView) -> Result<(ProviderView, Option<Entries>), ErrorView> {
    match provider.toml_config {
        None => Ok((provider, None)),
        Some(text) => match parsed_toml(text) {
            Err(message) => Err(ErrorView::Config("供应商 TOML 无效: "@ + message)),
            Ok(entries) => match kept_entry(entries, "model_provider"@) {
                None => Err(ErrorView::Config("供应商 TOML 缺少 model_provider"@)),
                Some(id) => {
                    let key = match provider.api_key {
                        Some(key) => Some(key),
                        None => bearer_token(entries, Some(id)),
                    };
                    let base = stripped(entries).insert("model"@, TomlView::Text(provider.model));
                    match provider_section(base, id) {
                        None => Err(missing_section(id)),
                        Some(section) => Ok(
                            (
                                ProviderView { api_key: key, ..provider },
                                Some(
                                    template_entries(
                                        with_provider_section(
                                            base,
                                            id,
                                            synced_section(provider, section),
                                        ),
                                        id,
                                        provider.model,
                                    ),
                                ),
                            ),
                        ),
                    }
                },
            },
        },
    }
}

/// Makes the template of a provider follow its fields. Whatever else the template holds stays.
pub fn sync_provider_toml_from_fields(provider: SavedProvider) -> (r: Result<
    SavedProvider,
    CodexxError,
>)
    ensures
        match synced(provider@) {
            Ok((view, template)) => r matches Ok(found) && rewritten(view, template, found@),
            Err(error) => r matches Err(found) && found@ == error,
        },
{
    let mut provider = provider;
    let text = match &provider.toml_config {
        Some(text) => text.clone(),
        None => return Ok(provider),
    };
    let ghost start = provider@;
    let mut doc = match parse_toml(&text) {
        Ok(doc) => doc,
        Err(message) => return Err(config2("供应商 TOML 无效: ", &message)),
    };
    let provider_id = match get_kept_text(doc.as_table(), "model_provider") {
        Some(id) => id,
        None => return Err(config("供应商 TOML 缺少 model_provider")),
    };
    let ghost entries = document_entries(doc);
    if provider.api_key.is_none() {
        provider.api_key = experimental_bearer_token_from_doc(&doc, Some(provider_id.as_str()));
    }
    strip_provider_bearer_tokens(&mut doc);
    let ghost bare = document_spellings(doc);
    set_text(doc.as_table_mut(), "model", &provider.model);
    let ghost base = document_entries(doc);
    let ghost chosen = document_spellings(doc);
    proof {
        lemma_rest_stays(bare, chosen, "model"@, provider_keys());
    }
    assert(base == stripped(entries).insert("model"@, TomlView::Text(start.model)));
    let mut providers = match get_section(doc.as_table(), "model_providers") {
        Some(providers) => providers.clone(),
        None => return Err(config3("供应商 TOML 缺少 [model_providers.", &provider_id, "]")),
    };
    let mut section = match get_section(&providers, &provider_id) {
        Some(section) => section.clone(),
        None => return Err(config3("供应商 TOML 缺少 [model_providers.", &provider_id, "]")),
    };
    let ghost old_section = table_entries(section);
    set_text(&mut section, "name", &provider.provider_name);
    configure_third_party_transport(&mut section, &provider.base_url, true);
    set_text(&mut section, "base_url", &provider.base_url);
    set_text(&mut section, "wire_api", &provider.wire_api);
    set_boolean(&mut section, "requires_openai_auth", provider.requires_openai_auth);
    assert(table_entries(section) == synced_section(start, old_section));
    set_section(&mut providers, &provider_id, section);
    set_section(doc.as_table_mut(), "model_providers", providers);
    proof {
        lemma_rest_stays(chosen, document_spellings(doc), "model_providers"@, provider_keys());
    }
    assert(document_entries(doc) == with_provider_section(
        base,
        provider_id@,
        synced_section(start, old_section),
    ));
    match provider_template_from_document(&doc, &provider_id, &provider.model) {
        Ok(template) => {
            provider.toml_config = Some(template);
            Ok(provider)
        },
        Err(error) => Err(error),
    }
}

/// A provider with its fields trimmed and completed, before its template follows them.
pub open spec fn trimmed_provider(provider: ProviderView, menu: Seq<MappingView>) -> ProviderView {
    ProviderView {
        id: custom_id(trimmed(provider.id)),
        provider_name: trimmed(provider.provider_name),
        base_url: canonical_url(provider.base_url),
        model: trimmed(provider.model),
        api_key: match provider.api_key {
            Some(key) => kept(key),
            None => None,
        },
        toml_config: match provider.toml_config {
            Some(text) => if blank(trimmed_end(text)) {
                None
            } else {
                Some(trimmed_end(text))
            },
            None => None,
        },
        wire_api: if blank(provider.wire_api) {
            "responses"@
        } else {
            trimmed(provider.wire_api)
        },
        requires_openai_auth: provider.requires_openai_auth,
        model_mappings: menu,
    }
}

/// What `normalize_saved_provider` makes of a provider: the provider, and the entries of its new
/// template where it has one.
pub open spec fn normal_form(provider: ProviderView) -> Result<
    (ProviderView, Option<Entries>),
    ErrorView,
> {
    if blank(provider.id) {
        Err(ErrorView::Config("provider id 不能为空"@))
    } else {
        match normalized_mappings(provider.model_mappings, provider.model) {
            Err(error) => Err(error),
            Ok(menu) => {
                let view = trimmed_provider(provider, menu);
                if view.provider_name.len() == 0 {
                    Err(ErrorView::Config("供应商名称不能为空"@))
                } else if view.base_url.len() == 0 {
                    Err(ErrorView::Config("base_url 不能为空"@))
                } else if view.model.len() == 0 {
                    Err(ErrorView::Config("model 不能为空"@))
                } else if placeholder_provider(view.provider_name, view.base_url) {
                    Err(
                        ErrorView::Config(
                            "供应商名称和 base_url 不能使用示例占位值，请填写实际配置"@,
                        ),
                    )
                } else {
                    synced(view)
                }
            },
        }
    }
}

/// Whether a result is what normalizing a provider gives.
pub open spec fn normalizes(
    provider: ProviderView,
    r: Result<SavedProvider, CodexxError>,
) -> bool {
    match normal_form(provider) {
        Ok((view, template)) => r matches Ok(found) && rewritten(view, template, found@),
        Err(error) => r matches Err(found) && found@ == error,
    }
}

/// A provider with its fields trimmed and completed and its template following them.
pub fn normalize_saved_provider(provider: SavedProvider) -> (r: Result<SavedProvider, CodexxError>)
    ensures
        normalizes(provider@, r),
{
    let raw_id = trim(&provider.id);
    if raw_id.as_str().is_empty() {
        return Err(config("provider id 不能为空"));
    }
    let model_mappings = match normalize_mappings(&provider.model_mappings, &provider.model) {
        Ok(menu) => menu,
        Err(error) => return Err(error),
    };
    let api_key = match &provider.api_key {
        Some(key) => keep(key),
        None => None,
    };
    let toml_config = match &provider.toml_config {
        Some(text) => {
            let text = trim_end(text);
            if is_blank(&text) {
                None
            } else {
                Some(text)
            }
        },
        None => None,
    };
    let wire_api = if is_blank(&provider.wire_api) {
        "responses".to_owned()
    } else {
        trim(&provider.wire_api)
    };
    let normalized = SavedProvider {
        id: custom_provider_id(&raw_id),
        provider_name: trim(&provider.provider_name),
        base_url: canonical_provider_base_url(&provider.base_url),
        model: trim(&provider.model),
        api_key,
        toml_config,
        wire_api,
        requires_openai_auth: provider.requires_openai_auth,
        model_mappings,
    };
    assert(normalized@ == trimmed_provider(provider@, mapping_views(model_mappings@)));
    if normalized.provider_name.as_str().is_empty() {
        return Err(config("供应商名称不能为空"));
    }
    if normalized.base_url.as_str().is_empty() {
        return Err(config("base_url 不能为空"));
    }
    if normalized.model.as_str().is_empty() {
        return Err(config("model 不能为空"));
    }
    if is_placeholder_provider(&normalized.provider_name, &normalized.base_url) {
        return Err(
            config("供应商名称和 base_url 不能使用示例占位值，请填写实际配置"),
        );
    }
    sync_provider_toml_from_fields(normalized)
}

} // verus!
