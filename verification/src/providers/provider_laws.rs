//! What holds of providers that are saved, read, imported and copied.
use crate::error::CodexxError;
use crate::providers::model_catalog::{mapping_views, normalize_mappings};
use crate::providers::store::{
    apply_provider_toml_authority, authority, bearer_token, canonical_url, custom_id,
    experimental_bearer_token_from_doc, hydrates, normal_form, normalize_saved_provider,
    normalize_stored_provider_from_toml, provider_section, provider_template_from_document,
    rewritten, strip_provider_bearer_tokens, stripped, synced_section, template_entries,
    with_provider_section, without_token, ProviderView, SavedProvider,
};
use crate::providers::table::{
    consolidate_legacy_provider_duplicates, delete_provider_inner, duplicate_provider_inner,
    free_text, ids_differ, ids_of, lemma_row_at, list_saved_providers_inner,
    merge_authoritative_import, new_row, opt_text, origin_view, provider_by_id, providers_of, reads,
    reconcile_active_provider, rollback_provider_store_inner, row_of, save_provider_inner,
    saved_form, selection_after_delete, source_matches, stored_views, unique_provider_id,
    upsert_provider_with_origin, upserted, write_provider_with_origin, written,
    DuplicateProviderResult, ProviderStoreRollback, ProviderTable, ProviderUpsertMode,
    ProviderUpsertResult, StoredProvider, StoredView,
};
use crate::providers::table_laws::{
    law_free_texts_are_free, law_removal_concerns_one_row, law_undo_restores_what_a_save_changed,
    law_write_concerns_one_row,
};
use crate::text::{blank, is_space, kept, opt_view, text_views, trimmed, trimmed_end};
use crate::toml::{
    boolean_entry, document_entries, document_text, kept_entry, parsed_toml, section_entry,
    text_entry, TomlView,
};
use toml_edit::DocumentMut;
use vstd::prelude::*;

verus! {

/// The settings that follow a provider have different names.
proof fn lemma_settings_differ()
    ensures
        "model"@ != "model_provider"@,
        "model"@ != "model_providers"@,
        "model"@ != "experimental_bearer_token"@,
        "model_provider"@ != "model_providers"@,
        "model_provider"@ != "experimental_bearer_token"@,
        "model_providers"@ != "experimental_bearer_token"@,
{
    reveal_strlit("model");
    reveal_strlit("model_provider");
    reveal_strlit("model_providers");
    reveal_strlit("experimental_bearer_token");
    assert("model"@.len() == 5);
    assert("model_provider"@.len() == 14);
    assert("model_providers"@.len() == 15);
    assert("experimental_bearer_token"@.len() == 25);
}

/// The fields of a provider's table have different names.
proof fn lemma_fields_differ()
    ensures
        "name"@ != "base_url"@,
        "name"@ != "wire_api"@,
        "name"@ != "requires_openai_auth"@,
        "name"@ != "supports_websockets"@,
        "name"@ != "experimental_bearer_token"@,
        "base_url"@ != "wire_api"@,
        "base_url"@ != "requires_openai_auth"@,
        "base_url"@ != "supports_websockets"@,
        "base_url"@ != "experimental_bearer_token"@,
        "wire_api"@ != "requires_openai_auth"@,
        "wire_api"@ != "supports_websockets"@,
        "wire_api"@ != "experimental_bearer_token"@,
        "requires_openai_auth"@ != "supports_websockets"@,
        "requires_openai_auth"@ != "experimental_bearer_token"@,
        "supports_websockets"@ != "experimental_bearer_token"@,
{
    reveal_strlit("name");
    reveal_strlit("base_url");
    reveal_strlit("wire_api");
    reveal_strlit("requires_openai_auth");
    reveal_strlit("supports_websockets");
    reveal_strlit("experimental_bearer_token");
    assert("name"@.len() == 4);
    assert("base_url"@.len() == 8);
    assert("wire_api"@.len() == 8);
    assert("requires_openai_auth"@.len() == 20);
    assert("supports_websockets"@.len() == 19);
    assert("experimental_bearer_token"@.len() == 25);
    assert("base_url"@[0] != "wire_api"@[0]);
}

/// An import replaces what it states and keeps of the record what it leaves out: each text that it
/// has and that is not blank is the new one, each that it lacks the old one, and the record keeps its
/// identifier.
pub proof fn law_imports_keep_what_they_leave_out(
    incoming: SavedProvider,
    existing: &SavedProvider,
    r: SavedProvider,
)
    requires
        call_ensures(merge_authoritative_import, (incoming, existing), r),
    ensures
        r.id@ == existing.id@,
        blank(incoming.provider_name@) ==> r.provider_name@ == existing.provider_name@,
        !blank(incoming.provider_name@) ==> r.provider_name@ == incoming.provider_name@,
        blank(incoming.base_url@) ==> r.base_url@ == existing.base_url@,
        !blank(incoming.base_url@) ==> r.base_url@ == incoming.base_url@,
        blank(incoming.model@) ==> r.model@ == existing.model@,
        !blank(incoming.model@) ==> r.model@ == incoming.model@,
        blank(incoming.wire_api@) ==> r.wire_api@ == existing.wire_api@,
        !blank(incoming.wire_api@) ==> r.wire_api@ == incoming.wire_api@,
        incoming.api_key is None || blank(incoming.api_key->0@) ==> opt_view(r.api_key) == opt_view(
            existing.api_key,
        ),
        incoming.api_key is Some && !blank(incoming.api_key->0@) ==> opt_view(r.api_key) == opt_view(
            incoming.api_key,
        ),
        incoming.toml_config is None || blank(incoming.toml_config->0@) ==> opt_view(r.toml_config)
            == opt_view(existing.toml_config),
        incoming.toml_config is Some && !blank(incoming.toml_config->0@) ==> opt_view(r.toml_config)
            == opt_view(incoming.toml_config),
        r.requires_openai_auth == incoming.requires_openai_auth,
        incoming.model_mappings@.len() == 0 ==> mapping_views(r.model_mappings@) == mapping_views(
            existing.model_mappings@,
        ),
        incoming.model_mappings@.len() > 0 ==> mapping_views(r.model_mappings@) == mapping_views(
            incoming.model_mappings@,
        ),
{
    assert(r@.id == existing@.id);
    assert(mapping_views(incoming.model_mappings@).len() == incoming.model_mappings@.len());
}

/// What is saved of a provider are its own fields, without white space around them: its name, its
/// model, its key, its interface, `responses` where it names none; its endpoint in canonical form;
/// the login that it needs; and a template just where it has one.
pub proof fn law_saved_providers_keep_their_fields(
    provider: SavedProvider,
    r: Result<SavedProvider, CodexxError>,
)
    requires
        call_ensures(normalize_saved_provider, (provider,), r),
        r is Ok,
    ensures
        r->Ok_0.id@ == custom_id(trimmed(provider.id@)),
        r->Ok_0.provider_name@ == trimmed(provider.provider_name@),
        r->Ok_0.base_url@ == canonical_url(provider.base_url@),
        r->Ok_0.model@ == trimmed(provider.model@),
        !blank(provider.wire_api@) ==> r->Ok_0.wire_api@ == trimmed(provider.wire_api@),
        blank(provider.wire_api@) ==> r->Ok_0.wire_api@ == "responses"@,
        r->Ok_0.requires_openai_auth == provider.requires_openai_auth,
        provider.api_key is Some && !blank(provider.api_key->0@) ==> opt_view(r->Ok_0.api_key)
            == Some(trimmed(provider.api_key->0@)),
        provider.toml_config is None ==> r->Ok_0.toml_config is None,
        provider.toml_config is None && (provider.api_key is None || blank(provider.api_key->0@))
            ==> r->Ok_0.api_key is None,
        provider.toml_config is Some && !blank(trimmed_end(provider.toml_config->0@))
            ==> r->Ok_0.toml_config is Some,
{
    let found = r->Ok_0@;
    let view = normal_form(provider@)->Ok_0.0;
    assert(found.id == view.id && found.provider_name == view.provider_name && found.base_url
        == view.base_url && found.model == view.model && found.wire_api == view.wire_api
        && found.requires_openai_auth == view.requires_openai_auth && found.api_key == view.api_key);
}

/// The menu of a provider that is saved is the one that its rows make.
pub proof fn law_saved_providers_keep_their_menu(
    provider: SavedProvider,
    rows: &[crate::providers::model_catalog::ProviderModelMapping],
    model: &str,
    menu: Result<Vec<crate::providers::model_catalog::ProviderModelMapping>, CodexxError>,
    r: Result<SavedProvider, CodexxError>,
)
    requires
        call_ensures(normalize_saved_provider, (provider,), r),
        rows@ == provider.model_mappings@,
        model@ == provider.model@,
        call_ensures(normalize_mappings, (rows, model), menu),
        r is Ok,
    ensures
        menu is Ok,
        mapping_views(r->Ok_0.model_mappings@) == mapping_views(menu->Ok_0@),
{
    assert(r->Ok_0@.model_mappings == normal_form(provider@)->Ok_0.0.model_mappings);
}

/// A provider without an identifier, a name, an endpoint or a model is not saved, nor is the example.
pub proof fn law_incomplete_providers_are_refused(
    provider: SavedProvider,
    r: Result<SavedProvider, CodexxError>,
)
    requires
        call_ensures(normalize_saved_provider, (provider,), r),
    ensures
        blank(provider.id@) || blank(provider.provider_name@) || canonical_url(
            provider.base_url@,
        ).len() == 0 || blank(provider.model@) ==> r is Err,
        provider.toml_config matches Some(text) && !blank(trimmed_end(text@)) && parsed_toml(
            trimmed_end(text@),
        ) is Err ==> r is Err,
{
}

/// The template of a provider that is saved says what the provider says: the configuration selects
/// the same provider as before, with the model, the name, the endpoint, the interface and the login
/// of the provider, and holds no token. A key that only the template had is now the provider's own.
pub proof fn law_saved_templates_follow_the_provider(
    provider: SavedProvider,
    r: Result<SavedProvider, CodexxError>,
) -> (doc: DocumentMut)
    requires
        call_ensures(normalize_saved_provider, (provider,), r),
        r is Ok,
        r->Ok_0.toml_config is Some,
    ensures
        r->Ok_0.toml_config->0@ == trimmed_end(document_text(doc)),
        ({
            let source = parsed_toml(trimmed_end(provider.toml_config->0@))->Ok_0;
            let id = trimmed(text_entry(source, "model_provider"@)->0);
            let entries = document_entries(doc);
            let saved = r->Ok_0;
            &&& text_entry(entries, "model"@) == Some(saved.model@)
            &&& text_entry(entries, "model_provider"@) == Some(id)
            &&& !entries.contains_key("experimental_bearer_token"@)
            &&& section_entry(entries, "model_providers"@) matches Some(providers) && section_entry(
                providers,
                id,
            ) matches Some(table) && {
                &&& text_entry(table, "name"@) == Some(saved.provider_name@)
                &&& text_entry(table, "base_url"@) == Some(saved.base_url@)
                &&& text_entry(table, "wire_api"@) == Some(saved.wire_api@)
                &&& boolean_entry(table, "requires_openai_auth"@) == Some(saved.requires_openai_auth)
                &&& !table.contains_key("experimental_bearer_token"@)
            }
            &&& provider.api_key is None || blank(provider.api_key->0@) ==> opt_view(saved.api_key)
                == bearer_token(source, Some(id))
        }),
{
    lemma_settings_differ();
    lemma_fields_differ();
    let (view, template) = normal_form(provider@)->Ok_0;
    let text = r->Ok_0@.toml_config->0;
    let entries = template->0;
    let doc = choose|doc: DocumentMut| #[trigger]
        document_entries(doc) == entries && text == trimmed_end(document_text(doc));
    let source = parsed_toml(view.toml_config->0)->Ok_0;
    let id = kept_entry(source, "model_provider"@)->0;
    let base = stripped(source).insert("model"@, TomlView::Text(view.model));
    let section = provider_section(base, id)->0;
    let table = synced_section(view, section);
    let whole = with_provider_section(base, id, table).insert(
        "model_provider"@,
        TomlView::Text(id),
    ).insert("model"@, TomlView::Text(view.model));
    assert(entries == stripped(whole));
    let listed = section_entry(whole, "model_providers"@)->0;
    assert(listed[id] == TomlView::Section(table));
    let after = section_entry(entries, "model_providers"@)->0;
    assert(after[id] == without_token(listed[id]));
    doc
}

/// A provider that is read follows its template: what the template states is what the provider has,
/// and what it does not state stays; the provider's own key stays in any case. A template that cannot
/// be used changes nothing.
pub proof fn law_templates_decide_what_is_read(
    provider: &mut SavedProvider,
    r: Result<(), CodexxError>,
)
    requires
        call_ensures(apply_provider_toml_authority, (provider,), r),
    ensures
        final(provider).id@ == old(provider).id@,
        mapping_views(final(provider).model_mappings@) == mapping_views(
            old(provider).model_mappings@,
        ),
        old(provider).api_key is Some ==> opt_view(final(provider).api_key) == opt_view(
            old(provider).api_key,
        ),
        old(provider).toml_config is None ==> final(provider)@ == old(provider)@,
        old(provider).toml_config is Some && parsed_toml(old(provider).toml_config->0@) is Err ==> r is Err
            && final(provider)@ == old(provider)@,
        old(provider).toml_config is Some && r is Ok ==> {
            let entries = parsed_toml(old(provider).toml_config->0@)->Ok_0;
            let id = trimmed(text_entry(entries, "model_provider"@)->0);
            let table = section_entry(section_entry(entries, "model_providers"@)->0, id)->0;
            &&& parsed_toml(old(provider).toml_config->0@) is Ok
            &&& text_entry(entries, "model"@) matches Some(model) ==> final(provider).model@ == (
            if blank(model) {
                old(provider).model@
            } else {
                trimmed(model)
            })
            &&& text_entry(entries, "model"@) is None ==> final(provider).model@
                == old(provider).model@
            &&& text_entry(table, "name"@) matches Some(name) ==> final(provider).provider_name@ == (
            if blank(name) {
                old(provider).provider_name@
            } else {
                trimmed(name)
            })
            &&& text_entry(table, "base_url"@) matches Some(base_url) ==> final(provider).base_url@
                == (if blank(base_url) {
                old(provider).base_url@
            } else {
                canonical_url(trimmed(base_url))
            })
            &&& text_entry(table, "wire_api"@) matches Some(wire_api) ==> final(provider).wire_api@
                == (if blank(wire_api) {
                old(provider).wire_api@
            } else {
                trimmed(wire_api)
            })
            &&& boolean_entry(table, "requires_openai_auth"@) matches Some(needed)
                ==> final(provider).requires_openai_auth == needed
            &&& text_entry(table, "name"@) is None ==> final(provider).provider_name@
                == old(provider).provider_name@
            &&& text_entry(table, "base_url"@) is None ==> final(provider).base_url@
                == old(provider).base_url@
            &&& text_entry(table, "wire_api"@) is None ==> final(provider).wire_api@
                == old(provider).wire_api@
            &&& boolean_entry(table, "requires_openai_auth"@) is None
                ==> final(provider).requires_openai_auth == old(provider).requires_openai_auth
            &&& old(provider).api_key is None ==> opt_view(final(provider).api_key) == bearer_token(
                entries,
                Some(id),
            )
        },
{
    let before = old(provider)@;
    let after = final(provider)@;
    assert(after.id == before.id && after.model_mappings == before.model_mappings);
    if r is Ok && before.toml_config is Some {
        let (view, template) = authority(before)->Ok_0->0;
        assert(after == (ProviderView { toml_config: after.toml_config, ..view }));
    }
}

/// Reading a stored provider does just that, and never fails.
pub proof fn law_stored_providers_are_read_by_their_template(
    provider: &mut SavedProvider,
    other: &mut SavedProvider,
    r: Result<(), CodexxError>,
)
    requires
        old(provider)@ == old(other)@,
        call_ensures(normalize_stored_provider_from_toml, (provider,), ()),
        call_ensures(apply_provider_toml_authority, (other,), r),
    ensures
        final(provider)@ == (ProviderView {
            toml_config: final(provider)@.toml_config,
            ..final(other)@
        }),
        r is Err ==> final(provider)@ == old(provider)@,
{
}

/// A template made of a configuration is that configuration, switched to the provider and the model,
/// without any token: every other setting has its value.
pub proof fn law_templates_are_whole_configurations(
    doc: &DocumentMut,
    provider_id: &str,
    model: &str,
    r: Result<String, CodexxError>,
    key: Seq<char>,
) -> (made: DocumentMut)
    requires
        call_ensures(provider_template_from_document, (doc, provider_id, model), r),
        r is Ok,
    ensures
        r->Ok_0@ == trimmed_end(document_text(made)),
        text_entry(document_entries(made), "model_provider"@) == Some(provider_id@),
        text_entry(document_entries(made), "model"@) == Some(model@),
        !document_entries(made).contains_key("experimental_bearer_token"@),
        key != "model"@ && key != "model_provider"@ && key != "model_providers"@ && key
            != "experimental_bearer_token"@ ==> (document_entries(made).contains_key(key)
            <==> document_entries(*doc).contains_key(key)) && (document_entries(*doc).contains_key(
            key,
        ) ==> document_entries(made)[key] == document_entries(*doc)[key]),
{
    lemma_settings_differ();
    let entries = template_entries(document_entries(*doc), provider_id@, model@);
    choose|made: DocumentMut| #[trigger]
        document_entries(made) == entries && r->Ok_0@ == trimmed_end(document_text(made))
}

/// The token of a configuration is the one in the table of the provider, and the general one where
/// that has none.
pub proof fn law_own_tokens_come_first(doc: &DocumentMut, id: &str, r: Option<String>)
    requires
        call_ensures(experimental_bearer_token_from_doc, (doc, Some(id)), r),
    ensures
        ({
            let entries = document_entries(*doc);
            let general = text_entry(entries, "experimental_bearer_token"@);
            let own = match section_entry(entries, "model_providers"@) {
                Some(providers) => match section_entry(providers, id@) {
                    Some(table) => text_entry(table, "experimental_bearer_token"@),
                    None => None,
                },
                None => None,
            };
            &&& own matches Some(token) ==> opt_view(r) == kept(token)
            &&& own is None && general is Some ==> opt_view(r) == kept(general->0)
            &&& own is None && general is None ==> r is None
        }),
{
}

/// Taking the tokens out of a configuration takes them out of it and of every provider's table, and
/// leaves every other field as it is.
pub proof fn law_tokens_are_taken_out_everywhere(doc: &mut DocumentMut, id: Seq<char>, name: Seq<char>)
    requires
        call_ensures(strip_provider_bearer_tokens, (doc,), ()),
    ensures
        !document_entries(*final(doc)).contains_key("experimental_bearer_token"@),
        section_entry(document_entries(*old(doc)), "model_providers"@) matches Some(before) ==> (
        section_entry(document_entries(*final(doc)), "model_providers"@) matches Some(after) && (
        after.contains_key(id) <==> before.contains_key(id)) && (section_entry(
            before,
            id,
        ) matches Some(table) ==> (section_entry(after, id) matches Some(left)
            && !left.contains_key("experimental_bearer_token"@) && (name
            != "experimental_bearer_token"@ ==> (left.contains_key(name) <==> table.contains_key(
            name,
        )) && (table.contains_key(name) ==> left[name] == table[name]))))),
        name != "experimental_bearer_token"@ && name != "model_providers"@ ==> (document_entries(
            *final(doc),
        ).contains_key(name) <==> document_entries(*old(doc)).contains_key(name)) && (
        document_entries(*old(doc)).contains_key(name) ==> document_entries(*final(doc))[name]
            == document_entries(*old(doc))[name]),
{
    lemma_settings_differ();
    let entries = document_entries(*old(doc));
    if section_entry(entries, "model_providers"@) is Some {
        let before = section_entry(entries, "model_providers"@)->0;
        let after = section_entry(stripped(entries), "model_providers"@)->0;
        if before.contains_key(id) {
            assert(after[id] == without_token(before[id]));
        }
    }
}

/// The list of saved providers has one for each row, in the order of the rows and under the same
/// identifiers.
pub proof fn law_lists_hold_every_provider(table: &ProviderTable, r: Vec<SavedProvider>, i: int)
    requires
        call_ensures(list_saved_providers_inner, (table,), r),
    ensures
        r@.len() == table.rows@.len(),
        0 <= i < r@.len() ==> r@[i].id@ == table.rows@[i].provider.id@ && (
        table.rows@[i].provider.toml_config is None ==> r@[i]@ == table.rows@[i].provider@),
{
    let stored = choose|stored: Seq<StoredView>| #[trigger]
        reads(table@, stored) && crate::providers::store::provider_views(r@) == providers_of(stored);
    let views = crate::providers::store::provider_views(r@);
    assert(views.len() == r@.len());
    if 0 <= i < r@.len() {
        assert(views[i] == r@[i]@);
        assert(stored[i].provider == views[i]);
        assert(table@[i] == table.rows@[i]@);
        assert(hydrates(table@[i].provider, stored[i].provider));
    }
}

/// The provider that is found under an identifier has it, and is found wherever a row has it.
pub proof fn law_providers_are_found_by_their_identifier(
    table: &ProviderTable,
    id: &str,
    r: Option<SavedProvider>,
    i: int,
)
    requires
        call_ensures(provider_by_id, (table, id), r),
        0 <= i < table.rows@.len(),
    ensures
        table.rows@[i].provider.id@ == id@ ==> r is Some,
        r matches Some(found) ==> found.id@ == id@,
        r matches Some(found) && ids_differ(table@) && table.rows@[i].provider.id@ == id@
            && table.rows@[i].provider.toml_config is None ==> r->0@ == table.rows@[i].provider@,
{
    assert(table@[i] == table.rows@[i]@);
    lemma_found_row(table@, id@, i);
}

/// A row with the identifier that is asked for is found.
proof fn lemma_found_row(rows: Seq<StoredView>, id: Seq<char>, i: int)
    requires
        0 <= i < rows.len(),
    ensures
        rows[i].provider.id == id ==> row_of(rows, id) is Some,
        rows[i].provider.id == id && ids_differ(rows) ==> row_of(rows, id) == Some(rows[i]),
        row_of(rows, id) matches Some(row) ==> row.provider.id == id,
    decreases i,
{
    if rows[i].provider.id == id {
        let at = lemma_first_row(rows, id, i);
        lemma_row_at(rows, id, at);
        if at < i {
            assert(rows[at].provider.id == rows[i].provider.id);
        }
    } else if row_of(rows, id) is Some {
        let at = choose|at: int| crate::providers::table::first_at(rows, id, at);
        assert(crate::providers::table::first_at(rows, id, at));
    }
}

pub proof fn lemma_first_row(rows: Seq<StoredView>, id: Seq<char>, i: int) -> (at: int)
    requires
        0 <= i < rows.len(),
        rows[i].provider.id == id,
    ensures
        0 <= at <= i,
        crate::providers::table::first_at(rows, id, at),
    decreases i,
{
    if exists|j: int| 0 <= j < i && (#[trigger] rows[j]).provider.id == id {
        let j = choose|j: int| 0 <= j < i && (#[trigger] rows[j]).provider.id == id;
        lemma_first_row(rows, id, j)
    } else {
        i
    }
}

/// A write puts the provider under its identifier, as it is, at the time that it is given, and changes
/// no other row. A new row is made by the user unless it comes from somewhere, and then says from
/// where.
pub proof fn law_writes_store_the_provider(
    table: &mut ProviderTable,
    provider: &SavedProvider,
    origin: Option<(&str, &str)>,
    now: &str,
    id: Seq<char>,
)
    requires
        call_ensures(write_provider_with_origin, (table, provider, origin, now), ()),
    ensures
        row_of(final(table)@, provider.id@) matches Some(row) && row.provider == provider@
            && row.updated_at == now@ && (origin matches Some((source, source_id)) ==> row.source
            == source@ && row.source_id == Some(source_id@)) && (row_of(
            old(table)@,
            provider.id@,
        ) is None ==> row.created_at == now@ && (origin is None ==> row.source == "manual"@
            && row.source_id is None)) && (row_of(
            old(table)@,
            provider.id@,
        ) matches Some(before) ==> row.created_at == before.created_at && (origin is None
            ==> row.source == before.source && row.source_id == before.source_id)),
        id != provider.id@ ==> row_of(final(table)@, id) == row_of(old(table)@, id),
{
    let rows = old(table)@;
    let view = provider@;
    let from = origin_view(origin);
    law_write_concerns_one_row(rows, view, from, now@, view.id);
    law_write_concerns_one_row(rows, view, from, now@, id);
    let after = written(rows, view, from, now@);
    if exists|at: int| crate::providers::table::first_at(rows, view.id, at) {
        let at = choose|at: int| crate::providers::table::first_at(rows, view.id, at);
        assert(crate::providers::table::first_at(after, view.id, at)) by {
            assert forall|j: int| 0 <= j < at implies (#[trigger] after[j]).provider.id
                != view.id by {
                assert(after[j] == rows[j]);
            }
        }
        lemma_row_at(rows, view.id, at);
        lemma_row_at(after, view.id, at);
    } else {
        let row = new_row(view, from, now@);
        let at = lemma_placed_somewhere(rows, row);
        assert forall|j: int| 0 <= j < at implies (#[trigger] after[j]).provider.id != view.id by {
            if rows[j].provider.id == view.id {
                let first = lemma_first_row(rows, view.id, j);
            }
        }
        assert(crate::providers::table::first_at(after, view.id, at));
        lemma_row_at(after, view.id, at);
        if row_of(rows, view.id) is Some {
            assert(false);
        }
    }
}

pub proof fn lemma_placed_somewhere(rows: Seq<StoredView>, row: StoredView) -> (at: int)
    ensures
        0 <= at <= rows.len(),
        crate::providers::table::placed(rows, row) == rows.insert(at, row),
    decreases rows.len(),
{
    if rows.len() > 0 && crate::text::precedes(row.created_at, rows.last().created_at) {
        let at = lemma_placed_somewhere(rows.drop_last(), row);
        assert(rows.drop_last().insert(at, row).push(rows.last()) =~= rows.insert(at, row));
        at
    } else {
        assert(rows.push(row) =~= rows.insert(rows.len() as int, row));
        rows.len() as int
    }
}

/// An identifier for a new row is the preferred one where no row has it, and otherwise one that begins
/// with it; no row has it in any case.
pub proof fn law_new_identifiers_are_free(table: &ProviderTable, preferred: &str, r: String, i: int)
    requires
        call_ensures(unique_provider_id, (table, preferred), r),
    ensures
        0 <= i < table.rows@.len() ==> table.rows@[i].provider.id@ != r@,
        !ids_of(table@).contains(preferred@) ==> r@ == preferred@,
        preferred@.is_prefix_of(r@),
{
    law_free_texts_are_free(ids_of(table@), preferred@, "-"@);
    if 0 <= i < table.rows@.len() {
        assert(table@[i] == table.rows@[i]@);
        assert(ids_of(table@)[i] == table.rows@[i].provider.id@);
    }
    assert(preferred@.is_prefix_of(r@)) by {
        assert(r@.subrange(0, preferred@.len() as int) =~= preferred@);
    }
}

/// A row comes from an origin where it has its source and its identifier there; what was imported from
/// this machine counts as imported from the same source.
pub proof fn law_origins_are_recognised(row: &StoredProvider, source: &str, id: &str, r: bool)
    requires
        call_ensures(source_matches, (row, (source, id)), r),
    ensures
        r ==> row.source_id is Some && row.source_id->0@ == id@,
        row.source@ == source@ && row.source_id is Some && row.source_id->0@ == id@ ==> r,
        r && row.source@ != source@ ==> source@ == "cc-switch"@ && row.source@ == "cc-switch-local"@,
        source@ == "cc-switch"@ && row.source@ == "cc-switch-local"@ && row.source_id is Some
            && row.source_id->0@ == id@ ==> r,
{
}

/// A provider that is written again under its identifier, or imported again from its origin, is
/// updated; any other is added, under an identifier that no row had, with all of its fields.
pub proof fn law_upserts_add_or_update(
    table: &mut ProviderTable,
    provider: SavedProvider,
    mode: ProviderUpsertMode,
    origin: Option<(&str, &str)>,
    now: &str,
    r: ProviderUpsertResult,
)
    requires
        call_ensures(upsert_provider_with_origin, (table, provider, mode, origin, now), r),
    ensures
        r.kind is Added ==> !ids_of(old(table)@).contains(r.provider.id@) && final(table)@.len()
            == old(table)@.len() + 1,
        r.kind is Updated ==> final(table)@.len() == old(table)@.len(),
        r.kind is Added && provider.toml_config is None ==> r.provider@ == (ProviderView {
            id: r.provider.id@,
            ..provider@
        }),
        r.kind is Updated && mode is Manual ==> r.provider.id@ == provider.id@,
        r.kind is Updated && mode is Manual && provider.toml_config is None ==> r.provider@
            == provider@,
        mode is Manual && row_of(old(table)@, provider.id@) is None ==> r.kind is Added,
        row_of(final(table)@, r.provider.id@) is Some,
{
    let before = old(table)@;
    let stored = choose|stored: Seq<StoredView>| #[trigger]
        reads(before, stored) && {
            let (row, kind) = upserted(stored, provider@, mode, origin_view(origin));
            &&& final(table)@ == written(before, row, origin_view(origin), now@)
            &&& r.kind == kind
            &&& hydrates(row, r.provider@)
        };
    let (row, kind) = upserted(stored, provider@, mode, origin_view(origin));
    assert(r.provider@.id == row.id);
    law_write_concerns_one_row(before, row, origin_view(origin), now@, row.id);
    assert(ids_of(stored) =~= ids_of(before)) by {
        assert forall|i: int| 0 <= i < before.len() implies ids_of(stored)[i] == ids_of(
            before,
        )[i] by {
            assert(hydrates(before[i].provider, stored[i].provider));
        }
    }
    if kind is Added {
        law_free_texts_are_free(ids_of(stored), provider@.id, "-"@);
        lemma_absent(before, row.id);
        let at = lemma_placed_somewhere(before, new_row(row, origin_view(origin), now@));
    } else {
        lemma_present(before, stored, provider@, mode, origin_view(origin));
    }
    if mode is Manual && row_of(before, provider@.id) is None {
        lemma_same_absent(before, stored, provider@.id);
    }
}

proof fn lemma_absent(rows: Seq<StoredView>, id: Seq<char>)
    requires
        !ids_of(rows).contains(id),
    ensures
        row_of(rows, id) is None,
        !exists|at: int| crate::providers::table::first_at(rows, id, at),
{
    if exists|at: int| crate::providers::table::first_at(rows, id, at) {
        let at = choose|at: int| crate::providers::table::first_at(rows, id, at);
        assert(ids_of(rows)[at] == id);
    }
}

proof fn lemma_same_absent(rows: Seq<StoredView>, stored: Seq<StoredView>, id: Seq<char>)
    requires
        reads(rows, stored),
        row_of(rows, id) is None,
    ensures
        row_of(stored, id) is None,
{
    if row_of(stored, id) is Some {
        let at = choose|at: int| crate::providers::table::first_at(stored, id, at);
        assert(crate::providers::table::first_at(stored, id, at));
        assert(hydrates(rows[at].provider, stored[at].provider));
        let first = lemma_first_row(rows, id, at);
    }
}

proof fn lemma_present(
    rows: Seq<StoredView>,
    stored: Seq<StoredView>,
    provider: ProviderView,
    mode: ProviderUpsertMode,
    origin: crate::providers::table::Origin,
)
    requires
        reads(rows, stored),
        upserted(stored, provider, mode, origin).1 is Updated,
    ensures
        exists|at: int|
            crate::providers::table::first_at(
                rows,
                upserted(stored, provider, mode, origin).0.id,
                at,
            ),
{
    let id = upserted(stored, provider, mode, origin).0.id;
    let k: int = if mode is Manual {
        let at = choose|at: int| crate::providers::table::first_at(stored, provider.id, at);
        assert(crate::providers::table::first_at(stored, provider.id, at));
        at
    } else {
        let (source, source_id) = origin->0;
        let at = choose|at: int|
            crate::providers::table::first_from(stored, source, source_id, at);
        assert(crate::providers::table::first_from(stored, source, source_id, at));
        at
    };
    assert(stored[k].provider.id == id);
    assert(hydrates(rows[k].provider, stored[k].provider));
    let first = lemma_first_row(rows, id, k);
}

/// A provider that is saved is then found under its identifier with the fields that it was given, and
/// no other row changes; a save that is refused changes nothing.
pub proof fn law_saves_concern_one_provider(
    table: &mut ProviderTable,
    provider: SavedProvider,
    now: &str,
    r: Result<SavedProvider, CodexxError>,
    id: Seq<char>,
)
    requires
        call_ensures(save_provider_inner, (table, provider, now), r),
    ensures
        r is Err ==> final(table)@ == old(table)@,
        r matches Ok(saved) ==> {
            &&& row_of(final(table)@, saved.id@) matches Some(row) && row.updated_at == now@
            &&& id != saved.id@ ==> row_of(final(table)@, id) == row_of(old(table)@, id)
            &&& ids_of(old(table)@).contains(trimmed(provider.id@)) ==> saved.id@ == trimmed(
                provider.id@,
            )
            &&& provider.toml_config is None ==> saved.provider_name@ == trimmed(
                provider.provider_name@,
            ) && saved.model@ == trimmed(provider.model@) && saved.base_url@ == canonical_url(
                provider.base_url@,
            ) && saved.requires_openai_auth == provider.requires_openai_auth
            &&& provider.api_key is Some && !blank(provider.api_key->0@) ==> opt_view(saved.api_key)
                == Some(trimmed(provider.api_key->0@))
        },
{
    if let Ok(saved) = r {
        let before = old(table)@;
        let (view, template) = saved_form(ids_of(before), provider@)->Ok_0;
        let row = choose|row: ProviderView| #[trigger]
            rewritten(view, template, row) && final(table)@ == written(before, row, None, now@)
                && hydrates(row, saved@);
        assert(saved@.id == row.id);
        law_write_concerns_one_row(before, row, None, now@, row.id);
        law_write_concerns_one_row(before, row, None, now@, id);
        assert(row.api_key == view.api_key);
    }
}

/// A copy of a saved provider is a new row: it has an identifier that no row had, and every row that
/// there was stays as it was. A copy that cannot be saved changes nothing.
pub proof fn law_copies_are_new_rows(
    table: &mut ProviderTable,
    live: Option<SavedProvider>,
    provider_id: &str,
    provider_name: Option<&str>,
    selected: &Option<String>,
    now: &str,
    r: Result<DuplicateProviderResult, CodexxError>,
    id: Seq<char>,
)
    requires
        call_ensures(
            duplicate_provider_inner,
            (table, live, Some(provider_id), provider_name, selected, now),
            r,
        ),
        trimmed(provider_id@) == provider_id@,
    ensures
        r is Err ==> final(table)@ == old(table)@,
        r matches Ok(copied) ==> {
            &&& !ids_of(old(table)@).contains(copied.provider.id@)
            &&& row_of(final(table)@, copied.provider.id@) is Some
            &&& row_of(old(table)@, id) is Some ==> row_of(final(table)@, id) == row_of(
                old(table)@,
                id,
            )
            &&& row_of(old(table)@, provider_id@) is Some
            &&& copied.providers@.len() == final(table)@.len()
            &&& row_of(old(table)@, provider_id@)->0.provider.toml_config is None ==> {
                let source = row_of(old(table)@, provider_id@)->0.provider;
                &&& copied.provider.model@ == trimmed(source.model)
                &&& copied.provider.base_url@ == canonical_url(source.base_url)
                &&& copied.provider.requires_openai_auth == source.requires_openai_auth
                &&& !blank(source.wire_api) ==> copied.provider.wire_api@ == trimmed(source.wire_api)
                &&& source.api_key is Some && !blank(source.api_key->0) ==> opt_view(
                    copied.provider.api_key,
                ) == Some(trimmed(source.api_key->0))
            }
        },
        row_of(old(table)@, provider_id@) is None ==> r is Err,
{
    let before = old(table)@;
    let after = final(table)@;
    let wanted = opt_text(provider_name);
    let stored = choose|stored: Seq<StoredView>| #[trigger]
        reads(before, stored) && match crate::providers::table::copy_source_error(
            before,
            stored,
            crate::providers::table::opt_provider(live),
            Some(provider_id@),
            opt_view(*selected),
        ) {
            Some(error) => r matches Err(found) && found@ == error && after == before,
            None => exists|middle: Seq<StoredView>, saved: Seq<ProviderView>, source: ProviderView| #[trigger]
                crate::providers::table::copy_source(
                    before,
                    stored,
                    crate::providers::table::opt_provider(live),
                    Some(provider_id@),
                    opt_view(*selected),
                    now@,
                    middle,
                    saved,
                    source,
                ) && crate::providers::table::copy_outcome(
                    crate::providers::table::opt_provider(live),
                    wanted,
                    opt_view(*selected),
                    now@,
                    before,
                    middle,
                    saved,
                    source,
                    after,
                    r,
                ),
        };
    if row_of(before, provider_id@) is None {
        lemma_same_absent(before, stored, provider_id@);
    }
    if let Ok(copied) = r {
        let (middle, saved, source) = choose|
            middle: Seq<StoredView>,
            saved: Seq<ProviderView>,
            source: ProviderView,
        | #[trigger]
            crate::providers::table::copy_source(
                before,
                stored,
                crate::providers::table::opt_provider(live),
                Some(provider_id@),
                opt_view(*selected),
                now@,
                middle,
                saved,
                source,
            ) && crate::providers::table::copy_outcome(
                crate::providers::table::opt_provider(live),
                wanted,
                opt_view(*selected),
                now@,
                before,
                middle,
                saved,
                source,
                after,
                r,
            );
        let copy = crate::providers::table::copy_of(source, middle, saved, wanted);
        let (view, template) = saved_form(ids_of(middle), copy)->Ok_0;
        let row = choose|row: ProviderView| #[trigger]
            rewritten(view, template, row) && after == written(middle, row, None, now@) && hydrates(
                row,
                copied.provider@,
            );
        law_free_texts_are_free(ids_of(before), source.id + "-copy"@, "-"@);
        lemma_stored_identifier(before, stored, provider_id@);
        assert(hydrates(row_of(before, provider_id@)->0.provider, source));
        lemma_copied_identifier(ids_of(before), source.id);
        law_write_concerns_one_row(before, row, None, now@, row.id);
        law_write_concerns_one_row(before, row, None, now@, id);
        assert(copied.provider@.id == row.id && row.id == view.id);
        if id == row.id {
            lemma_absent(before, id);
        }
        let listed = choose|listed: Seq<StoredView>| #[trigger]
            reads(after, listed) && crate::providers::store::provider_views(copied.providers@)
                == providers_of(listed);
        assert(crate::providers::store::provider_views(copied.providers@).len()
            == copied.providers@.len());
    }
}

proof fn lemma_stored_identifier(rows: Seq<StoredView>, stored: Seq<StoredView>, id: Seq<char>)
    requires
        reads(rows, stored),
        row_of(stored, id) is Some,
    ensures
        row_of(stored, id)->0.provider.id == id,
        row_of(rows, id) is Some,
        hydrates(row_of(rows, id)->0.provider, row_of(stored, id)->0.provider),
{
    let at = choose|at: int| crate::providers::table::first_at(stored, id, at);
    assert(crate::providers::table::first_at(stored, id, at));
    assert(hydrates(rows[at].provider, stored[at].provider));
    assert forall|j: int| 0 <= j < at implies (#[trigger] rows[j]).provider.id != id by {
        assert(hydrates(rows[j].provider, stored[j].provider));
        assert(stored[j].provider.id != id);
    }
    assert(crate::providers::table::first_at(rows, id, at));
    lemma_row_at(rows, id, at);
}

/// The identifier of a copy has no white space around it.
proof fn lemma_copied_identifier(ids: Seq<Seq<char>>, id: Seq<char>)
    requires
        trimmed(id) == id,
    ensures
        ({
            let copy = free_text(ids, id + "-copy"@, "-"@);
            trimmed(copy) == copy
        }),
{
    reveal_strlit("-copy");
    let base = id + "-copy"@;
    let copy = free_text(ids, base, "-"@);
    let n = choose|n: nat| crate::providers::table::first_free(ids, base, "-"@, n);
    let digits = crate::text::decimal(n);
    assert(digits.len() > 0 && !is_space(digits.last()));
    if id.len() > 0 {
        lemma_trimmed_edges(id);
        assert(copy[0] == id[0]);
    } else {
        assert(copy[0] == '-');
    }
    assert(base.last() == 'y');
    assert(!is_space(copy.last()));
    assert(!is_space(copy[0]));
}

proof fn lemma_trimmed_edges(s: Seq<char>)
    requires
        trimmed(s) == s,
        s.len() > 0,
    ensures
        !is_space(s[0]),
{
    if is_space(s[0]) {
        let start = crate::text::trimmed_start(s);
        let rest = s.subrange(1, s.len() as int);
        lemma_start_is_shorter(rest);
        crate::text::lemma_trimmed_end(start);
        assert(trimmed(s).len() < s.len());
    }
}

proof fn lemma_start_is_shorter(s: Seq<char>)
    ensures
        crate::text::trimmed_start(s).len() <= s.len(),
    decreases s.len(),
{
    if s.len() > 0 && is_space(s[0]) {
        lemma_start_is_shorter(s.subrange(1, s.len() as int));
    }
}

/// Removing a provider removes its row and no other, and forgets it where it was the one selected.
pub proof fn law_removals_concern_one_provider(
    table: &mut ProviderTable,
    selected: &mut Option<String>,
    id: &str,
    other: Seq<char>,
)
    requires
        call_ensures(delete_provider_inner, (table, selected, id), ()),
    ensures
        row_of(final(table)@, id@) is None,
        other != id@ ==> row_of(final(table)@, other) == row_of(old(table)@, other),
        opt_view(*old(selected)) == Some(id@) ==> *final(selected) is None,
        opt_view(*old(selected)) != Some(id@) ==> opt_view(*final(selected)) == opt_view(
            *old(selected),
        ),
{
    law_removal_concerns_one_row(old(table)@, id@, id@);
    law_removal_concerns_one_row(old(table)@, id@, other);
}

/// A selection is forgotten where it was the provider that was removed, and kept otherwise.
pub proof fn law_removed_providers_are_forgotten(selected: &Option<String>, id: &str, r: Option<String>)
    requires
        call_ensures(selection_after_delete, (selected, id), r),
    ensures
        *selected matches Some(name) && name@ == trimmed(id@) ==> r is None,
        *selected matches Some(name) && name@ != trimmed(id@) ==> opt_view(r) == opt_view(*selected),
        *selected is None ==> r is None,
{
}

/// The provider that stays active is the only candidate, or the remembered one where it is one; it is
/// never one that is no candidate, and never guessed.
pub proof fn law_active_providers_are_never_guessed(
    selected: &Option<String>,
    candidates: &Vec<String>,
    r: Option<String>,
)
    requires
        call_ensures(reconcile_active_provider, (selected, candidates), r),
    ensures
        candidates@.len() == 1 ==> r is Some && r->0@ == candidates@[0]@,
        candidates@.len() == 0 ==> r is None,
        candidates@.len() > 1 && r is Some ==> opt_view(r) == opt_view(*selected),
        r matches Some(id) ==> text_views(candidates@).contains(id@),
        candidates@.len() > 1 && (*selected matches Some(id) && text_views(candidates@).contains(id@))
            ==> r is Some,
{
    let all = text_views(candidates@);
    assert(all.len() == candidates@.len());
    if candidates@.len() == 1 {
        assert(all[0] == candidates@[0]@);
        assert(all.contains(all[0]));
    }
}

/// Consolidating merges nothing.
pub proof fn law_consolidation_merges_nothing(table: &mut ProviderTable, r: usize)
    requires
        call_ensures(consolidate_legacy_provider_duplicates, (table,), r),
    ensures
        final(table)@ == old(table)@,
        r == 0,
{
}

/// A save that is undone gives back every row that it changed, as it was read before, and leaves every
/// other row alone; an undo that is refused changes nothing.
pub proof fn law_undo_gives_back_what_was_there(
    table: &mut ProviderTable,
    rollback: &ProviderStoreRollback,
    r: Result<(), CodexxError>,
    id: Seq<char>,
)
    requires
        call_ensures(rollback_provider_store_inner, (table, rollback), r),
        ids_differ(stored_views(rollback.before@)),
    ensures
        r is Err ==> final(table)@ == old(table)@,
        r is Ok && row_of(stored_views(rollback.before@), id) != row_of(
            stored_views(rollback.after@),
            id,
        ) ==> row_of(final(table)@, id) == row_of(stored_views(rollback.before@), id),
        r is Ok && row_of(stored_views(rollback.before@), id) == row_of(
            stored_views(rollback.after@),
            id,
        ) ==> row_of(final(table)@, id) == row_of(old(table)@, id),
{
    law_undo_restores_what_a_save_changed(
        old(table)@,
        stored_views(rollback.before@),
        stored_views(rollback.after@),
        id,
    );
}

/// A template is made of a configuration just where that has a table for the provider.
pub proof fn law_templates_need_a_table(
    doc: &DocumentMut,
    provider_id: &str,
    model: &str,
    r: Result<String, CodexxError>,
)
    requires
        call_ensures(provider_template_from_document, (doc, provider_id, model), r),
    ensures
        r is Ok <==> section_entry(document_entries(*doc), "model_providers"@) is Some
            && section_entry(
            section_entry(document_entries(*doc), "model_providers"@)->0,
            provider_id@,
        ) is Some,
{
}

} // verus!
