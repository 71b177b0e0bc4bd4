//! What holds of the catalogs that this application generates: how they are named and recognised,
//! when a configuration points to one, and which files are left alone.
use crate::digest::{hex_of, sha256};
use crate::error::CodexxError;
use crate::json::{field, json_bytes, json_value, parsed_json, text_of, JsonView};
use crate::providers::model_catalog::{
    build_catalog, catalog_filename, catalog_is_missing, component_is_missing, confirm_catalog,
    confirm_component, has_verified_ownership, is_generated_catalog, is_owned_pointer,
    mapping_views, normalize_mappings, owned_catalog_directory, point_to_catalog,
    prepare_model_catalog, release_catalog, CatalogStep, EntryKind, PointerFacts,
    ProviderModelMapping,
};
use crate::text::{opt_view, utf8};
use crate::toml::{document_entries, text_entry, TomlView};
use serde_json::Value;
use toml_edit::DocumentMut;
use vstd::prelude::*;

verus! {

/// A catalog's file is named after a digest of all of its content.
pub proof fn law_catalogs_are_named_after_their_content(
    catalog: &Value,
    digest: &[u8],
    digits: String,
    r: Result<String, CodexxError>,
)
    requires
        call_ensures(catalog_filename, (catalog,), r),
        json_bytes(json_value(*catalog)) is Some ==> digest@ == sha256(
            utf8("codex-x-provider-model-catalog-v2\0"@) + json_bytes(json_value(*catalog))->0,
        ),
        call_ensures(hex_of, (digest,), digits),
    ensures
        r is Ok <==> json_bytes(json_value(*catalog)) is Some,
        r is Ok ==> r->Ok_0@ == digits@ + ".json"@,
{
}

/// A catalog was generated here just if it carries the mark with the hash of a provider, lists one
/// model at least and no more than a menu can have, and its file has the name of its content.
pub proof fn law_generated_catalogs_carry_the_mark(
    catalog: &Value,
    filename: &str,
    name: Result<String, CodexxError>,
    r: bool,
)
    requires
        call_ensures(is_generated_catalog, (catalog, filename), r),
        call_ensures(catalog_filename, (catalog,), name),
    ensures
        r ==> name is Ok && name->Ok_0@ == filename@,
        r ==> field(json_value(*catalog), "_codex_x_model_catalog"@) is Some,
        r ==> ({
            let mark = field(json_value(*catalog), "_codex_x_model_catalog"@)->0;
            &&& text_of(field(mark, "source"@)) == Some("codex-x"@)
            &&& field(mark, "format"@) == Some(JsonView::Integer(1))
            &&& text_of(field(mark, "provider_hash"@)) is Some
            &&& text_of(field(mark, "provider_hash"@))->0.len() == 64
        }),
        r ==> field(json_value(*catalog), "models"@) is Some && field(
            json_value(*catalog),
            "models"@,
        )->0 is List && 0 < field(json_value(*catalog), "models"@)->0->List_0.len() <= 64,
        ({
            let owner = field(json_value(*catalog), "_codex_x_model_catalog"@);
            let models = field(json_value(*catalog), "models"@);
            &&& owner is Some && text_of(field(owner->0, "source"@)) == Some("codex-x"@)
            &&& field(owner->0, "format"@) == Some(JsonView::Integer(1))
            &&& text_of(field(owner->0, "provider_hash"@)) is Some && crate::text::is_hash(
                text_of(field(owner->0, "provider_hash"@))->0,
            )
            &&& models is Some && models->0 is List && 0 < models->0->List_0.len() <= 64
            &&& name is Ok && name->Ok_0@ == filename@
        }) ==> r,
{
}

/// A file is a catalog of ours just if it is not too large and what it holds is one.
pub proof fn law_files_are_judged_by_their_content(
    content: &[u8],
    filename: &str,
    catalog: &Value,
    generated: bool,
    r: bool,
)
    requires
        call_ensures(has_verified_ownership, (content, filename), r),
        parsed_json(content@) is Ok ==> json_value(*catalog) == parsed_json(content@)->Ok_0,
        call_ensures(is_generated_catalog, (catalog, filename), generated),
    ensures
        r <==> content@.len() <= 1_048_576 && parsed_json(content@) is Ok && generated,
{
}

/// A pointer is ours only into a directory of generated catalogs, without a step upwards, through
/// no link, to a file named after a digest; and outside our own directory only where the file is a
/// catalog that was generated here.
pub proof fn law_foreign_catalogs_are_left_alone(
    facts: &PointerFacts,
    content: &[u8],
    name: &str,
    owned: bool,
    hash: Seq<char>,
    r: bool,
)
    requires
        call_ensures(is_owned_pointer, (facts,), r),
        facts.content is Some ==> content@ == facts.content->0@,
        facts.name is Some ==> name@ == facts.name->0@,
        call_ensures(has_verified_ownership, (content, name), owned),
    ensures
        r ==> !facts.traverses && facts.name is Some,
        r ==> facts.parent_name is Some && facts.parent_name->0@ == "model-catalogs"@,
        r ==> facts.owner_name is Some && facts.owner_name->0@ == ".codex-x"@,
        r ==> !(facts.parent is Link) && !(facts.owner is Link) && !(facts.file is Link)
            && !(facts.file is Directory),
        r && !facts.same_parent ==> facts.content is Some && owned,
        r ==> name@.len() == 64 + ".json"@.len() && ".json"@.is_suffix_of(name@),
        !facts.traverses && facts.name is Some && name@ == hash + ".json"@ && crate::text::is_hash(
            hash,
        ) && opt_view(facts.parent_name) == Some("model-catalogs"@) && opt_view(facts.owner_name)
            == Some(".codex-x"@) && (facts.parent is Absent || facts.parent is Directory) && (
        facts.owner is Absent || facts.owner is Directory) && (facts.file is Absent
            || facts.file is File) && (facts.same_parent || (facts.content is Some && owned)) ==> r,
{
    if r {
        let found = facts.name->0@;
        let given = choose|hash: Seq<char>|
            found == #[trigger] (hash + ".json"@) && crate::text::is_hash(hash);
        assert(found == given + ".json"@ && crate::text::is_hash(given));
        assert(".json"@ =~= found.subrange(found.len() - ".json"@.len(), found.len() as int));
    }
}

/// A configuration without a menu loses its pointer if that is a generated one, and nothing is done
/// where it has none. With a menu the catalog of that menu is published under its own name, and
/// carries the mark of the provider. A menu that is refused is refused here.
pub proof fn law_menus_decide_about_the_catalog(
    id: &str,
    mappings: &[ProviderModelMapping],
    model: &str,
    doc: &DocumentMut,
    menu: Result<Vec<ProviderModelMapping>, CodexxError>,
    rows: &[ProviderModelMapping],
    built: Value,
    key: Seq<char>,
    r: Result<CatalogStep, CodexxError>,
)
    requires
        call_ensures(prepare_model_catalog, (id, mappings, model, doc), r),
        call_ensures(normalize_mappings, (mappings, model), menu),
        menu is Ok ==> mapping_views(rows@) == mapping_views(menu->Ok_0@),
        call_ensures(build_catalog, (rows, doc), built),
    ensures
        menu is Err ==> r is Err && r->Err_0@ == menu->Err_0@,
        menu is Ok && menu->Ok_0@.len() == 0 ==> r is Ok && !(r->Ok_0 is Publish),
        menu is Ok && menu->Ok_0@.len() == 0 ==> (r->Ok_0 is RemoveIfOwned <==> text_entry(
            document_entries(*doc),
            "model_catalog_json"@,
        ) is Some),
        r is Ok && r->Ok_0 is RemoveIfOwned ==> text_entry(
            document_entries(*doc),
            "model_catalog_json"@,
        ) == Some(r->Ok_0->RemoveIfOwned_0@),
        menu is Ok && menu->Ok_0@.len() > 0 && r is Ok ==> r->Ok_0 is Publish,
        r is Ok && r->Ok_0 is Publish ==> ({
            let catalog = json_value(r->Ok_0->catalog);
            let mark = field(catalog, "_codex_x_model_catalog"@);
            &&& key != "_codex_x_model_catalog"@ ==> field(catalog, key) == field(
                json_value(built),
                key,
            )
            &&& mark is Some
            &&& text_of(field(mark->0, "source"@)) == Some("codex-x"@)
            &&& text_of(field(mark->0, "provider_hash"@)) == Some(
                crate::digest::hex_text(sha256(utf8(id@))),
            )
            &&& json_bytes(catalog) is Some
            &&& r->Ok_0->filename@ == crate::digest::hex_text(
                sha256(utf8("codex-x-provider-model-catalog-v2\0"@) + json_bytes(catalog)->0),
            ) + ".json"@
        }),
{
    if menu is Ok {
        assert(mapping_views(menu->Ok_0@).len() == menu->Ok_0@.len());
    }
    reveal_strlit("source");
    reveal_strlit("format");
    reveal_strlit("provider_hash");
    assert("source"@.len() == 6 && "format"@.len() == 6 && "provider_hash"@.len() == 13);
    assert("source"@[0] == 's' && "format"@[0] == 'f');
}

/// Only a generated catalog's pointer is removed, and pointing to a catalog changes the pointer
/// alone.
pub proof fn law_pointers_are_changed_alone(
    released: &mut DocumentMut,
    owned: bool,
    pointed: &mut DocumentMut,
    path: &str,
    key: Seq<char>,
)
    requires
        call_ensures(release_catalog, (released, owned), ()),
        call_ensures(point_to_catalog, (pointed, path), ()),
    ensures
        owned ==> !document_entries(*final(released)).contains_key("model_catalog_json"@),
        !owned ==> *final(released) == *old(released),
        key != "model_catalog_json"@ ==> (document_entries(*final(released)).contains_key(key)
            <==> document_entries(*old(released)).contains_key(key)) && (document_entries(
            *final(released),
        ).contains_key(key) ==> document_entries(*final(released))[key] == document_entries(
            *old(released),
        )[key]),
        document_entries(*final(pointed)).contains_key("model_catalog_json"@),
        document_entries(*final(pointed))["model_catalog_json"@] == TomlView::Text(path@),
        key != "model_catalog_json"@ ==> (document_entries(*final(pointed)).contains_key(key)
            <==> document_entries(*old(pointed)).contains_key(key)) && (document_entries(
            *final(pointed),
        ).contains_key(key) ==> document_entries(*final(pointed))[key] == document_entries(
            *old(pointed),
        )[key]),
{
}

/// A catalog is written only where nothing is; a file that is there has to hold that very catalog,
/// and anything else there is refused. The directory is made only where nothing is, and has to be a
/// directory afterwards.
pub proof fn law_nothing_is_written_over(
    kind: EntryKind,
    length: u64,
    existing: &[u8],
    catalog: &Value,
    missing: Result<bool, CodexxError>,
    confirmed: Result<(), CodexxError>,
    component: Result<bool, CodexxError>,
    checked: Result<(), CodexxError>,
)
    requires
        call_ensures(catalog_is_missing, (kind, length), missing),
        call_ensures(confirm_catalog, (existing, catalog), confirmed),
        call_ensures(component_is_missing, (kind,), component),
        call_ensures(confirm_component, (kind,), checked),
    ensures
        missing is Ok <==> kind is Absent || (kind is File && length <= 1_048_576),
        missing is Ok ==> (missing->Ok_0 <==> kind is Absent),
        confirmed is Ok <==> parsed_json(existing@) is Ok && parsed_json(existing@)->Ok_0
            == json_value(*catalog),
        component is Ok <==> kind is Absent || kind is Directory,
        component is Ok ==> (component->Ok_0 <==> kind is Absent),
        checked is Ok <==> kind is Directory,
{
}

/// Generated catalogs are kept below the configuration's own directory.
pub proof fn law_catalogs_are_kept_below_the_configuration(directory: &str, r: Vec<String>)
    requires
        call_ensures(owned_catalog_directory, (directory,), r),
    ensures
        r@.len() == 3,
        r@[0]@ == directory@,
        r@[1]@ == ".codex-x"@,
        r@[2]@ == "model-catalogs"@,
{
}

} // verus!
