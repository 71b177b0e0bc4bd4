//! What the names of catalogs tell, and what becomes of a catalog that is there already.
use crate::digest::{hex_digit, hex_text, sha256};
use crate::error::ErrorView;
use crate::json::{field, json_bytes, parsed_json, reads_back, JsonView};
use crate::providers::model_catalog::{
    catalog_step, model_entry_view, named_catalog, named_content, owned_catalog, ownership_mark,
    verified_catalog, verified_ownership, window_of, CatalogStepView, MAX_CATALOG_BYTES,
    MappingView,
};
use crate::text::utf8;
use crate::toml::{Entries, TomlView};
use vstd::prelude::*;

verus! {

proof fn lemma_hex_tells_apart(left: Seq<u8>, right: Seq<u8>)
    requires
        hex_text(left) == hex_text(right),
    ensures
        left == right,
{
    assert(hex_text(left).len() == 2 * left.len() && hex_text(right).len() == 2 * right.len());
    assert forall|i: int| 0 <= i < left.len() implies left[i] == right[i] by {
        let a = left[i] as int;
        let b = right[i] as int;
        assert((2 * i) % 2 == 0 && (2 * i) / 2 == i && (2 * i + 1) % 2 == 1 && (2 * i + 1) / 2 == i);
        assert(hex_text(left)[2 * i] == hex_digit(a / 16));
        assert(hex_text(right)[2 * i] == hex_digit(b / 16));
        assert(hex_text(left)[2 * i + 1] == hex_digit(a % 16));
        assert(hex_text(right)[2 * i + 1] == hex_digit(b % 16));
        assert(0 <= a / 16 < 16 && 0 <= a % 16 < 16 && 0 <= b / 16 < 16 && 0 <= b % 16 < 16);
        lemma_digits_differ(a / 16, b / 16);
        lemma_digits_differ(a % 16, b % 16);
    }
    assert(left =~= right);
}

proof fn lemma_digits_differ(a: int, b: int)
    requires
        0 <= a < 16,
        0 <= b < 16,
        hex_digit(a) == hex_digit(b),
    ensures
        a == b,
{
    assert(hex_digit(a) as int == if a < 10 {
        48 + a
    } else {
        87 + a
    });
    assert(hex_digit(b) as int == if b < 10 {
        48 + b
    } else {
        87 + b
    });
}

/// What a catalog entry says of its model.
proof fn lemma_entry_fields(mapping: MappingView, priority: int, context: i64)
    ensures
        ({
            let entry = model_entry_view(mapping, priority, context);
            &&& field(entry, "slug"@) == Some(JsonView::Text(mapping.model))
            &&& field(entry, "display_name"@) == Some(JsonView::Text(mapping.display_name))
            &&& field(entry, "context_window"@) == Some(
                JsonView::Integer(window_of(mapping, context)),
            )
        }),
{
    reveal_strlit("slug");
    reveal_strlit("display_name");
    reveal_strlit("description");
    reveal_strlit("base_instructions");
    reveal_strlit("default_reasoning_level");
    reveal_strlit("supported_reasoning_levels");
    reveal_strlit("shell_type");
    reveal_strlit("visibility");
    reveal_strlit("supported_in_api");
    reveal_strlit("priority");
    reveal_strlit("additional_speed_tiers");
    reveal_strlit("service_tiers");
    reveal_strlit("availability_nux");
    reveal_strlit("upgrade");
    reveal_strlit("supports_reasoning_summaries");
    reveal_strlit("supports_reasoning_summary_parameter");
    reveal_strlit("default_reasoning_summary");
    reveal_strlit("support_verbosity");
    reveal_strlit("default_verbosity");
    reveal_strlit("apply_patch_tool_type");
    reveal_strlit("truncation_policy");
    reveal_strlit("supports_parallel_tool_calls");
    reveal_strlit("supports_image_detail_original");
    reveal_strlit("context_window");
    reveal_strlit("max_context_window");
    reveal_strlit("effective_context_window_percent");
    reveal_strlit("experimental_supported_tools");
    reveal_strlit("input_modalities");
    reveal_strlit("supports_search_tool");
    reveal_strlit("use_responses_lite");
    reveal_strlit("prefer_websockets");
    assert("slug"@.len() == 4 && "display_name"@.len() == 12 && "description"@.len() == 11);
    assert("base_instructions"@.len() == 17);
    assert("default_reasoning_level"@.len() == 23);
    assert("supported_reasoning_levels"@.len() == 26);
    assert("shell_type"@.len() == 10);
    assert("visibility"@.len() == 10);
    assert("supported_in_api"@.len() == 16);
    assert("priority"@.len() == 8);
    assert("additional_speed_tiers"@.len() == 22);
    assert("service_tiers"@.len() == 13);
    assert("availability_nux"@.len() == 16);
    assert("upgrade"@.len() == 7);
    assert("supports_reasoning_summaries"@.len() == 28);
    assert("supports_reasoning_summary_parameter"@.len() == 36);
    assert("default_reasoning_summary"@.len() == 25);
    assert("support_verbosity"@.len() == 17);
    assert("default_verbosity"@.len() == 17);
    assert("apply_patch_tool_type"@.len() == 21);
    assert("truncation_policy"@.len() == 17);
    assert("supports_parallel_tool_calls"@.len() == 28);
    assert("supports_image_detail_original"@.len() == 30);
    assert("context_window"@.len() == 14);
    assert("max_context_window"@.len() == 18);
    assert("effective_context_window_percent"@.len() == 32);
    assert("experimental_supported_tools"@.len() == 28);
    assert("input_modalities"@.len() == 16);
    assert("supports_search_tool"@.len() == 20);
    assert("use_responses_lite"@.len() == 18);
    assert("prefer_websockets"@.len() == 17);
}

/// Catalogs that hold the same list the same models under the same names with the same context
/// windows, and their providers have the same digest.
pub proof fn law_equal_catalogs_have_equal_menus(
    left: Seq<MappingView>,
    left_context: i64,
    left_provider: Seq<char>,
    right: Seq<MappingView>,
    right_context: i64,
    right_provider: Seq<char>,
)
    requires
        owned_catalog(left, left_context, left_provider) == owned_catalog(
            right,
            right_context,
            right_provider,
        ),
    ensures
        left.len() == right.len(),
        forall|i: int|
            0 <= i < left.len() ==> (#[trigger] left[i]).model == right[i].model
                && left[i].display_name == right[i].display_name && window_of(left[i], left_context)
                == window_of(right[i], right_context),
        sha256(utf8(left_provider)) == sha256(utf8(right_provider)),
{
    reveal_strlit("models");
    reveal_strlit("_codex_x_model_catalog");
    reveal_strlit("source");
    reveal_strlit("format");
    reveal_strlit("provider_hash");
    assert("models"@.len() == 6 && "_codex_x_model_catalog"@.len() == 22);
    let a = owned_catalog(left, left_context, left_provider);
    let b = owned_catalog(right, right_context, right_provider);
    let listed = Seq::new(left.len(), |i: int| model_entry_view(left[i], i, left_context));
    let others = Seq::new(right.len(), |i: int| model_entry_view(right[i], i, right_context));
    assert(field(a, "models"@) == Some(JsonView::List(listed)));
    assert(field(b, "models"@) == Some(JsonView::List(others)));
    let found = JsonView::List(listed);
    assert(found == JsonView::List(others));
    assert(found->List_0 == listed && found->List_0 == others);
    assert(listed.len() == left.len() && others.len() == right.len());
    assert forall|i: int| 0 <= i < left.len() implies (#[trigger] left[i]).model == right[i].model
        && left[i].display_name == right[i].display_name && window_of(left[i], left_context)
        == window_of(right[i], right_context) by {
        lemma_entry_fields(left[i], i, left_context);
        lemma_entry_fields(right[i], i, right_context);
        assert(listed[i] == others[i]);
    }
    assert(field(a, "_codex_x_model_catalog"@) == Some(ownership_mark(left_provider)));
    assert(field(b, "_codex_x_model_catalog"@) == Some(ownership_mark(right_provider)));
    assert(field(ownership_mark(left_provider), "provider_hash"@) == Some(
        JsonView::Text(hex_text(sha256(utf8(left_provider)))),
    ));
    assert(field(ownership_mark(right_provider), "provider_hash"@) == Some(
        JsonView::Text(hex_text(sha256(utf8(right_provider)))),
    ));
    lemma_hex_tells_apart(sha256(utf8(left_provider)), sha256(utf8(right_provider)));
}

/// The name of a catalog tells it from every other, unless the digests of two different contents
/// are the same.
pub proof fn law_catalog_names_tell_catalogs_apart(left: JsonView, right: JsonView)
    requires
        reads_back(left),
        reads_back(right),
        named_catalog(left) == named_catalog(right),
    ensures
        left == right || {
            let a = named_content(json_bytes(left)->0);
            let b = named_content(json_bytes(right)->0);
            a != b && sha256(a) == sha256(b)
        },
{
    let x = json_bytes(left)->0;
    let y = json_bytes(right)->0;
    let a = hex_text(sha256(named_content(x)));
    let b = hex_text(sha256(named_content(y)));
    assert(a + ".json"@ == b + ".json"@);
    assert((a + ".json"@).len() == a.len() + ".json"@.len());
    assert((b + ".json"@).len() == b.len() + ".json"@.len());
    assert(a =~= (a + ".json"@).take(a.len() as int));
    assert(b =~= (b + ".json"@).take(b.len() as int));
    lemma_hex_tells_apart(sha256(named_content(x)), sha256(named_content(y)));
    if named_content(x) == named_content(y) {
        let skipped = named_content(x).len() - x.len();
        assert(x =~= named_content(x).skip(skipped));
        assert(y =~= named_content(y).skip(skipped));
    }
}

/// Catalogs of different menus, or of providers with different digests, have different names, unless
/// the digests of their two contents are the same although the contents differ.
pub proof fn law_other_menus_get_other_names(
    left: Seq<MappingView>,
    left_context: i64,
    left_provider: Seq<char>,
    right: Seq<MappingView>,
    right_context: i64,
    right_provider: Seq<char>,
)
    requires
        reads_back(owned_catalog(left, left_context, left_provider)),
        reads_back(owned_catalog(right, right_context, right_provider)),
        ({
            let a = named_content(
                json_bytes(owned_catalog(left, left_context, left_provider))->0,
            );
            let b = named_content(
                json_bytes(owned_catalog(right, right_context, right_provider))->0,
            );
            sha256(a) == sha256(b) ==> a == b
        }),
        sha256(utf8(left_provider)) != sha256(utf8(right_provider)) || left.len() != right.len()
            || exists|i: int|
            0 <= i < left.len() && ((#[trigger] left[i]).model != right[i].model
                || left[i].display_name != right[i].display_name || window_of(left[i], left_context)
                != window_of(right[i], right_context)),
    ensures
        named_catalog(owned_catalog(left, left_context, left_provider)) != named_catalog(
            owned_catalog(right, right_context, right_provider),
        ),
{
    let a = owned_catalog(left, left_context, left_provider);
    let b = owned_catalog(right, right_context, right_provider);
    if named_catalog(a) == named_catalog(b) {
        law_catalog_names_tell_catalogs_apart(a, b);
        law_equal_catalogs_have_equal_menus(
            left,
            left_context,
            left_provider,
            right,
            right_context,
            right_provider,
        );
    }
}

/// A catalog that was published, and whose file still parses to it, is published again as it is: the
/// same file is decided on and recognised as a generated one under its name, and pointing to it
/// again changes nothing.
pub proof fn law_untouched_catalogs_are_accepted_again(
    provider_id: Seq<char>,
    rows: Seq<MappingView>,
    model: Seq<char>,
    entries: Entries,
    filename: Seq<char>,
    catalog: JsonView,
    path: Seq<char>,
    content: Seq<u8>,
)
    requires
        catalog_step(provider_id, rows, model, entries) == Ok::<CatalogStepView, ErrorView>(
            CatalogStepView::Publish { filename, catalog },
        ),
        verified_catalog(catalog, filename),
        content.len() <= MAX_CATALOG_BYTES,
        parsed_json(content) == Ok::<JsonView, Seq<char>>(catalog),
    ensures
        ({
            let pointed = entries.insert("model_catalog_json"@, TomlView::Text(path));
            &&& catalog_step(provider_id, rows, model, pointed) == catalog_step(
                provider_id,
                rows,
                model,
                entries,
            )
            &&& verified_ownership(content, filename)
            &&& pointed.insert("model_catalog_json"@, TomlView::Text(path)) == pointed
        }),
{
    reveal_strlit("model_catalog_json");
    reveal_strlit("model_context_window");
    assert("model_catalog_json"@.len() == 18 && "model_context_window"@.len() == 20);
    let pointed = entries.insert("model_catalog_json"@, TomlView::Text(path));
    assert(pointed.insert("model_catalog_json"@, TomlView::Text(path)) =~= pointed);
}

} // verus!
