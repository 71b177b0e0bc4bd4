//! What holds of a provider's menu of models and of the catalog that is made of it.
use crate::error::CodexxError;
use crate::json::{field, json_value, text_of, JsonView};
use crate::providers::model_catalog::{
    base_instructions, build_catalog, distinct_rows, lists_model, mapping_views, model_entry,
    normalize_mappings, normalized_row, validate_name, MappingView, ProviderModelMapping,
};
use crate::text::{blank, is_control, trimmed};
use crate::toml::{document_entries, TomlView};
use serde_json::Value;
use toml_edit::DocumentMut;
use vstd::prelude::*;

verus! {

/// The entry of a model names it by its own name and shows it under its display name, at its place
/// in the menu. A window that the model names is the window of the entry, whatever the default is;
/// the default shows only for a model that names none.
pub proof fn law_entries_describe_their_model(
    mapping: &ProviderModelMapping,
    priority: usize,
    default_context: i64,
    r: Value,
)
    requires
        call_ensures(model_entry, (mapping, priority, default_context), r),
    ensures
        field(json_value(r), "slug"@) == Some(JsonView::Text(mapping.model@)),
        field(json_value(r), "display_name"@) == Some(JsonView::Text(mapping.display_name@)),
        field(json_value(r), "description"@) == Some(JsonView::Text(mapping.display_name@)),
        field(json_value(r), "priority"@) == Some(JsonView::Integer(priority as int)),
        mapping.context_window matches Some(window) ==> field(json_value(r), "context_window"@)
            == Some(JsonView::Integer(window as int)) && field(json_value(r), "max_context_window"@)
            == Some(JsonView::Integer(window as int)),
        mapping.context_window is None ==> field(json_value(r), "context_window"@) == Some(
            JsonView::Integer(default_context as int),
        ) && field(json_value(r), "max_context_window"@) == Some(
            JsonView::Integer(default_context as int),
        ),
{
    reveal_strlit("slug");
    reveal_strlit("display_name");
    reveal_strlit("description");
    reveal_strlit("base_instructions");
    reveal_strlit("default_reasoning_level");
    reveal_strlit("supported_reasoning_levels");
    reveal_strlit("shell_type");
    reveal_strlit("visibility");
    reveal_strlit("supported_in_api");
    reveal_strlit("priority");
    reveal_strlit("additional_speed_tiers");
    reveal_strlit("service_tiers");
    reveal_strlit("availability_nux");
    reveal_strlit("upgrade");
    reveal_strlit("supports_reasoning_summaries");
    reveal_strlit("supports_reasoning_summary_parameter");
    reveal_strlit("default_reasoning_summary");
    reveal_strlit("support_verbosity");
    reveal_strlit("default_verbosity");
    reveal_strlit("apply_patch_tool_type");
    reveal_strlit("truncation_policy");
    reveal_strlit("supports_parallel_tool_calls");
    reveal_strlit("supports_image_detail_original");
    reveal_strlit("context_window");
    reveal_strlit("max_context_window");
    reveal_strlit("effective_context_window_percent");
    reveal_strlit("experimental_supported_tools");
    reveal_strlit("input_modalities");
    reveal_strlit("supports_search_tool");
    reveal_strlit("use_responses_lite");
    reveal_strlit("prefer_websockets");
    assert("slug"@.len() == 4);
    assert("display_name"@.len() == 12);
    assert("description"@.len() == 11);
    assert("base_instructions"@.len() == 17);
    assert("default_reasoning_level"@.len() == 23);
    assert("supported_reasoning_levels"@.len() == 26);
    assert("shell_type"@.len() == 10);
    assert("visibility"@.len() == 10);
    assert("supported_in_api"@.len() == 16);
    assert("priority"@.len() == 8);
    assert("additional_speed_tiers"@.len() == 22);
    assert("service_tiers"@.len() == 13);
    assert("availability_nux"@.len() == 16);
    assert("upgrade"@.len() == 7);
    assert("supports_reasoning_summaries"@.len() == 28);
    assert("supports_reasoning_summary_parameter"@.len() == 36);
    assert("default_reasoning_summary"@.len() == 25);
    assert("support_verbosity"@.len() == 17);
    assert("default_verbosity"@.len() == 17);
    assert("apply_patch_tool_type"@.len() == 21);
    assert("truncation_policy"@.len() == 17);
    assert("supports_parallel_tool_calls"@.len() == 28);
    assert("supports_image_detail_original"@.len() == 30);
    assert("context_window"@.len() == 14);
    assert("max_context_window"@.len() == 18);
    assert("effective_context_window_percent"@.len() == 32);
    assert("experimental_supported_tools"@.len() == 28);
    assert("input_modalities"@.len() == 16);
    assert("supports_search_tool"@.len() == 20);
    assert("use_responses_lite"@.len() == 18);
    assert("prefer_websockets"@.len() == 17);
    assert("base_instructions"@[0] != "support_verbosity"@[0]);
    assert("base_instructions"@[0] != "default_verbosity"@[0]);
    assert("base_instructions"@[0] != "truncation_policy"@[0]);
    assert("base_instructions"@[0] != "prefer_websockets"@[0]);
    assert("shell_type"@[0] != "visibility"@[0]);
    assert("supported_in_api"@[0] != "availability_nux"@[0]);
    assert("supported_in_api"@[0] != "input_modalities"@[0]);
    assert("availability_nux"@[0] != "input_modalities"@[0]);
    assert("supports_reasoning_summaries"@[9] != "supports_parallel_tool_calls"@[9]);
    assert("supports_reasoning_summaries"@[0] != "experimental_supported_tools"@[0]);
    assert("support_verbosity"@[0] != "default_verbosity"@[0]);
    assert("support_verbosity"@[0] != "truncation_policy"@[0]);
    assert("support_verbosity"@[0] != "prefer_websockets"@[0]);
    assert("default_verbosity"@[0] != "truncation_policy"@[0]);
    assert("default_verbosity"@[0] != "prefer_websockets"@[0]);
    assert("truncation_policy"@[0] != "prefer_websockets"@[0]);
    assert("supports_parallel_tool_calls"@[0] != "experimental_supported_tools"@[0]);
    assert("max_context_window"@[0] != "use_responses_lite"@[0]);
}

/// Every model is listed alike, whatever it is: visible, usable through the interface, with text
/// alone as its input and no feature that a provider may lack.
pub proof fn law_entries_promise_nothing_special(
    mapping: &ProviderModelMapping,
    priority: usize,
    default_context: i64,
    r: Value,
)
    requires
        call_ensures(model_entry, (mapping, priority, default_context), r),
    ensures
        field(json_value(r), "visibility"@) == Some(JsonView::Text("list"@)),
        field(json_value(r), "supported_in_api"@) == Some(JsonView::Boolean(true)),
        field(json_value(r), "shell_type"@) == Some(JsonView::Text("shell_command"@)),
        field(json_value(r), "default_reasoning_level"@) == Some(JsonView::Text("high"@)),
        field(json_value(r), "supports_reasoning_summary_parameter"@) == Some(JsonView::Boolean(false)),
        field(json_value(r), "support_verbosity"@) == Some(JsonView::Boolean(false)),
        field(json_value(r), "supports_parallel_tool_calls"@) == Some(JsonView::Boolean(false)),
        field(json_value(r), "supports_image_detail_original"@) == Some(JsonView::Boolean(false)),
        field(json_value(r), "supports_search_tool"@) == Some(JsonView::Boolean(false)),
        field(json_value(r), "use_responses_lite"@) == Some(JsonView::Boolean(false)),
        field(json_value(r), "prefer_websockets"@) == Some(JsonView::Boolean(false)),
        field(json_value(r), "supports_reasoning_summaries"@) == Some(JsonView::Boolean(true)),
        field(json_value(r), "default_reasoning_summary"@) == Some(JsonView::Text("none"@)),
        field(json_value(r), "availability_nux"@) == Some(JsonView::Null),
        field(json_value(r), "upgrade"@) == Some(JsonView::Null),
        field(json_value(r), "default_verbosity"@) == Some(JsonView::Null),
        field(json_value(r), "apply_patch_tool_type"@) == Some(JsonView::Null),
        field(json_value(r), "additional_speed_tiers"@) == Some(JsonView::List(seq![])),
        field(json_value(r), "service_tiers"@) == Some(JsonView::List(seq![])),
        field(json_value(r), "experimental_supported_tools"@) == Some(JsonView::List(seq![])),
        field(json_value(r), "effective_context_window_percent"@) == Some(JsonView::Integer(95)),
        field(json_value(r), "input_modalities"@) == Some(JsonView::List(seq![JsonView::Text("text"@)])),
        field(json_value(r), "base_instructions"@) matches Some(JsonView::Text(text)) && text.len() > 0,
        field(json_value(r), "truncation_policy"@) matches Some(policy) && field(policy, "mode"@)
            == Some(JsonView::Text("bytes"@)) && field(policy, "limit"@) == Some(
            JsonView::Integer(10000),
        ),
{
    reveal_strlit("slug");
    reveal_strlit("display_name");
    reveal_strlit("description");
    reveal_strlit("base_instructions");
    reveal_strlit("default_reasoning_level");
    reveal_strlit("supported_reasoning_levels");
    reveal_strlit("shell_type");
    reveal_strlit("visibility");
    reveal_strlit("supported_in_api");
    reveal_strlit("priority");
    reveal_strlit("additional_speed_tiers");
    reveal_strlit("service_tiers");
    reveal_strlit("availability_nux");
    reveal_strlit("upgrade");
    reveal_strlit("supports_reasoning_summaries");
    reveal_strlit("supports_reasoning_summary_parameter");
    reveal_strlit("default_reasoning_summary");
    reveal_strlit("support_verbosity");
    reveal_strlit("default_verbosity");
    reveal_strlit("apply_patch_tool_type");
    reveal_strlit("truncation_policy");
    reveal_strlit("supports_parallel_tool_calls");
    reveal_strlit("supports_image_detail_original");
    reveal_strlit("context_window");
    reveal_strlit("max_context_window");
    reveal_strlit("effective_context_window_percent");
    reveal_strlit("experimental_supported_tools");
    reveal_strlit("input_modalities");
    reveal_strlit("supports_search_tool");
    reveal_strlit("use_responses_lite");
    reveal_strlit("prefer_websockets");
    assert("slug"@.len() == 4);
    assert("display_name"@.len() == 12);
    assert("description"@.len() == 11);
    assert("base_instructions"@.len() == 17);
    assert("default_reasoning_level"@.len() == 23);
    assert("supported_reasoning_levels"@.len() == 26);
    assert("shell_type"@.len() == 10);
    assert("visibility"@.len() == 10);
    assert("supported_in_api"@.len() == 16);
    assert("priority"@.len() == 8);
    assert("additional_speed_tiers"@.len() == 22);
    assert("service_tiers"@.len() == 13);
    assert("availability_nux"@.len() == 16);
    assert("upgrade"@.len() == 7);
    assert("supports_reasoning_summaries"@.len() == 28);
    assert("supports_reasoning_summary_parameter"@.len() == 36);
    assert("default_reasoning_summary"@.len() == 25);
    assert("support_verbosity"@.len() == 17);
    assert("default_verbosity"@.len() == 17);
    assert("apply_patch_tool_type"@.len() == 21);
    assert("truncation_policy"@.len() == 17);
    assert("supports_parallel_tool_calls"@.len() == 28);
    assert("supports_image_detail_original"@.len() == 30);
    assert("context_window"@.len() == 14);
    assert("max_context_window"@.len() == 18);
    assert("effective_context_window_percent"@.len() == 32);
    assert("experimental_supported_tools"@.len() == 28);
    assert("input_modalities"@.len() == 16);
    assert("supports_search_tool"@.len() == 20);
    assert("use_responses_lite"@.len() == 18);
    assert("prefer_websockets"@.len() == 17);
    assert("base_instructions"@[0] != "support_verbosity"@[0]);
    assert("base_instructions"@[0] != "default_verbosity"@[0]);
    assert("base_instructions"@[0] != "truncation_policy"@[0]);
    assert("base_instructions"@[0] != "prefer_websockets"@[0]);
    assert("shell_type"@[0] != "visibility"@[0]);
    assert("supported_in_api"@[0] != "availability_nux"@[0]);
    assert("supported_in_api"@[0] != "input_modalities"@[0]);
    assert("availability_nux"@[0] != "input_modalities"@[0]);
    assert("supports_reasoning_summaries"@[9] != "supports_parallel_tool_calls"@[9]);
    assert("supports_reasoning_summaries"@[0] != "experimental_supported_tools"@[0]);
    assert("support_verbosity"@[0] != "default_verbosity"@[0]);
    assert("support_verbosity"@[0] != "truncation_policy"@[0]);
    assert("support_verbosity"@[0] != "prefer_websockets"@[0]);
    assert("default_verbosity"@[0] != "truncation_policy"@[0]);
    assert("default_verbosity"@[0] != "prefer_websockets"@[0]);
    assert("truncation_policy"@[0] != "prefer_websockets"@[0]);
    assert("supports_parallel_tool_calls"@[0] != "experimental_supported_tools"@[0]);
    assert("max_context_window"@[0] != "use_responses_lite"@[0]);
    reveal_strlit("mode");
    reveal_strlit("limit");
    assert("mode"@.len() == 4 && "limit"@.len() == 5);
    reveal_strlit("You are a coding assistant working with the user in a shared workspace. Use the available tools to inspect and edit project files, follow the user's requirements, and verify your changes.");
}

/// Every model offers the same eight efforts, in rising order, the first of which is to think not at
/// all.
pub proof fn law_entries_offer_every_effort(
    mapping: &ProviderModelMapping,
    priority: usize,
    default_context: i64,
    r: Value,
)
    requires
        call_ensures(model_entry, (mapping, priority, default_context), r),
    ensures
        field(json_value(r), "supported_reasoning_levels"@) matches Some(JsonView::List(levels))
            && levels.len() == 8 && text_of(field(levels[0], "effort"@)) == Some("none"@) && text_of(
            field(levels[1], "effort"@),
        ) == Some("minimal"@) && text_of(field(levels[2], "effort"@)) == Some("low"@) && text_of(
            field(levels[3], "effort"@),
        ) == Some("medium"@) && text_of(field(levels[4], "effort"@)) == Some("high"@) && text_of(
            field(levels[5], "effort"@),
        ) == Some("xhigh"@) && text_of(field(levels[6], "effort"@)) == Some("max"@) && text_of(
            field(levels[7], "effort"@),
        ) == Some("ultra"@),
{
    reveal_strlit("slug");
    reveal_strlit("display_name");
    reveal_strlit("description");
    reveal_strlit("base_instructions");
    reveal_strlit("default_reasoning_level");
    reveal_strlit("supported_reasoning_levels");
    reveal_strlit("shell_type");
    reveal_strlit("visibility");
    reveal_strlit("supported_in_api");
    reveal_strlit("priority");
    reveal_strlit("additional_speed_tiers");
    reveal_strlit("service_tiers");
    reveal_strlit("availability_nux");
    reveal_strlit("upgrade");
    reveal_strlit("supports_reasoning_summaries");
    reveal_strlit("supports_reasoning_summary_parameter");
    reveal_strlit("default_reasoning_summary");
    reveal_strlit("support_verbosity");
    reveal_strlit("default_verbosity");
    reveal_strlit("apply_patch_tool_type");
    reveal_strlit("truncation_policy");
    reveal_strlit("supports_parallel_tool_calls");
    reveal_strlit("supports_image_detail_original");
    reveal_strlit("context_window");
    reveal_strlit("max_context_window");
    reveal_strlit("effective_context_window_percent");
    reveal_strlit("experimental_supported_tools");
    reveal_strlit("input_modalities");
    reveal_strlit("supports_search_tool");
    reveal_strlit("use_responses_lite");
    reveal_strlit("prefer_websockets");
    assert("slug"@.len() == 4);
    assert("display_name"@.len() == 12);
    assert("description"@.len() == 11);
    assert("base_instructions"@.len() == 17);
    assert("default_reasoning_level"@.len() == 23);
    assert("supported_reasoning_levels"@.len() == 26);
    assert("shell_type"@.len() == 10);
    assert("visibility"@.len() == 10);
    assert("supported_in_api"@.len() == 16);
    assert("priority"@.len() == 8);
    assert("additional_speed_tiers"@.len() == 22);
    assert("service_tiers"@.len() == 13);
    assert("availability_nux"@.len() == 16);
    assert("upgrade"@.len() == 7);
    assert("supports_reasoning_summaries"@.len() == 28);
    assert("supports_reasoning_summary_parameter"@.len() == 36);
    assert("default_reasoning_summary"@.len() == 25);
    assert("support_verbosity"@.len() == 17);
    assert("default_verbosity"@.len() == 17);
    assert("apply_patch_tool_type"@.len() == 21);
    assert("truncation_policy"@.len() == 17);
    assert("supports_parallel_tool_calls"@.len() == 28);
    assert("supports_image_detail_original"@.len() == 30);
    assert("context_window"@.len() == 14);
    assert("max_context_window"@.len() == 18);
    assert("effective_context_window_percent"@.len() == 32);
    assert("experimental_supported_tools"@.len() == 28);
    assert("input_modalities"@.len() == 16);
    assert("supports_search_tool"@.len() == 20);
    assert("use_responses_lite"@.len() == 18);
    assert("prefer_websockets"@.len() == 17);
    assert("base_instructions"@[0] != "support_verbosity"@[0]);
    assert("base_instructions"@[0] != "default_verbosity"@[0]);
    assert("base_instructions"@[0] != "truncation_policy"@[0]);
    assert("base_instructions"@[0] != "prefer_websockets"@[0]);
    assert("shell_type"@[0] != "visibility"@[0]);
    assert("supported_in_api"@[0] != "availability_nux"@[0]);
    assert("supported_in_api"@[0] != "input_modalities"@[0]);
    assert("availability_nux"@[0] != "input_modalities"@[0]);
    assert("supports_reasoning_summaries"@[9] != "supports_parallel_tool_calls"@[9]);
    assert("supports_reasoning_summaries"@[0] != "experimental_supported_tools"@[0]);
    assert("support_verbosity"@[0] != "default_verbosity"@[0]);
    assert("support_verbosity"@[0] != "truncation_policy"@[0]);
    assert("support_verbosity"@[0] != "prefer_websockets"@[0]);
    assert("default_verbosity"@[0] != "truncation_policy"@[0]);
    assert("default_verbosity"@[0] != "prefer_websockets"@[0]);
    assert("truncation_policy"@[0] != "prefer_websockets"@[0]);
    assert("supports_parallel_tool_calls"@[0] != "experimental_supported_tools"@[0]);
    assert("max_context_window"@[0] != "use_responses_lite"@[0]);
    reveal_strlit("effort");
    assert("effort"@.len() == 6);
}

/// A catalog lists every model of the menu once, in the order of the menu, each under its name and
/// with its own window; the window of a model that names none is the one that the configuration
/// states, if that is one from 1 to ten millions, and 128000 otherwise.
pub proof fn law_catalogs_list_the_menu(
    mappings: &[ProviderModelMapping],
    doc: &DocumentMut,
    r: Value,
    i: int,
)
    requires
        call_ensures(build_catalog, (mappings, doc), r),
    ensures
        field(json_value(r), "models"@) matches Some(JsonView::List(models)) && models.len()
            == mappings@.len(),
        0 <= i < mappings@.len() ==> {
            let entry = field(json_value(r), "models"@)->0->List_0[i];
            let stated = document_entries(*doc);
            let window = match mappings@[i].context_window {
                Some(window) => window as int,
                None => if stated.contains_key("model_context_window"@) && (
                stated["model_context_window"@] matches TomlView::Integer(window) && 1 <= window
                    <= 10_000_000) {
                    stated["model_context_window"@]->Integer_0 as int
                } else {
                    128_000
                },
            };
            &&& field(entry, "slug"@) == Some(JsonView::Text(mappings@[i].model@))
            &&& field(entry, "display_name"@) == Some(JsonView::Text(mappings@[i].display_name@))
            &&& field(entry, "priority"@) == Some(JsonView::Integer(i))
            &&& field(entry, "context_window"@) == Some(JsonView::Integer(window))
            &&& field(entry, "max_context_window"@) == Some(JsonView::Integer(window))
        },
{
    let rows = mapping_views(mappings@);
    assert(rows.len() == mappings@.len());
    if 0 <= i < mappings@.len() {
        assert(rows[i] == mappings@[i]@);
        reveal_strlit("slug");
        reveal_strlit("display_name");
        reveal_strlit("description");
        reveal_strlit("base_instructions");
        reveal_strlit("default_reasoning_level");
        reveal_strlit("supported_reasoning_levels");
        reveal_strlit("shell_type");
        reveal_strlit("visibility");
        reveal_strlit("supported_in_api");
        reveal_strlit("priority");
        reveal_strlit("additional_speed_tiers");
        reveal_strlit("service_tiers");
        reveal_strlit("availability_nux");
        reveal_strlit("upgrade");
        reveal_strlit("supports_reasoning_summaries");
        reveal_strlit("supports_reasoning_summary_parameter");
        reveal_strlit("default_reasoning_summary");
        reveal_strlit("support_verbosity");
        reveal_strlit("default_verbosity");
        reveal_strlit("apply_patch_tool_type");
        reveal_strlit("truncation_policy");
        reveal_strlit("supports_parallel_tool_calls");
        reveal_strlit("supports_image_detail_original");
        reveal_strlit("context_window");
        reveal_strlit("max_context_window");
        reveal_strlit("effective_context_window_percent");
        reveal_strlit("experimental_supported_tools");
        reveal_strlit("input_modalities");
        reveal_strlit("supports_search_tool");
        reveal_strlit("use_responses_lite");
        reveal_strlit("prefer_websockets");
        assert("slug"@.len() == 4);
        assert("display_name"@.len() == 12);
        assert("description"@.len() == 11);
        assert("base_instructions"@.len() == 17);
        assert("default_reasoning_level"@.len() == 23);
        assert("supported_reasoning_levels"@.len() == 26);
        assert("shell_type"@.len() == 10);
        assert("visibility"@.len() == 10);
        assert("supported_in_api"@.len() == 16);
        assert("priority"@.len() == 8);
        assert("additional_speed_tiers"@.len() == 22);
        assert("service_tiers"@.len() == 13);
        assert("availability_nux"@.len() == 16);
        assert("upgrade"@.len() == 7);
        assert("supports_reasoning_summaries"@.len() == 28);
        assert("supports_reasoning_summary_parameter"@.len() == 36);
        assert("default_reasoning_summary"@.len() == 25);
        assert("support_verbosity"@.len() == 17);
        assert("default_verbosity"@.len() == 17);
        assert("apply_patch_tool_type"@.len() == 21);
        assert("truncation_policy"@.len() == 17);
        assert("supports_parallel_tool_calls"@.len() == 28);
        assert("supports_image_detail_original"@.len() == 30);
        assert("context_window"@.len() == 14);
        assert("max_context_window"@.len() == 18);
        assert("effective_context_window_percent"@.len() == 32);
        assert("experimental_supported_tools"@.len() == 28);
        assert("input_modalities"@.len() == 16);
        assert("supports_search_tool"@.len() == 20);
        assert("use_responses_lite"@.len() == 18);
        assert("prefer_websockets"@.len() == 17);
        assert("base_instructions"@[0] != "support_verbosity"@[0]);
        assert("base_instructions"@[0] != "default_verbosity"@[0]);
        assert("base_instructions"@[0] != "truncation_policy"@[0]);
        assert("base_instructions"@[0] != "prefer_websockets"@[0]);
        assert("shell_type"@[0] != "visibility"@[0]);
        assert("supported_in_api"@[0] != "availability_nux"@[0]);
        assert("supported_in_api"@[0] != "input_modalities"@[0]);
        assert("availability_nux"@[0] != "input_modalities"@[0]);
        assert("supports_reasoning_summaries"@[9] != "supports_parallel_tool_calls"@[9]);
        assert("supports_reasoning_summaries"@[0] != "experimental_supported_tools"@[0]);
        assert("support_verbosity"@[0] != "default_verbosity"@[0]);
        assert("support_verbosity"@[0] != "truncation_policy"@[0]);
        assert("support_verbosity"@[0] != "prefer_websockets"@[0]);
        assert("default_verbosity"@[0] != "truncation_policy"@[0]);
        assert("default_verbosity"@[0] != "prefer_websockets"@[0]);
        assert("truncation_policy"@[0] != "prefer_websockets"@[0]);
        assert("supports_parallel_tool_calls"@[0] != "experimental_supported_tools"@[0]);
        assert("max_context_window"@[0] != "use_responses_lite"@[0]);
    }
}

proof fn lemma_rows_stay(rows: Seq<MappingView>, i: int) -> (at: int)
    requires
        distinct_rows(rows) is Ok,
        0 <= i < rows.len(),
    ensures
        ({
            let done = distinct_rows(rows)->Ok_0;
            &&& 0 <= at < done.len()
            &&& done[at].model == trimmed(rows[i].model)
            &&& !blank(rows[i].model)
            &&& (forall|j: int| 0 <= j < i ==> trimmed(#[trigger] rows[j].model) != trimmed(
                rows[i].model,
            )) ==> done[at].context_window == rows[i].context_window && done[at].display_name == (
            if blank(rows[i].display_name) {
                trimmed(rows[i].model)
            } else {
                trimmed(rows[i].display_name)
            })
        }),
    decreases rows.len(),
{
    let head = rows.drop_last();
    let done = distinct_rows(head)->Ok_0;
    let all = distinct_rows(rows)->Ok_0;
    if i < rows.len() - 1 {
        let at = lemma_rows_stay(head, i);
        assert(head[i] == rows[i]);
        if forall|j: int| 0 <= j < i ==> trimmed(#[trigger] rows[j].model) != trimmed(rows[i].model) {
            assert forall|j: int| 0 <= j < i implies trimmed(#[trigger] head[j].model) != trimmed(
                head[i].model,
            ) by {
                assert(head[j] == rows[j]);
            }
        }
        assert(all[at] == done[at]);
        at
    } else {
        let row = normalized_row(rows.last())->Ok_0;
        if lists_model(done, row.model) {
            let at = choose|at: int| 0 <= at < done.len() && #[trigger] done[at].model == row.model;
            let j = lemma_rows_come_from_somewhere(head, at);
            assert(head[j] == rows[j]);
            assert(trimmed(rows[j].model) == trimmed(rows[i].model));
            at
        } else {
            done.len() as int
        }
    }
}

proof fn lemma_rows_come_from_somewhere(rows: Seq<MappingView>, at: int) -> (i: int)
    requires
        distinct_rows(rows) is Ok,
        0 <= at < distinct_rows(rows)->Ok_0.len(),
    ensures
        ({
            let row = distinct_rows(rows)->Ok_0[at];
            &&& 0 <= i < rows.len()
            &&& row.model == trimmed(rows[i].model)
            &&& row.context_window == rows[i].context_window
            &&& row.context_window matches Some(window) ==> 1 <= window <= 10_000_000
        }),
    decreases rows.len(),
{
    let done = distinct_rows(rows.drop_last())->Ok_0;
    if at < done.len() {
        lemma_rows_come_from_somewhere(rows.drop_last(), at)
    } else {
        rows.len() - 1
    }
}

/// A menu that is accepted lists every model that it was given, by its trimmed name, with the window
/// and the name that its first row gives it; and it lists nothing else but the default model.
pub proof fn law_menus_keep_every_model(
    rows: &[ProviderModelMapping],
    default_model: &str,
    r: Result<Vec<ProviderModelMapping>, CodexxError>,
    i: int,
    k: int,
)
    requires
        call_ensures(normalize_mappings, (rows, default_model), r),
        r is Ok,
    ensures
        rows@.len() == 0 ==> r->Ok_0@.len() == 0,
        0 <= i < rows@.len() ==> exists|at: int|
            0 <= at < r->Ok_0@.len() && (#[trigger] r->Ok_0@[at]).model@ == trimmed(
                rows@[i].model@,
            ) && ((forall|j: int|
                0 <= j < i ==> trimmed((#[trigger] rows@[j]).model@) != trimmed(rows@[i].model@))
                ==> r->Ok_0@[at].context_window == rows@[i].context_window
                && r->Ok_0@[at].display_name@ == (if blank(rows@[i].display_name@) {
                trimmed(rows@[i].model@)
            } else {
                trimmed(rows@[i].display_name@)
            })),
        0 <= k < r->Ok_0@.len() ==> r->Ok_0@[k].model@ == trimmed(default_model@) || exists|j: int|
            0 <= j < rows@.len() && trimmed((#[trigger] rows@[j]).model@) == r->Ok_0@[k].model@
                && rows@[j].context_window == r->Ok_0@[k].context_window,
        rows@.len() > 0 ==> exists|at: int|
            0 <= at < r->Ok_0@.len() && (#[trigger] r->Ok_0@[at]).model@ == trimmed(default_model@),
{
    let given = mapping_views(rows@);
    let menu = mapping_views(r->Ok_0@);
    assert forall|j: int| 0 <= j < rows@.len() implies given[j] == (#[trigger] rows@[j])@ by {}
    assert forall|j: int| 0 <= j < menu.len() implies menu[j] == (#[trigger] r->Ok_0@[j])@ by {}
    if rows@.len() > 0 {
        let done = distinct_rows(given)->Ok_0;
        let first: int = if lists_model(done, trimmed(default_model@)) {
            0
        } else {
            1
        };
        assert forall|at: int| 0 <= at < done.len() implies #[trigger] menu[at + first]
            == done[at] by {}
        if 0 <= i < rows@.len() {
            let at = lemma_rows_stay(given, i);
            if forall|j: int|
                0 <= j < i ==> trimmed((#[trigger] rows@[j]).model@) != trimmed(rows@[i].model@) {
                assert forall|j: int| 0 <= j < i implies trimmed(#[trigger] given[j].model)
                    != trimmed(given[i].model) by {
                    assert(given[j] == rows@[j]@);
                }
            }
            assert(menu[at + first] == r->Ok_0@[at + first]@);
        }
        if first <= k < menu.len() {
            let j = lemma_rows_come_from_somewhere(given, k - first);
            assert(menu[k - first + first] == done[k - first]);
            assert(given[j] == rows@[j]@);
        }
        if first == 1 {
            assert(r->Ok_0@[0].model@ == menu[0].model);
        } else {
            let at = choose|at: int|
                0 <= at < done.len() && #[trigger] done[at].model == trimmed(default_model@);
            assert(menu[at + first] == done[at]);
            assert(r->Ok_0@[at].model@ == menu[at].model);
        }
    }
}

/// A name is accepted exactly where something of it remains once it is trimmed, at most 200
/// characters and no control character; what is accepted is the trimmed name.
pub proof fn law_names_are_accepted_as_they_are(
    name: &str,
    label: &str,
    r: Result<String, CodexxError>,
)
    requires
        call_ensures(validate_name, (name, label), r),
    ensures
        r matches Ok(found) ==> found@ == trimmed(name@),
        r is Ok <==> 0 < trimmed(name@).len() <= 200 && forall|i: int|
            0 <= i < trimmed(name@).len() ==> !(#[trigger] trimmed(name@)[i] as u32 <= 31 || 127
                <= trimmed(name@)[i] as u32 <= 159),
{
    let text = trimmed(name@);
    if r is Ok {
        assert forall|i: int| 0 <= i < text.len() implies !(#[trigger] text[i] as u32 <= 31 || 127
            <= text[i] as u32 <= 159) by {
            assert(!is_control(text[i]));
        }
    } else if 0 < text.len() <= 200 {
        let i = choose|i: int| 0 <= i < text.len() && is_control(#[trigger] text[i]);
        assert(text[i] as u32 <= 31 || 127 <= text[i] as u32 <= 159);
    }
}

/// A menu of more than 64 rows, or with a window that is none, is refused.
pub proof fn law_unusable_menus_are_refused(
    rows: &[ProviderModelMapping],
    default_model: &str,
    r: Result<Vec<ProviderModelMapping>, CodexxError>,
    i: int,
)
    requires
        call_ensures(normalize_mappings, (rows, default_model), r),
    ensures
        rows@.len() > 64 ==> r is Err,
        0 <= i < rows@.len() && (blank(rows@[i].model@) || (
        rows@[i].context_window matches Some(window) && !(1 <= window <= 10_000_000))) ==> r is Err,
{
    let given = mapping_views(rows@);
    if r is Ok && 0 <= i < rows@.len() {
        assert(given[i] == rows@[i]@);
        lemma_accepted_rows(given, i);
    }
}

proof fn lemma_accepted_rows(rows: Seq<MappingView>, i: int)
    requires
        distinct_rows(rows) is Ok,
        0 <= i < rows.len(),
    ensures
        normalized_row(rows[i]) is Ok,
    decreases rows.len(),
{
    if i < rows.len() - 1 {
        lemma_accepted_rows(rows.drop_last(), i);
    }
}

} // verus!
