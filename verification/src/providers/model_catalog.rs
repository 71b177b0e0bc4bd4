//! Provider-local model menus, written as an external catalog that Codex reads.
//!
//! A display name never changes the model name sent to the provider. Catalogs are immutable: the
//! name of a catalog file is a digest of its content.
use crate::digest::{hex_of, hex_text, sha256, sha256_of};
use crate::error::{config, config2, CodexxError, ErrorView};
use crate::json::{
    empty_object, field, get_field, json_boolean, json_bytes, json_integer, json_list, json_null,
    json_size, json_text, json_value, lemma_nests_insert, lemma_whole_insert, list_length,
    nests_within, no_fields, parse_json, parsed_json, reads_back, same_json, set_field, text_of,
    whole, with_field, write_json, JsonView,
};
use crate::text::{
    add_bytes, add_utf8, blank, char_is_control, chars_of, hash_shaped, is_blank, is_control,
    is_hash, is_hex_digit, joined, lemma_trimmed_twice, opt_view, same_opt, same_text, strip_suffix,
    trim, trimmed, utf8,
};
use crate::toml::{
    document_entries, document_spellings, get_text, set_text, text_entry, Entries, TomlView,
};
use serde_json::Value;
use toml_edit::DocumentMut;
use vstd::prelude::*;

verus! {

/// The most models that one provider may list.
pub const MAX_MAPPINGS: usize = 64;

/// The most characters of a model's name.
pub const MAX_NAME_CHARS: usize = 200;

/// The largest context window.
pub const MAX_CONTEXT_WINDOW: i64 = 10_000_000;

/// The context window of a model for which nothing else is known.
pub const DEFAULT_CONTEXT_WINDOW: i64 = 128_000;

/// The largest catalog file that is read.
pub const MAX_CATALOG_BYTES: usize = 1_048_576;

/// One model of a provider's menu.
#[derive(Debug, PartialEq, Eq)]
pub struct ProviderModelMapping {
    pub model: String,
    pub display_name: String,
    pub context_window: Option<i64>,
}

/// One model of a provider's menu, as contracts speak of it.
pub ghost struct MappingView {
    pub model: Seq<char>,
    pub display_name: Seq<char>,
    pub context_window: Option<i64>,
}

impl View for ProviderModelMapping {
    type V = MappingView;

    open spec fn view(&self) -> MappingView {
        MappingView {
            model: self.model@,
            display_name: self.display_name@,
            context_window: self.context_window,
        }
    }
}

impl Clone for ProviderModelMapping {
    fn clone(&self) -> (r: Self)
        ensures
            r@ == self@,
    {
        ProviderModelMapping {
            model: self.model.clone(),
            display_name: self.display_name.clone(),
            context_window: self.context_window,
        }
    }
}

/// The rows of a menu, as contracts speak of them.
pub open spec fn mapping_views(rows: Seq<ProviderModelMapping>) -> Seq<MappingView> {
    rows.map_values(|row: ProviderModelMapping| row@)
}

/// Whether a text that was trimmed is short enough and free of control characters.
pub open spec fn acceptable_name(name: Seq<char>) -> bool {
    name.len() <= MAX_NAME_CHARS && forall|i: int|
        0 <= i < name.len() ==> !is_control(#[trigger] name[i])
}

/// What `validate_name` makes of a name.
pub open spec fn validated_name(name: Seq<char>, label: Seq<char>) -> Result<Seq<char>, ErrorView> {
    if blank(name) {
        Err(ErrorView::Config(label + "不能为空"@))
    } else if !acceptable_name(trimmed(name)) {
        Err(ErrorView::Config(label + "最多 200 个字符，且不能包含控制字符"@))
    } else {
        Ok(trimmed(name))
    }
}

/// A name trimmed, if it is neither empty nor too long and holds no control character.
pub fn validate_name(name: &str, label: &str) -> (r: Result<String, CodexxError>)
    ensures
        match validated_name(name@, label@) {
            Ok(text) => r matches Ok(found) && found@ == text,
            Err(error) => r matches Err(found) && found@ == error,
        },
{
    let name = trim(name);
    if name.as_str().is_empty() {
        return Err(config2(label, "不能为空"));
    }
    let chars = chars_of(&name);
    let mut acceptable: bool = chars.len() <= MAX_NAME_CHARS;
    let mut i: usize = 0;
    while i < chars.len()
        invariant
            i <= chars@.len(),
            chars@ == name@,
            acceptable == (name@.len() <= MAX_NAME_CHARS && forall|j: int|
                0 <= j < i ==> !is_control(#[trigger] name@[j])),
        decreases chars@.len() - i,
    {
        if char_is_control(chars[i]) {
            acceptable = false;
        }
        i = i + 1;
    }
    if !acceptable {
        return Err(config2(label, "最多 200 个字符，且不能包含控制字符"));
    }
    Ok(name)
}

/// What a row of a menu becomes: its names trimmed, the model's name standing in for a missing
/// display name.
pub open spec fn normalized_row(row: MappingView) -> Result<MappingView, ErrorView> {
    match validated_name(row.model, "模型 ID"@) {
        Err(error) => Err(error),
        Ok(model) => {
            let display = if blank(row.display_name) {
                Ok(model)
            } else {
                validated_name(row.display_name, "模型显示名称"@)
            };
            match display {
                Err(error) => Err(error),
                Ok(display_name) => if row.context_window matches Some(window) && !(1 <= window
                    <= MAX_CONTEXT_WINDOW) {
                    Err(ErrorView::Config("模型上下文窗口须为 1 至 10000000 之间的整数"@))
                } else {
                    Ok(MappingView { model, display_name, context_window: row.context_window })
                },
            }
        },
    }
}

/// Whether a menu lists a model.
pub open spec fn lists_model(rows: Seq<MappingView>, model: Seq<char>) -> bool {
    exists|i: int| 0 <= i < rows.len() && #[trigger] rows[i].model == model
}

/// The rows of a menu, each normalized and each model at its first occurrence; or the first error.
pub open spec fn distinct_rows(rows: Seq<MappingView>) -> Result<Seq<MappingView>, ErrorView>
    decreases rows.len(),
{
    if rows.len() == 0 {
        Ok(seq![])
    } else {
        match distinct_rows(rows.drop_last()) {
            Err(error) => Err(error),
            Ok(done) => match normalized_row(rows.last()) {
                Err(error) => Err(error),
                Ok(row) => if lists_model(done, row.model) {
                    Ok(done)
                } else {
                    Ok(done.push(row))
                },
            },
        }
    }
}

/// The menu that a provider gets: the distinct rows, headed by the default model where they lack
/// it.
pub open spec fn normalized_mappings(rows: Seq<MappingView>, default_model: Seq<char>) -> Result<
    Seq<MappingView>,
    ErrorView,
> {
    if rows.len() == 0 {
        Ok(seq![])
    } else if rows.len() > MAX_MAPPINGS {
        Err(ErrorView::Config("最多添加 64 个模型"@))
    } else {
        match validated_name(default_model, "默认模型 ID"@) {
            Err(error) => Err(error),
            Ok(model) => match distinct_rows(rows) {
                Err(error) => Err(error),
                Ok(done) => if lists_model(done, model) {
                    Ok(done)
                } else if done.len() >= MAX_MAPPINGS {
                    Err(ErrorView::Config("模型列表需要包含默认模型，合计最多 64 个模型"@))
                } else {
                    Ok(
                        seq![
                            MappingView { model, display_name: model, context_window: None },
                        ] + done,
                    )
                },
            },
        }
    }
}

fn row_of(row: &ProviderModelMapping) -> (r: Result<ProviderModelMapping, CodexxError>)
    ensures
        match normalized_row(row@) {
            Ok(view) => r matches Ok(found) && found@ == view,
            Err(error) => r matches Err(found) && found@ == error,
        },
{
    let model = match validate_name(&row.model, "模型 ID") {
        Ok(model) => model,
        Err(error) => return Err(error),
    };
    let display_name = if is_blank(&row.display_name) {
        model.clone()
    } else {
        match validate_name(&row.display_name, "模型显示名称") {
            Ok(name) => name,
            Err(error) => return Err(error),
        }
    };
    if let Some(window) = row.context_window {
        if window < 1 || window > MAX_CONTEXT_WINDOW {
            return Err(config("模型上下文窗口须为 1 至 10000000 之间的整数"));
        }
    }
    Ok(ProviderModelMapping { model, display_name, context_window: row.context_window })
}

fn has_model(rows: &Vec<ProviderModelMapping>, model: &str) -> (r: bool)
    ensures
        r == lists_model(mapping_views(rows@), model@),
{
    let mut i: usize = 0;
    while i < rows.len()
        invariant
            i <= rows@.len(),
            forall|j: int| 0 <= j < i ==> mapping_views(rows@)[j].model != model@,
        decreases rows@.len() - i,
    {
        if same_text(&rows[i].model, model) {
            assert(mapping_views(rows@)[i as int].model == model@);
            return true;
        }
        i = i + 1;
    }
    false
}

/// The menu that a provider gets from the rows it was given.
pub fn normalize_mappings(rows: &[ProviderModelMapping], default_model: &str) -> (r: Result<
    Vec<ProviderModelMapping>,
    CodexxError,
>)
    ensures
        match normalized_mappings(mapping_views(rows@), default_model@) {
            Ok(view) => r matches Ok(found) && mapping_views(found@) == view,
            Err(error) => r matches Err(found) && found@ == error,
        },
{
    if rows.len() == 0 {
        let none: Vec<ProviderModelMapping> = Vec::new();
        assert(mapping_views(none@) =~= seq![]);
        return Ok(none);
    }
    if rows.len() > MAX_MAPPINGS {
        return Err(config("最多添加 64 个模型"));
    }
    let default_name = match validate_name(default_model, "默认模型 ID") {
        Ok(name) => name,
        Err(error) => return Err(error),
    };
    let ghost all = mapping_views(rows@);
    let mut done: Vec<ProviderModelMapping> = Vec::new();
    let mut i: usize = 0;
    assert(mapping_views(done@) =~= seq![]);
    while i < rows.len()
        invariant
            i <= rows@.len(),
            all == mapping_views(rows@),
            0 < rows@.len() <= MAX_MAPPINGS,
            validated_name(default_model@, "默认模型 ID"@) == Ok::<Seq<char>, ErrorView>(
                default_name@,
            ),
            distinct_rows(all.take(i as int)) == Ok::<Seq<MappingView>, ErrorView>(
                mapping_views(done@),
            ),
            done@.len() <= i,
        decreases rows@.len() - i,
    {
        let ghost prefix = all.take(i + 1);
        assert(prefix.drop_last() =~= all.take(i as int));
        assert(prefix.last() == rows@[i as int]@);
        match row_of(&rows[i]) {
            Err(error) => {
                proof {
                    lemma_error_stays(all, i + 1);
                }
                return Err(error);
            },
            Ok(row) => {
                if !has_model(&done, &row.model) {
                    let ghost before = done@;
                    done.push(row);
                    assert(mapping_views(done@) =~= mapping_views(before).push(row@));
                }
            },
        }
        i = i + 1;
    }
    assert(all.take(all.len() as int) =~= all);
    if !has_model(&done, &default_name) {
        if done.len() >= MAX_MAPPINGS {
            return Err(config("模型列表需要包含默认模型，合计最多 64 个模型"));
        }
        let ghost before = done@;
        let first = ProviderModelMapping {
            model: default_name.clone(),
            display_name: default_name,
            context_window: None,
        };
        done.insert(0, first);
        assert(mapping_views(done@) =~= seq![first@] + mapping_views(before));
    }
    Ok(done)
}

/// The error of the first rows is the error of all of them.
proof fn lemma_error_stays(rows: Seq<MappingView>, n: int)
    requires
        0 <= n <= rows.len(),
        distinct_rows(rows.take(n)) is Err,
    ensures
        distinct_rows(rows) == distinct_rows(rows.take(n)),
    decreases rows.len() - n,
{
    if n == rows.len() {
        assert(rows.take(n) =~= rows);
    } else {
        assert(rows.take(n + 1).drop_last() =~= rows.take(n));
        lemma_error_stays(rows, n + 1);
    }
}

/// The instructions that every listed model starts from.
pub open spec fn base_instructions() -> Seq<char> {
    "You are a coding assistant working with the user in a shared workspace. Use the available tools to inspect and edit project files, follow the user's requirements, and verify your changes."@
}

fn instructions() -> (r: &'static str)
    ensures
        r@ == base_instructions(),
{
    "You are a coding assistant working with the user in a shared workspace. Use the available tools to inspect and edit project files, follow the user's requirements, and verify your changes."
}

/// One entry of the effort menu.
pub open spec fn reasoning_level(effort: Seq<char>, description: Seq<char>) -> JsonView {
    JsonView::Object(
        no_fields().insert("effort"@, JsonView::Text(effort)).insert(
            "description"@,
            JsonView::Text(description),
        ),
    )
}

/// The description of an effort that makes the model think.
pub open spec fn effort_description(effort: Seq<char>) -> Seq<char> {
    effort + " reasoning effort"@
}

/// The effort menu, the same for every listed model.
pub open spec fn reasoning_levels() -> JsonView {
    JsonView::List(
        seq![
            reasoning_level("none"@, "Disable thinking"@),
            reasoning_level("minimal"@, effort_description("minimal"@)),
            reasoning_level("low"@, effort_description("low"@)),
            reasoning_level("medium"@, effort_description("medium"@)),
            reasoning_level("high"@, effort_description("high"@)),
            reasoning_level("xhigh"@, effort_description("xhigh"@)),
            reasoning_level("max"@, effort_description("max"@)),
            reasoning_level("ultra"@, effort_description("ultra"@)),
        ],
    )
}

/// How a model's input is cut.
pub open spec fn truncation_policy() -> JsonView {
    JsonView::Object(
        no_fields().insert("mode"@, JsonView::Text("bytes"@)).insert(
            "limit"@,
            JsonView::Integer(10000),
        ),
    )
}

/// The context window of a model: its own, or the one of models that name none.
pub open spec fn window_of(mapping: MappingView, default_context: i64) -> int {
    match mapping.context_window {
        Some(window) => window as int,
        None => default_context as int,
    }
}

/// The catalog entry of a model.
pub open spec fn model_entry_view(mapping: MappingView, priority: int, default_context: i64) -> JsonView {
    let window = window_of(mapping, default_context);
    JsonView::Object(no_fields()
        .insert("slug"@, JsonView::Text(mapping.model))
        .insert("display_name"@, JsonView::Text(mapping.display_name))
        .insert("description"@, JsonView::Text(mapping.display_name))
        .insert("base_instructions"@, JsonView::Text(base_instructions()))
        .insert("default_reasoning_level"@, JsonView::Text("high"@))
        .insert("supported_reasoning_levels"@, reasoning_levels())
        .insert("shell_type"@, JsonView::Text("shell_command"@))
        .insert("visibility"@, JsonView::Text("list"@))
        .insert("supported_in_api"@, JsonView::Boolean(true))
        .insert("priority"@, JsonView::Integer(priority as int))
        .insert("additional_speed_tiers"@, JsonView::List(seq![]))
        .insert("service_tiers"@, JsonView::List(seq![]))
        .insert("availability_nux"@, JsonView::Null)
        .insert("upgrade"@, JsonView::Null)
        .insert("supports_reasoning_summaries"@, JsonView::Boolean(true))
        .insert("supports_reasoning_summary_parameter"@, JsonView::Boolean(false))
        .insert("default_reasoning_summary"@, JsonView::Text("none"@))
        .insert("support_verbosity"@, JsonView::Boolean(false))
        .insert("default_verbosity"@, JsonView::Null)
        .insert("apply_patch_tool_type"@, JsonView::Null)
        .insert("truncation_policy"@, truncation_policy())
        .insert("supports_parallel_tool_calls"@, JsonView::Boolean(false))
        .insert("supports_image_detail_original"@, JsonView::Boolean(false))
        .insert("context_window"@, JsonView::Integer(window))
        .insert("max_context_window"@, JsonView::Integer(window))
        .insert("effective_context_window_percent"@, JsonView::Integer(95))
        .insert("experimental_supported_tools"@, JsonView::List(seq![]))
        .insert("input_modalities"@, JsonView::List(seq![JsonView::Text("text"@)]))
        .insert("supports_search_tool"@, JsonView::Boolean(false))
        .insert("use_responses_lite"@, JsonView::Boolean(false))
        .insert("prefer_websockets"@, JsonView::Boolean(false))
    )
}

fn reasoning_level_value(effort: &str, description: &str) -> (r: Value)
    ensures
        json_value(r) == reasoning_level(effort@, description@),
{
    let mut level = empty_object();
    set_field(&mut level, "effort", json_text(effort));
    set_field(&mut level, "description", json_text(description));
    level
}

fn effort_value(effort: &str) -> (r: Value)
    ensures
        json_value(r) == reasoning_level(effort@, effort_description(effort@)),
{
    reasoning_level_value(effort, &joined(effort, " reasoning effort"))
}

fn reasoning_levels_value() -> (r: Value)
    ensures
        json_value(r) == reasoning_levels(),
{
    let levels = vec![
        reasoning_level_value("none", "Disable thinking"),
        effort_value("minimal"),
        effort_value("low"),
        effort_value("medium"),
        effort_value("high"),
        effort_value("xhigh"),
        effort_value("max"),
        effort_value("ultra"),
    ];
    let r = json_list(levels);
    proof {
        assert(json_value(r)->List_0 =~= reasoning_levels()->List_0);
    }
    r
}

fn truncation_policy_value() -> (r: Value)
    ensures
        json_value(r) == truncation_policy(),
{
    let mut policy = empty_object();
    set_field(&mut policy, "mode", json_text("bytes"));
    set_field(&mut policy, "limit", json_integer(10000));
    policy
}

fn no_items() -> (r: Value)
    ensures
        json_value(r) == JsonView::List(seq![]),
{
    let items: Vec<Value> = Vec::new();
    let r = json_list(items);
    assert(json_value(r)->List_0 =~= seq![]);
    r
}

fn text_only() -> (r: Value)
    ensures
        json_value(r) == JsonView::List(seq![JsonView::Text("text"@)]),
{
    let r = json_list(vec![json_text("text")]);
    assert(json_value(r)->List_0 =~= seq![JsonView::Text("text"@)]);
    r
}

/// The catalog entry of a model. Every listed model gets the same effort menu; the provider's
/// own interface decides what an effort does.
pub fn model_entry(mapping: &ProviderModelMapping, priority: usize, default_context: i64) -> (r: Value)
    ensures
        json_value(r) == model_entry_view(mapping@, priority as int, default_context),
{
    let window: i64 = match mapping.context_window {
        Some(window) => window,
        None => default_context,
    };
    let mut entry = empty_object();
    set_field(&mut entry, "slug", json_text(&mapping.model));
    set_field(&mut entry, "display_name", json_text(&mapping.display_name));
    set_field(&mut entry, "description", json_text(&mapping.display_name));
    set_field(&mut entry, "base_instructions", json_text(instructions()));
    set_field(&mut entry, "default_reasoning_level", json_text("high"));
    set_field(&mut entry, "supported_reasoning_levels", reasoning_levels_value());
    set_field(&mut entry, "shell_type", json_text("shell_command"));
    set_field(&mut entry, "visibility", json_text("list"));
    set_field(&mut entry, "supported_in_api", json_boolean(true));
    set_field(&mut entry, "priority", json_size(priority));
    set_field(&mut entry, "additional_speed_tiers", no_items());
    set_field(&mut entry, "service_tiers", no_items());
    set_field(&mut entry, "availability_nux", json_null());
    set_field(&mut entry, "upgrade", json_null());
    set_field(&mut entry, "supports_reasoning_summaries", json_boolean(true));
    set_field(&mut entry, "supports_reasoning_summary_parameter", json_boolean(false));
    set_field(&mut entry, "default_reasoning_summary", json_text("none"));
    set_field(&mut entry, "support_verbosity", json_boolean(false));
    set_field(&mut entry, "default_verbosity", json_null());
    set_field(&mut entry, "apply_patch_tool_type", json_null());
    set_field(&mut entry, "truncation_policy", truncation_policy_value());
    set_field(&mut entry, "supports_parallel_tool_calls", json_boolean(false));
    set_field(&mut entry, "supports_image_detail_original", json_boolean(false));
    set_field(&mut entry, "context_window", json_integer(window));
    set_field(&mut entry, "max_context_window", json_integer(window));
    set_field(&mut entry, "effective_context_window_percent", json_integer(95));
    set_field(&mut entry, "experimental_supported_tools", no_items());
    set_field(&mut entry, "input_modalities", text_only());
    set_field(&mut entry, "supports_search_tool", json_boolean(false));
    set_field(&mut entry, "use_responses_lite", json_boolean(false));
    set_field(&mut entry, "prefer_websockets", json_boolean(false));
    entry
}

/// The context window of models that name none, as a configuration gives it.
pub open spec fn default_context_of(entries: Entries) -> i64 {
    if entries.contains_key("model_context_window"@) {
        match entries["model_context_window"@] {
            TomlView::Integer(window) => if 1 <= window <= MAX_CONTEXT_WINDOW {
                window
            } else {
                DEFAULT_CONTEXT_WINDOW
            },
            _ => DEFAULT_CONTEXT_WINDOW,
        }
    } else {
        DEFAULT_CONTEXT_WINDOW
    }
}

/// The catalog of a menu, without the mark of ownership.
pub open spec fn catalog_view(rows: Seq<MappingView>, default_context: i64) -> JsonView {
    JsonView::Object(
        no_fields().insert(
            "models"@,
            JsonView::List(
                Seq::new(rows.len(), |i: int| model_entry_view(rows[i], i, default_context)),
            ),
        ),
    )
}

/// The catalog of a menu, its models in the order of the menu.
pub fn build_catalog(mappings: &[ProviderModelMapping], doc: &DocumentMut) -> (r: Value)
    ensures
        json_value(r) == catalog_view(
            mapping_views(mappings@),
            default_context_of(document_entries(*doc)),
        ),
{
    let mut default_context: i64 = DEFAULT_CONTEXT_WINDOW;
    if let Some(item) = doc.as_table().get("model_context_window") {
        if let Some(window) = item.as_integer() {
            if 1 <= window && window <= MAX_CONTEXT_WINDOW {
                default_context = window;
            }
        }
    }
    let ghost rows = mapping_views(mappings@);
    let ghost wanted = Seq::new(
        rows.len(),
        |i: int| model_entry_view(rows[i], i, default_context),
    );
    let mut models: Vec<Value> = Vec::new();
    let mut i: usize = 0;
    while i < mappings.len()
        invariant
            i <= mappings@.len(),
            rows == mapping_views(mappings@),
            wanted == Seq::new(rows.len(), |i: int| model_entry_view(rows[i], i, default_context)),
            models@.map_values(|item: Value| json_value(item)) == wanted.take(i as int),
        decreases mappings@.len() - i,
    {
        let ghost before = models@;
        models.push(model_entry(&mappings[i], i, default_context));
        assert(models@.map_values(|item: Value| json_value(item)) =~= before.map_values(
            |item: Value| json_value(item),
        ).push(wanted[i as int]));
        assert(wanted.take(i as int).push(wanted[i as int]) =~= wanted.take(i + 1));
        i = i + 1;
    }
    assert(wanted.take(wanted.len() as int) =~= wanted);
    let mut catalog = empty_object();
    set_field(&mut catalog, "models", json_list(models));
    catalog
}

/// What the file name of a catalog is the digest of: a prefix and all of its content.
pub open spec fn named_content(bytes: Seq<u8>) -> Seq<u8> {
    utf8("codex-x-provider-model-catalog-v2\0"@) + bytes
}

/// The file name of a catalog: a digest of all of its content.
pub open spec fn catalog_filename_of(bytes: Seq<u8>) -> Seq<char> {
    hex_text(sha256(named_content(bytes))) + ".json"@
}

/// What `catalog_filename` makes of a catalog.
pub open spec fn named_catalog(catalog: JsonView) -> Result<Seq<char>, ErrorView> {
    match json_bytes(catalog) {
        Some(bytes) => Ok(catalog_filename_of(bytes)),
        None => Err(ErrorView::Config("无法生成供应商模型目录"@)),
    }
}

/// The file name of a catalog: a digest of all of its content.
pub fn catalog_filename(catalog: &Value) -> (r: Result<String, CodexxError>)
    ensures
        match named_catalog(json_value(*catalog)) {
            Ok(name) => r matches Ok(found) && found@ == name,
            Err(error) => r matches Err(found) && found@ == error,
        },
        r is Ok && whole(json_value(*catalog)) && nests_within(json_value(*catalog), 127)
            ==> reads_back(json_value(*catalog)),
{
    match write_json(catalog) {
        Some(bytes) => {
            let mut content: Vec<u8> = Vec::new();
            add_utf8(&mut content, "codex-x-provider-model-catalog-v2\0");
            add_bytes(&mut content, &bytes);
            assert(content@ =~= utf8("codex-x-provider-model-catalog-v2\0"@) + bytes@);
            Ok(joined(&hex_of(&sha256_of(&content)), ".json"))
        },
        None => Err(config("无法生成供应商模型目录")),
    }
}

/// The mark that a generated catalog carries.
pub open spec fn ownership_mark(provider_id: Seq<char>) -> JsonView {
    JsonView::Object(
        no_fields().insert("source"@, JsonView::Text("codex-x"@)).insert(
            "format"@,
            JsonView::Integer(1),
        ).insert("provider_hash"@, JsonView::Text(hex_text(sha256(utf8(provider_id))))),
    )
}

/// The catalog of a menu with the mark of the provider that owns it.
pub open spec fn owned_catalog(
    rows: Seq<MappingView>,
    default_context: i64,
    provider_id: Seq<char>,
) -> JsonView {
    with_field(
        catalog_view(rows, default_context),
        "_codex_x_model_catalog"@,
        ownership_mark(provider_id),
    )
}

/// Whether a value is a catalog that this application generated under this file name.
pub open spec fn verified_catalog(catalog: JsonView, filename: Seq<char>) -> bool {
    let owner = field(catalog, "_codex_x_model_catalog"@);
    &&& owner matches Some(mark) && {
        &&& text_of(field(mark, "provider_hash"@)) matches Some(hash) && is_hash(hash)
        &&& text_of(field(mark, "source"@)) == Some("codex-x"@)
        &&& field(mark, "format"@) == Some(JsonView::Integer(1))
    }
    &&& field(catalog, "models"@) matches Some(JsonView::List(models)) && 0 < models.len()
        <= MAX_MAPPINGS
    &&& named_catalog(catalog) == Ok::<Seq<char>, ErrorView>(filename)
}

/// Whether a file of this content and name is a catalog that this application generated.
pub open spec fn verified_ownership(content: Seq<u8>, filename: Seq<char>) -> bool {
    content.len() <= MAX_CATALOG_BYTES && (parsed_json(content) matches Ok(catalog)
        && verified_catalog(catalog, filename))
}

/// Whether a file of this content and name is a catalog that this application generated: it
/// carries the mark, and its name is the digest of the whole of it.
pub fn has_verified_ownership(content: &[u8], filename: &str) -> (r: bool)
    ensures
        r == verified_ownership(content@, filename@),
{
    if content.len() > MAX_CATALOG_BYTES {
        return false;
    }
    let catalog = match parse_json(content) {
        Ok(catalog) => catalog,
        Err(_) => return false,
    };
    is_generated_catalog(&catalog, filename)
}

/// Whether a value is a catalog that this application generated under this file name.
pub fn is_generated_catalog(catalog: &Value, filename: &str) -> (r: bool)
    ensures
        r == verified_catalog(json_value(*catalog), filename@),
{
    let owner = match get_field(catalog, "_codex_x_model_catalog") {
        Some(owner) => owner,
        None => return false,
    };
    let hash_fits: bool = match text_field(owner, "provider_hash") {
        Some(hash) => hash_shaped(&hash),
        None => false,
    };
    if !hash_fits {
        return false;
    }
    let source_fits: bool = match text_field(owner, "source") {
        Some(source) => same_text(&source, "codex-x"),
        None => false,
    };
    let format_fits: bool = match get_field(owner, "format") {
        Some(format) => match format.as_u64() {
            Some(version) => version == 1,
            None => false,
        },
        None => false,
    };
    let models_fit: bool = match get_field(catalog, "models") {
        Some(models) => match list_length(models) {
            Some(n) => 0 < n && n <= MAX_MAPPINGS,
            None => false,
        },
        None => false,
    };
    if !source_fits || !format_fits || !models_fit {
        return false;
    }
    match catalog_filename(catalog) {
        Ok(expected) => same_text(&expected, filename),
        Err(_) => false,
    }
}

fn text_field(value: &Value, key: &str) -> (r: Option<String>)
    ensures
        opt_view(r) == text_of(field(json_value(*value), key@)),
{
    match get_field(value, key) {
        Some(found) => match found.as_str() {
            Some(text) => Some(text.to_owned()),
            None => None,
        },
        None => None,
    }
}

/// What stands at a path.
#[derive(Clone, Copy, PartialEq, Eq, Structural)]
pub enum EntryKind {
    /// Nothing that can be inspected.
    Absent,
    /// A link or another redirection.
    Link,
    Directory,
    File,
    Other,
}

/// What is known of the catalog that a configuration points to.
pub struct PointerFacts {
    /// Whether the pointer steps to a parent directory somewhere.
    pub traverses: bool,
    /// The last component of the pointer.
    pub name: Option<String>,
    /// The name of the directory that holds the catalog.
    pub parent_name: Option<String>,
    /// The name of the directory above that one.
    pub owner_name: Option<String>,
    /// What stands at the directory that holds the catalog.
    pub parent: EntryKind,
    /// What stands at the directory above that one.
    pub owner: EntryKind,
    /// What stands at the catalog itself.
    pub file: EntryKind,
    /// Whether the catalog's directory is the one that this configuration owns.
    pub same_parent: bool,
    /// The content of the catalog, where it could be read.
    pub content: Option<Vec<u8>>,
}

/// Whether the catalog that a configuration points to was generated by this application.
pub open spec fn owned_pointer(facts: PointerFacts) -> bool {
    &&& !facts.traverses
    &&& facts.name matches Some(name) && {
        &&& exists|hash: Seq<char>| name@ == #[trigger] (hash + ".json"@) && is_hash(hash)
        &&& facts.same_parent || (facts.content matches Some(content) && verified_ownership(
            content@,
            name@,
        ))
    }
    &&& opt_view(facts.parent_name) == Some("model-catalogs"@)
    &&& opt_view(facts.owner_name) == Some(".codex-x"@)
    &&& facts.parent is Absent || facts.parent is Directory
    &&& facts.owner is Absent || facts.owner is Directory
    &&& facts.file is Absent || facts.file is File
}

/// Whether the catalog that a configuration points to was generated by this application.
///
/// A pointer into the owned directory counts even where the file is gone. One into the directory
/// of another configuration counts only where the file carries the mark and its name is its
/// digest, so that a catalog of the user's own is left alone.
pub fn is_owned_pointer(facts: &PointerFacts) -> (r: bool)
    ensures
        r == owned_pointer(*facts),
{
    if facts.traverses {
        return false;
    }
    let name = match &facts.name {
        Some(name) => name,
        None => return false,
    };
    match strip_suffix(name, ".json") {
        Some(hash) => {
            proof {
                assert forall|other: Seq<char>| name@ == #[trigger] (other + ".json"@) implies other
                    == hash@ by {
                    assert(name@.len() == other.len() + ".json"@.len());
                    assert(name@.len() == hash@.len() + ".json"@.len());
                    assert(other =~= name@.take(other.len() as int));
                    assert(hash@ =~= name@.take(hash@.len() as int));
                }
            }
            if !hash_shaped(&hash) {
                return false;
            }
        },
        None => {
            proof {
                assert forall|hash: Seq<char>| name@ != #[trigger] (hash + ".json"@) by {
                    if name@ == hash + ".json"@ {
                        assert(".json"@ =~= name@.subrange(
                            name@.len() - ".json"@.len(),
                            name@.len() as int,
                        ));
                    }
                }
            }
            return false;
        },
    }
    if !same_opt(&facts.parent_name, &Some("model-catalogs".to_owned())) || !same_opt(
        &facts.owner_name,
        &Some(".codex-x".to_owned()),
    ) {
        return false;
    }
    if !(facts.parent == EntryKind::Absent || facts.parent == EntryKind::Directory) || !(facts.owner
        == EntryKind::Absent || facts.owner == EntryKind::Directory) || !(facts.file
        == EntryKind::Absent || facts.file == EntryKind::File) {
        return false;
    }
    if facts.same_parent {
        return true;
    }
    match &facts.content {
        Some(content) => has_verified_ownership(content, name),
        None => false,
    }
}

/// What is to be done about the catalog of a configuration.
pub enum CatalogStep {
    /// Nothing.
    Keep,
    /// The pointer is to be removed if the catalog at this path is a generated one.
    RemoveIfOwned(String),
    /// The catalog is to be written under this file name and pointed to.
    Publish { filename: String, catalog: Value },
}

/// What is to be done about the catalog of a configuration, as contracts speak of it.
pub ghost enum CatalogStepView {
    Keep,
    RemoveIfOwned(Seq<char>),
    Publish { filename: Seq<char>, catalog: JsonView },
}

impl View for CatalogStep {
    type V = CatalogStepView;

    open spec fn view(&self) -> CatalogStepView {
        match self {
            CatalogStep::Keep => CatalogStepView::Keep,
            CatalogStep::RemoveIfOwned(pointer) => CatalogStepView::RemoveIfOwned(pointer@),
            CatalogStep::Publish { filename, catalog } => CatalogStepView::Publish {
                filename: filename@,
                catalog: json_value(*catalog),
            },
        }
    }
}

/// What `prepare_model_catalog` decides.
pub open spec fn catalog_step(
    provider_id: Seq<char>,
    rows: Seq<MappingView>,
    model: Seq<char>,
    entries: Entries,
) -> Result<CatalogStepView, ErrorView> {
    match normalized_mappings(rows, model) {
        Err(error) => Err(error),
        Ok(menu) => if menu.len() == 0 {
            match text_entry(entries, "model_catalog_json"@) {
                Some(pointer) => Ok(CatalogStepView::RemoveIfOwned(pointer)),
                None => Ok(CatalogStepView::Keep),
            }
        } else {
            let catalog = owned_catalog(menu, default_context_of(entries), provider_id);
            match named_catalog(catalog) {
                Err(error) => Err(error),
                Ok(filename) => Ok(CatalogStepView::Publish { filename, catalog }),
            }
        },
    }
}

/// Decides what is to be done about the catalog of a configuration. A catalog to publish is
/// recognised as a generated one under its own name.
pub fn prepare_model_catalog(
    provider_id: &str,
    mappings: &[ProviderModelMapping],
    model: &str,
    doc: &DocumentMut,
) -> (r: Result<CatalogStep, CodexxError>)
    ensures
        match catalog_step(provider_id@, mapping_views(mappings@), model@, document_entries(*doc)) {
            Ok(step) => r matches Ok(found) && found@ == step,
            Err(error) => r matches Err(found) && found@ == error,
        },
        r matches Ok(CatalogStep::Publish { filename, catalog }) ==> verified_catalog(
            json_value(catalog),
            filename@,
        ) && whole(json_value(catalog)) && reads_back(json_value(catalog)),
{
    let menu = match normalize_mappings(mappings, model) {
        Ok(menu) => menu,
        Err(error) => return Err(error),
    };
    if menu.len() == 0 {
        return match get_text(doc.as_table(), "model_catalog_json") {
            Some(pointer) => Ok(CatalogStep::RemoveIfOwned(pointer)),
            None => Ok(CatalogStep::Keep),
        };
    }
    let mut catalog = build_catalog(&menu, doc);
    let hash = hex_of(&sha256_of(provider_id.as_bytes()));
    let mut mark = empty_object();
    set_field(&mut mark, "source", json_text("codex-x"));
    set_field(&mut mark, "format", json_integer(1));
    set_field(&mut mark, "provider_hash", json_text(&hash));
    set_field(&mut catalog, "_codex_x_model_catalog", mark);
    proof {
        let rows = mapping_views(menu@);
        let context = default_context_of(document_entries(*doc));
        lemma_catalog_is_whole(rows, context, provider_id@);
        lemma_catalog_is_shallow(rows, context, provider_id@);
    }
    match catalog_filename(&catalog) {
        Err(error) => Err(error),
        Ok(filename) => {
            proof {
                let rows = mapping_views(menu@);
                let context = default_context_of(document_entries(*doc));
                law_menus_are_bounded(mapping_views(mappings@), model@);
                lemma_hex_is_hash(sha256(utf8(provider_id@)));
                lemma_catalog_verifies(rows, context, provider_id@, filename@);
            }
            Ok(CatalogStep::Publish { filename, catalog })
        },
    }
}

proof fn lemma_hex_is_hash(bytes: Seq<u8>)
    requires
        bytes.len() == 32,
    ensures
        is_hash(hex_text(bytes)),
{
    assert forall|i: int| 0 <= i < 64 implies is_hex_digit(#[trigger] hex_text(bytes)[i]) by {
        let byte = bytes[i / 2] as int;
        assert(0 <= byte / 16 < 16 && 0 <= byte % 16 < 16);
    }
}

proof fn lemma_catalog_is_whole(rows: Seq<MappingView>, context: i64, provider_id: Seq<char>)
    ensures
        whole(owned_catalog(rows, context, provider_id)),
{
    broadcast use lemma_whole_insert;

    assert(whole(JsonView::Object(no_fields())));
    assert(forall|effort: Seq<char>, description: Seq<char>|
        whole(#[trigger] reasoning_level(effort, description)));
    assert(whole(reasoning_levels()));
    assert(whole(truncation_policy()));
    assert forall|i: int| 0 <= i < rows.len() implies whole(
        #[trigger] model_entry_view(rows[i], i, context),
    ) by {
        assert(whole(JsonView::List(seq![])));
        assert(whole(JsonView::Text("text"@)));
        assert(whole(JsonView::List(seq![JsonView::Text("text"@)])));
    }
    let models = JsonView::List(Seq::new(rows.len(), |i: int| model_entry_view(rows[i], i, context)));
    assert(whole(models));
    assert(whole(ownership_mark(provider_id)));
}

proof fn lemma_catalog_is_shallow(rows: Seq<MappingView>, context: i64, provider_id: Seq<char>)
    ensures
        nests_within(owned_catalog(rows, context, provider_id), 127),
{
    broadcast use lemma_nests_insert;

    assert(nests_within(JsonView::Object(no_fields()), 123));
    assert(nests_within(JsonView::Object(no_fields()), 124));
    assert(nests_within(JsonView::Object(no_fields()), 125));
    assert(nests_within(JsonView::Object(no_fields()), 126));
    assert(nests_within(JsonView::Object(no_fields()), 127));
    assert(forall|effort: Seq<char>, description: Seq<char>|
        nests_within(#[trigger] reasoning_level(effort, description), 123));
    assert(nests_within(reasoning_levels(), 124));
    assert(nests_within(truncation_policy(), 124));
    assert forall|i: int| 0 <= i < rows.len() implies nests_within(
        #[trigger] model_entry_view(rows[i], i, context),
        125,
    ) by {
        assert(nests_within(JsonView::List(seq![]), 124));
        assert(nests_within(JsonView::Text("text"@), 123));
        assert(nests_within(JsonView::List(seq![JsonView::Text("text"@)]), 124));
    }
    let models = JsonView::List(Seq::new(rows.len(), |i: int| model_entry_view(rows[i], i, context)));
    assert(nests_within(models, 126));
    assert(nests_within(ownership_mark(provider_id), 126));
}

proof fn lemma_catalog_verifies(
    rows: Seq<MappingView>,
    context: i64,
    provider_id: Seq<char>,
    filename: Seq<char>,
)
    requires
        0 < rows.len() <= MAX_MAPPINGS,
        is_hash(hex_text(sha256(utf8(provider_id)))),
        named_catalog(owned_catalog(rows, context, provider_id)) == Ok::<Seq<char>, ErrorView>(
            filename,
        ),
    ensures
        verified_catalog(owned_catalog(rows, context, provider_id), filename),
{
    reveal_strlit("source");
    reveal_strlit("format");
    reveal_strlit("provider_hash");
    reveal_strlit("models");
    reveal_strlit("_codex_x_model_catalog");
    assert("source"@.len() == 6 && "format"@.len() == 6 && "source"@[0] != "format"@[0]);
    assert("provider_hash"@.len() == 13);
    assert("models"@.len() == 6 && "_codex_x_model_catalog"@.len() == 22);
}

/// A menu holds at most as many models as a provider may list, and none where no row was given.
pub proof fn law_menus_are_bounded(rows: Seq<MappingView>, default_model: Seq<char>)
    ensures
        normalized_mappings(rows, default_model) matches Ok(menu) ==> menu.len() <= MAX_MAPPINGS && (
        menu.len() == 0 <==> rows.len() == 0),
{
    lemma_distinct_is_shorter(rows);
    if rows.len() > 0 {
        if let Ok(done) = distinct_rows(rows) {
            if let Ok(model) = validated_name(default_model, "默认模型 ID"@) {
                if lists_model(done, model) {
                    let i = choose|i: int| 0 <= i < done.len() && #[trigger] done[i].model == model;
                    assert(done.len() > 0);
                }
            }
        }
    }
}

proof fn lemma_distinct_is_shorter(rows: Seq<MappingView>)
    ensures
        distinct_rows(rows) matches Ok(done) ==> done.len() <= rows.len(),
    decreases rows.len(),
{
    if rows.len() > 0 {
        lemma_distinct_is_shorter(rows.drop_last());
    }
}

/// Removes the pointer to a catalog that is a generated one. Everything else stays as it is written.
pub fn release_catalog(doc: &mut DocumentMut, owned: bool)
    ensures
        document_entries(*final(doc)) == if owned {
            document_entries(*old(doc)).remove("model_catalog_json"@)
        } else {
            document_entries(*old(doc))
        },
        !owned ==> *final(doc) == *old(doc),
        document_spellings(*final(doc)).remove("model_catalog_json"@) == document_spellings(
            *old(doc),
        ).remove("model_catalog_json"@),
{
    if owned {
        let _ = doc.as_table_mut().remove("model_catalog_json");
    }
}

/// Points a configuration to its catalog. Everything else stays as it is written.
pub fn point_to_catalog(doc: &mut DocumentMut, path: &str)
    ensures
        document_entries(*final(doc)) == document_entries(*old(doc)).insert(
            "model_catalog_json"@,
            TomlView::Text(path@),
        ),
        document_spellings(*final(doc)).remove("model_catalog_json"@) == document_spellings(
            *old(doc),
        ).remove("model_catalog_json"@),
{
    set_text(doc.as_table_mut(), "model_catalog_json", path);
}

/// Whether a catalog still has to be written, given what stands at its path; a file that is
/// there already is compared instead.
pub fn catalog_is_missing(kind: EntryKind, length: u64) -> (r: Result<bool, CodexxError>)
    ensures
        if kind is Absent {
            r == Ok::<bool, CodexxError>(true)
        } else if kind is File && length <= MAX_CATALOG_BYTES {
            r == Ok::<bool, CodexxError>(false)
        } else {
            r matches Err(error) && error@ == ErrorView::Config(
                "已生成的模型目录文件无效，请检查后重试"@,
            )
        },
{
    match kind {
        EntryKind::Absent => Ok(true),
        EntryKind::File if length <= MAX_CATALOG_BYTES as u64 => Ok(false),
        _ => Err(config("已生成的模型目录文件无效，请检查后重试")),
    }
}

/// Checks that the file at a catalog's path holds that catalog.
pub fn confirm_catalog(existing: &[u8], catalog: &Value) -> (r: Result<(), CodexxError>)
    requires
        whole(json_value(*catalog)),
    ensures
        if parsed_json(existing@) == Ok::<JsonView, Seq<char>>(json_value(*catalog)) {
            r is Ok
        } else {
            r matches Err(error) && error@ == ErrorView::Config(
                "已生成的模型目录文件被修改，未覆盖原文件"@,
            )
        },
{
    let same: bool = match parse_json(existing) {
        Ok(value) => same_json(&value, catalog),
        Err(_) => false,
    };
    if same {
        Ok(())
    } else {
        Err(config("已生成的模型目录文件被修改，未覆盖原文件"))
    }
}

/// The components of the directory in which generated catalogs are kept.
pub fn owned_catalog_directory(codex_dir: &str) -> (r: Vec<String>)
    ensures
        r@.len() == 3,
        r@[0]@ == codex_dir@,
        r@[1]@ == ".codex-x"@,
        r@[2]@ == "model-catalogs"@,
{
    vec![codex_dir.to_owned(), ".codex-x".to_owned(), "model-catalogs".to_owned()]
}

/// Whether a component of the owned directory has to be created, given what stands there.
pub fn component_is_missing(kind: EntryKind) -> (r: Result<bool, CodexxError>)
    ensures
        match kind {
            EntryKind::Absent => r == Ok::<bool, CodexxError>(true),
            EntryKind::Directory => r == Ok::<bool, CodexxError>(false),
            _ => r matches Err(error) && error@ == ErrorView::Config(
                "模型目录被文件或链接占用，请检查 Astra 模型目录"@,
            ),
        },
{
    match kind {
        EntryKind::Absent => Ok(true),
        EntryKind::Directory => Ok(false),
        _ => Err(config("模型目录被文件或链接占用，请检查 Astra 模型目录")),
    }
}

/// Checks a component of the owned directory once more after it was created.
pub fn confirm_component(kind: EntryKind) -> (r: Result<(), CodexxError>)
    ensures
        if kind is Directory {
            r is Ok
        } else {
            r matches Err(error) && error@ == ErrorView::Config(
                "模型目录在创建时发生变化，请重试"@,
            )
        },
{
    match kind {
        EntryKind::Directory => Ok(()),
        _ => Err(config("模型目录在创建时发生变化，请重试")),
    }
}

/// Whether no model stands in a menu twice.
pub open spec fn models_differ(rows: Seq<MappingView>) -> bool {
    forall|i: int, j: int|
        0 <= i < j < rows.len() ==> (#[trigger] rows[i]).model != (#[trigger] rows[j]).model
}

/// Whether every row is as normalizing leaves it.
spec fn settled(rows: Seq<MappingView>) -> bool {
    forall|i: int|
        0 <= i < rows.len() ==> normalized_row(#[trigger] rows[i]) == Ok::<MappingView, ErrorView>(
            rows[i],
        )
}

proof fn lemma_row_settles(row: MappingView)
    requires
        normalized_row(row) is Ok,
    ensures
        normalized_row(normalized_row(row)->Ok_0) == normalized_row(row),
{
    lemma_trimmed_twice(row.model);
    lemma_trimmed_twice(row.display_name);
}

proof fn lemma_distinct_rows(rows: Seq<MappingView>)
    requires
        distinct_rows(rows) is Ok,
    ensures
        models_differ(distinct_rows(rows)->Ok_0),
        settled(distinct_rows(rows)->Ok_0),
    decreases rows.len(),
{
    if rows.len() > 0 {
        lemma_distinct_rows(rows.drop_last());
        lemma_row_settles(rows.last());
    }
}

proof fn lemma_settled_rows_stay(rows: Seq<MappingView>)
    requires
        models_differ(rows),
        settled(rows),
    ensures
        distinct_rows(rows) == Ok::<Seq<MappingView>, ErrorView>(rows),
    decreases rows.len(),
{
    if rows.len() > 0 {
        let shorter = rows.drop_last();
        assert forall|i: int| 0 <= i < shorter.len() implies normalized_row(#[trigger] shorter[i])
            == Ok::<MappingView, ErrorView>(shorter[i]) by {
            assert(shorter[i] == rows[i]);
        }
        lemma_settled_rows_stay(shorter);
        if lists_model(shorter, rows.last().model) {
            let k = choose|k: int|
                0 <= k < shorter.len() && #[trigger] shorter[k].model == rows.last().model;
            assert(rows[k].model != rows[rows.len() - 1].model);
        }
        assert(shorter.push(rows.last()) =~= rows);
    } else {
        assert(rows =~= seq![]);
    }
}

/// A menu lists no model twice, and a menu that lists anything lists the default model.
pub proof fn law_menu_lists_each_model_once(rows: Seq<MappingView>, default_model: Seq<char>)
    requires
        normalized_mappings(rows, default_model) is Ok,
    ensures
        models_differ(normalized_mappings(rows, default_model)->Ok_0),
        rows.len() > 0 ==> lists_model(
            normalized_mappings(rows, default_model)->Ok_0,
            trimmed(default_model),
        ),
{
    if rows.len() > 0 {
        lemma_distinct_rows(rows);
        let done = distinct_rows(rows)->Ok_0;
        let menu = normalized_mappings(rows, default_model)->Ok_0;
        let model = trimmed(default_model);
        if !lists_model(done, model) {
            assert(menu[0].model == model);
            assert forall|i: int, j: int| 0 <= i < j < menu.len() implies (#[trigger] menu[i]).model
                != (#[trigger] menu[j]).model by {
                assert(menu[j] == done[j - 1]);
                if i > 0 {
                    assert(menu[i] == done[i - 1]);
                }
            }
        }
    }
}

/// Normalizing a menu again changes nothing.
pub proof fn law_menus_are_stable(rows: Seq<MappingView>, default_model: Seq<char>)
    requires
        normalized_mappings(rows, default_model) is Ok,
    ensures
        normalized_mappings(normalized_mappings(rows, default_model)->Ok_0, default_model)
            == normalized_mappings(rows, default_model),
{
    let menu = normalized_mappings(rows, default_model)->Ok_0;
    law_menu_lists_each_model_once(rows, default_model);
    law_menus_are_bounded(rows, default_model);
    if rows.len() > 0 {
        lemma_distinct_rows(rows);
        let done = distinct_rows(rows)->Ok_0;
        let model = trimmed(default_model);
        lemma_trimmed_twice(default_model);
        if !lists_model(done, model) {
            assert forall|i: int| 0 <= i < menu.len() implies normalized_row(#[trigger] menu[i])
                == Ok::<MappingView, ErrorView>(menu[i]) by {
                if i > 0 {
                    assert(menu[i] == done[i - 1]);
                }
            }
        }
        lemma_settled_rows_stay(menu);
    }
}

} // verus!
