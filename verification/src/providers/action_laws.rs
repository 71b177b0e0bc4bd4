//! What holds of the actions on the live configuration and of what they undo.
use crate::error::{error_text, CodexxError, ErrorView};
use crate::json::{json_value, opt_json, parsed_json, JsonView};
use crate::providers::live::{
    activate_saved_provider_inner, applied_config_text, apply_saved_provider_locked,
    apply_saved_provider_with_policy_locked, capture_live_official_snapshot,
    delete_saved_provider_inner, finish_active_save, finish_live_action, prepare_merged_switch,
    requested_official_config, reset_official_provider_inner, restore_official_provider_inner,
    rollback_after_failure, rollback_persisted_provider, save_active_provider_with_apply,
    save_official_config_inner, save_provider_toml_config_locked,
    save_provider_toml_config_with_catalog_locked, switch_official_provider_with_pre_persist,
    update_official_snapshot, ActionResult, ActivationSource, AppliedSnapshot, MergedConfig,
    OfficialCandidate, OfficialSave, OfficialSwitch, PreparedSwitch, ProviderTomlInput,
    SnapshotRestore,
};
use crate::providers::live_files::AppliedLiveFiles;
use crate::providers::live_toml::{
    merge_provider_toml_into_live_with_policy, provider_auth_action, LiveAuthAction,
};
use crate::providers::official_auth::auth_value_has_material;
use crate::providers::store::SavedProvider;
use crate::providers::table::{row_of, ProviderTable};
use crate::providers::table_laws::law_removal_concerns_one_row;
use crate::text::{blank, opt_bytes, opt_view, trimmed, trimmed_end, utf8};
use crate::toml::{document_entries, document_text};
use toml_edit::DocumentMut;
use vstd::prelude::*;
use vstd::utf8::{encode_utf8_decode_utf8, encode_utf8_valid_utf8};

verus! {

/// Undoing a save of the official configuration puts back what was there before, and only while what
/// the save left is still there.
pub proof fn law_snapshots_go_back_to_what_was_there(
    before: Option<Vec<u8>>,
    after: Option<Vec<u8>>,
    updated: Result<(), CodexxError>,
    saved: Result<AppliedSnapshot, CodexxError>,
    captured: bool,
    taken: Option<AppliedSnapshot>,
    restore: SnapshotRestore,
)
    requires
        call_ensures(update_official_snapshot, (before, updated, after), saved),
        call_ensures(capture_live_official_snapshot, (before, captured, after), taken),
    ensures
        saved is Ok <==> updated is Ok,
        taken is Some <==> captured,
        saved is Err ==> saved->Err_0 == updated->Err_0,
        saved is Ok && call_ensures(AppliedSnapshot::rollback, (&saved->Ok_0,), restore)
            ==> opt_bytes(restore.content) == opt_bytes(before) && opt_bytes(restore.expected)
            == opt_bytes(after),
        taken is Some && call_ensures(AppliedSnapshot::rollback, (&taken->0,), restore) ==> opt_bytes(
            restore.content,
        ) == opt_bytes(before) && opt_bytes(restore.expected) == opt_bytes(after),
{
}

/// Whether a text holds another one as a part.
pub open spec fn holds(text: Seq<char>, part: Seq<char>) -> bool {
    exists|at: int|
        0 <= at && at + part.len() <= text.len() && #[trigger] text.subrange(at, at + part.len())
            == part
}

proof fn lemma_holds(head: Seq<char>, part: Seq<char>, tail: Seq<char>)
    ensures
        holds(head + part + tail, part),
{
    let text = head + part + tail;
    assert(text.subrange(head.len() as int, (head.len() + part.len()) as int) =~= part);
}

/// An error is reported as it is where everything could be undone; where something could not, the
/// report begins with the error and names every failure.
pub proof fn law_failures_of_an_undo_are_reported(
    error: CodexxError,
    live: Option<CodexxError>,
    snapshot: Option<CodexxError>,
    r: CodexxError,
)
    requires
        call_ensures(rollback_after_failure, (error, live, snapshot), r),
    ensures
        live is None && snapshot is None ==> r@ == error@,
        live is Some || snapshot is Some ==> (r@ matches ErrorView::Config(text) && error_text(
            error@,
        ).is_prefix_of(text) && (live matches Some(failure) ==> holds(text, error_text(failure@)))
            && (snapshot matches Some(failure) ==> holds(text, error_text(failure@)))),
{
    let first = error_text(error@);
    if live is Some || snapshot is Some {
        let text = r@->Config_0;
        assert(text.subrange(0, first.len() as int) =~= first);
        let start = first + "；回滚失败："@;
        if live is Some && snapshot is Some {
            let a = error_text(live->0@);
            let b = error_text(snapshot->0@);
            lemma_holds(start + "live 配置: "@, a, "；"@ + "官方快照: "@ + b);
            assert(text =~= start + "live 配置: "@ + a + ("；"@ + "官方快照: "@ + b));
            let empty: Seq<char> = seq![];
            lemma_holds(start + "live 配置: "@ + a + "；"@ + "官方快照: "@, b, empty);
            assert(text =~= start + "live 配置: "@ + a + "；"@ + "官方快照: "@ + b + empty);
        } else if live is Some {
            let a = error_text(live->0@);
            let empty: Seq<char> = seq![];
            lemma_holds(start + "live 配置: "@, a, empty);
            assert(text =~= start + "live 配置: "@ + a + empty);
        } else {
            let b = error_text(snapshot->0@);
            let empty: Seq<char> = seq![];
            lemma_holds(start + "官方快照: "@, b, empty);
            assert(text =~= start + "官方快照: "@ + b + empty);
        }
    }
}

/// The same holds of a saved provider that could not be undone.
pub proof fn law_failures_of_a_provider_undo_are_reported(
    error: CodexxError,
    rollback: Option<CodexxError>,
    r: CodexxError,
)
    requires
        call_ensures(rollback_persisted_provider, (error, rollback), r),
    ensures
        rollback is None ==> r@ == error@,
        rollback matches Some(second) ==> (r@ matches ErrorView::Database(text) && error_text(
            error@,
        ).is_prefix_of(text) && holds(text, error_text(second@))),
{
    if rollback is Some {
        let first = error_text(error@);
        let second = error_text(rollback->0@);
        let text = r@->Database_0;
        let empty: Seq<char> = seq![];
        assert(text.subrange(0, first.len() as int) =~= first);
        lemma_holds(first + "；供应商配置回滚失败: "@, second, empty);
        assert(text =~= first + "；供应商配置回滚失败: "@ + second + empty);
    }
}

/// The text of the configuration that was written is the text whose bytes were written.
pub proof fn law_written_configurations_read_back(
    live: &AppliedLiveFiles,
    text: Seq<char>,
    r: Result<String, CodexxError>,
)
    requires
        call_ensures(applied_config_text, (live,), r),
        live.new_config@ == utf8(text),
    ensures
        r is Ok,
        r->Ok_0@ == text,
{
    encode_utf8_valid_utf8(text);
    encode_utf8_decode_utf8(text);
}

/// An action that succeeded reports its message, its backup and its state; one whose state could not be
/// built is an error, and that error.
pub proof fn law_actions_report_their_outcome<S>(
    message: String,
    backup_id: Option<String>,
    state: Result<S, CodexxError>,
    r: Result<ActionResult<S>, CodexxError>,
)
    requires
        call_ensures(finish_live_action::<S>, (message, backup_id, state), r),
    ensures
        r is Ok <==> state is Ok,
        r matches Ok(result) ==> result.ok && result.message@ == message@ && result.backup_id
            == backup_id && result.state == state->Ok_0,
        r matches Err(error) ==> error == state->Err_0,
{
}

/// A save of the active provider that was applied keeps what the application reported; one that was not
/// is an error, which names a failed undo too.
pub proof fn law_active_saves_report_their_outcome<S>(
    applied: Result<ActionResult<S>, CodexxError>,
    rollback: Option<CodexxError>,
    r: Result<ActionResult<S>, CodexxError>,
)
    requires
        call_ensures(finish_active_save::<S>, (applied, rollback), r),
    ensures
        r is Ok <==> applied is Ok,
        r matches Ok(result) ==> result.ok == applied->Ok_0.ok && result.state == applied->Ok_0.state
            && result.backup_id == applied->Ok_0.backup_id,
        r matches Err(error) && rollback is None ==> r->Err_0@ == applied->Err_0@,
        r matches Err(error) && rollback is Some ==> (r->Err_0@ matches ErrorView::Database(text)
            && holds(text, error_text(applied->Err_0@)) && holds(text, error_text(rollback->0@))),
{
    if r is Err && rollback is Some {
        let first = error_text(applied->Err_0@);
        let second = error_text(rollback->0@);
        let text = r->Err_0@->Database_0;
        let empty: Seq<char> = seq![];
        lemma_holds(
            "热更新供应商失败: "@,
            first,
            "；数据库回滚也失败: "@ + second,
        );
        assert(text =~= "热更新供应商失败: "@ + first + ("；数据库回滚也失败: "@ + second));
        lemma_holds("热更新供应商失败: "@ + first + "；数据库回滚也失败: "@, second, empty);
        assert(text =~= "热更新供应商失败: "@ + first + "；数据库回滚也失败: "@ + second
            + empty);
    }
}

/// A configuration that the user entered is merged as it stands but for white space at its end, with the
/// key that was entered; its catalog is left alone where no provider is saved.
pub proof fn law_entered_configurations_are_merged(
    input: &ProviderTomlInput,
    current_text: &str,
    entered: &str,
    r: Result<MergedConfig, CodexxError>,
    merged: Result<(DocumentMut, Option<String>), CodexxError>,
)
    requires
        call_ensures(save_provider_toml_config_locked, (input, current_text), r),
        entered@ == trimmed_end(input.config_text@),
        call_ensures(
            merge_provider_toml_into_live_with_policy,
            (current_text, entered, &input.api_key, false),
            merged,
        ),
    ensures
        r is Ok <==> merged is Ok,
        r matches Ok(done) ==> document_entries(done.doc) == document_entries(merged->Ok_0.0)
            && opt_view(done.api_key) == opt_view(merged->Ok_0.1) && done.catalog is Keep,
        r matches Err(error) ==> error@ == merged->Err_0@,
{
}

/// A saved provider's configuration is merged in the same way, whole where that is asked for.
pub proof fn law_saved_configurations_are_merged(
    input: &ProviderTomlInput,
    current_text: &str,
    entered: &str,
    saved: Option<&SavedProvider>,
    full: bool,
    r: Result<MergedConfig, CodexxError>,
    merged: Result<(DocumentMut, Option<String>), CodexxError>,
)
    requires
        call_ensures(
            save_provider_toml_config_with_catalog_locked,
            (input, current_text, saved, full),
            r,
        ),
        entered@ == trimmed_end(input.config_text@),
        call_ensures(
            merge_provider_toml_into_live_with_policy,
            (current_text, entered, &input.api_key, full),
            merged,
        ),
    ensures
        merged is Err ==> r is Err && r->Err_0@ == merged->Err_0@,
        merged is Ok && saved is None ==> r is Ok,
        r matches Ok(done) ==> document_entries(done.doc) == document_entries(merged->Ok_0.0)
            && opt_view(done.api_key) == opt_view(merged->Ok_0.1),
{
}

/// What is written of a merged configuration is its text with one line feed at the end, and its key
/// becomes the credential.
pub proof fn law_merged_configurations_are_written(
    doc: &DocumentMut,
    api_key: &Option<String>,
    action: LiveAuthAction,
    r: PreparedSwitch,
)
    requires
        call_ensures(prepare_merged_switch, (doc, api_key), r),
        call_ensures(provider_auth_action, (api_key,), action),
    ensures
        r.replacement@ == trimmed_end(document_text(*doc)).push('\n'),
        r.auth_action@ == action@,
{
    reveal_strlit("\n");
    assert("\n"@ =~= seq!['\n']);
    assert(r.replacement@ =~= trimmed_end(document_text(*doc)).push('\n'));
}

/// A provider with a menu is applied only where it speaks the Responses interface. Without the shared
/// settings the current configuration is used; with them its own template, and a draft where it has
/// none.
pub proof fn law_menus_need_the_responses_interface(
    saved: &SavedProvider,
    common: bool,
    r: Result<ActivationSource, CodexxError>,
    alone: Result<ActivationSource, CodexxError>,
)
    requires
        call_ensures(apply_saved_provider_with_policy_locked, (saved, common), r),
        call_ensures(apply_saved_provider_locked, (saved,), alone),
    ensures
        r is Err <==> saved.model_mappings@.len() > 0 && saved.wire_api@ != "responses"@,
        alone is Err <==> r is Err,
        r matches Ok(source) ==> (source is Activation <==> !common) && (source is Template
            <==> common && saved.toml_config is Some) && (source is Draft <==> common
            && saved.toml_config is None),
        alone matches Ok(source) ==> source is Activation,
{
    assert(saved@.model_mappings.len() == saved.model_mappings@.len());
}

/// The provider that is activated is the saved one of that identifier.
pub proof fn law_activated_providers_are_saved_ones(
    table: &ProviderTable,
    id: &str,
    r: Result<SavedProvider, CodexxError>,
)
    requires
        call_ensures(activate_saved_provider_inner, (table, id), r),
    ensures
        r is Ok <==> row_of(table@, trimmed(id@)) is Some,
        r is Ok && row_of(table@, trimmed(id@))->0.provider.toml_config is None ==> r->Ok_0@ == row_of(
            table@,
            trimmed(id@),
        )->0.provider,
        r is Ok ==> r->Ok_0.id@ == row_of(table@, trimmed(id@))->0.provider.id,
{
}

/// A provider in use is not deleted: an identifier that the live provider has is refused, and so is a
/// blank one; a refusal changes nothing. Otherwise its row is gone, no other is, and it is forgotten
/// where it was the one selected.
pub proof fn law_providers_in_use_are_not_deleted(
    table: &mut ProviderTable,
    id: &str,
    live: &Option<SavedProvider>,
    selected: &mut Option<String>,
    r: Result<(), CodexxError>,
    other: Seq<char>,
)
    requires
        call_ensures(delete_saved_provider_inner, (table, id, live, selected), r),
    ensures
        blank(id@) ==> r is Err,
        !blank(id@) && (*live matches Some(used) && used.id@ == trimmed(id@)) ==> r is Err,
        !blank(id@) && *live is None ==> r is Ok,
        r is Err ==> final(table)@ == old(table)@ && opt_view(*final(selected)) == opt_view(
            *old(selected),
        ),
        r is Ok ==> row_of(final(table)@, trimmed(id@)) is None && (other != trimmed(id@) ==> row_of(
            final(table)@,
            other,
        ) == row_of(old(table)@, other)) && (opt_view(*old(selected)) == Some(trimmed(id@))
            ==> *final(selected) is None) && (opt_view(*old(selected)) != Some(trimmed(id@))
            ==> opt_view(*final(selected)) == opt_view(*old(selected))),
{
    law_removal_concerns_one_row(old(table)@, trimmed(id@), trimmed(id@));
    law_removal_concerns_one_row(old(table)@, trimmed(id@), other);
}

/// Nothing is saved as the active provider while none is in use, or without what every save needs.
pub proof fn law_active_saves_need_an_active_provider(
    table: &ProviderTable,
    provider: SavedProvider,
    live: &Option<SavedProvider>,
    selected: &Option<String>,
    r: Result<SavedProvider, CodexxError>,
)
    requires
        call_ensures(save_active_provider_with_apply, (table, provider, live, selected), r),
    ensures
        *live is None ==> r is Err,
        blank(provider.id@) || blank(provider.provider_name@) || blank(provider.model@) ==> r is Err,
        r matches Ok(saved) ==> saved.provider_name@ == trimmed(provider.provider_name@)
            && saved.model@ == trimmed(provider.model@) && saved.requires_openai_auth
            == provider.requires_openai_auth,
{
}

/// The official configuration is saved with the credential that was entered, if that is an object with
/// a key or a token; with the one that is there where none was entered; and never without one. What was
/// entered as configuration and model is saved without the white space around it.
pub proof fn law_official_saves_keep_a_usable_login(
    model: &Option<String>,
    auth_json: &Option<String>,
    config_text: &Option<String>,
    existing: &Option<OfficialCandidate>,
    official: bool,
    r: Result<OfficialSave, CodexxError>,
    usable: bool,
)
    requires
        call_ensures(
            save_official_config_inner,
            (model, auth_json, config_text, existing, official),
            r,
        ),
    ensures
        ({
            let entered = auth_json is Some && !blank((*auth_json)->0@);
            &&& entered && r is Ok ==> parsed_json(utf8(trimmed((*auth_json)->0@))) == Ok::<
                JsonView,
                Seq<char>,
            >(json_value(r->Ok_0.auth)) && json_value(r->Ok_0.auth) is Object
            &&& entered && r is Ok && call_ensures(
                auth_value_has_material,
                (&r->Ok_0.auth,),
                usable,
            ) ==> usable
            &&& !entered && r is Ok ==> existing is Some && opt_json((*existing)->0.auth) == Some(
                json_value(r->Ok_0.auth),
            )
            &&& !entered && (existing is None || (*existing)->0.auth is None) ==> r is Err
            &&& !entered && existing is Some && (*existing)->0.auth is Some ==> r is Ok
        }),
        r matches Ok(save) ==> {
            &&& save.writes_live == official
            &&& *model matches Some(name) ==> opt_view(save.model) == (if blank(name@) {
                None
            } else {
                Some(trimmed(name@))
            })
            &&& *model is None ==> save.model is None
            &&& config_text is Some && !blank((*config_text)->0@) ==> opt_view(save.requested_config)
                == Some(trimmed((*config_text)->0@))
            &&& (config_text is None || blank((*config_text)->0@)) && existing is Some ==> opt_view(
                save.requested_config,
            ) == opt_view((*existing)->0.config_text)
            &&& (config_text is None || blank((*config_text)->0@)) && existing is None
                ==> save.requested_config is None
        },
{
}

/// A switch to the official interface uses the login of the official configuration where it has one.
/// Otherwise a credential stays only while the route is official already and nothing is known of it: a
/// key seen under a third-party route is never kept.
pub proof fn law_third_party_keys_never_become_official(
    candidate: &Option<OfficialCandidate>,
    was_official: bool,
    r: OfficialSwitch,
)
    requires
        call_ensures(switch_official_provider_with_pre_persist, (candidate, was_official), r),
    ensures
        *candidate matches Some(known) && known.auth is Some ==> (
        r.auth_action matches LiveAuthAction::Replace(auth) && json_value(auth) == json_value(
            (*candidate)->0.auth->0,
        )),
        *candidate matches Some(known) && known.auth is None ==> r.auth_action is Remove,
        *candidate is None && was_official ==> r.auth_action is Keep,
        *candidate is None && !was_official ==> r.auth_action is Remove,
        *candidate matches Some(known) ==> opt_view(r.config_text) == opt_view(known.config_text)
            && opt_view(r.model) == opt_view(known.model),
        *candidate is None ==> r.config_text is None && r.model is None,
        r.clear_model <==> !was_official && r.model is None,
{
}

/// A new official configuration has what was entered, and no credential; the one that is restored is
/// the one that was found.
pub proof fn law_new_official_configurations_have_no_login(
    model: &Option<String>,
    config_text: &Option<String>,
    fresh: OfficialSwitch,
    candidate: Option<OfficialCandidate>,
    restored: Result<(OfficialCandidate, String), CodexxError>,
    asked: Option<String>,
)
    requires
        call_ensures(reset_official_provider_inner, (model, config_text), fresh),
        call_ensures(restore_official_provider_inner, (candidate,), restored),
        call_ensures(requested_official_config, (config_text,), asked),
    ensures
        fresh.auth_action is Remove,
        opt_view(fresh.config_text) == opt_view(asked),
        asked is Some <==> config_text is Some && !blank((*config_text)->0@),
        asked matches Some(text) ==> text@ == trimmed((*config_text)->0@),
        model is Some && !blank((*model)->0@) ==> opt_view(fresh.model) == Some(
            trimmed((*model)->0@),
        ) && !fresh.clear_model,
        model is None || blank((*model)->0@) ==> fresh.model is None && fresh.clear_model,
        restored is Ok <==> candidate is Some,
        restored matches Ok((found, _)) ==> found == candidate->0,
{
}

/// A switch to the official interface takes configuration and model of what is kept, and asks for a
/// login unless a credential goes live.
pub proof fn law_official_switches_use_what_is_kept(
    candidate: &Option<OfficialCandidate>,
    was_official: bool,
    r: OfficialSwitch,
)
    requires
        call_ensures(switch_official_provider_with_pre_persist, (candidate, was_official), r),
    ensures
        *candidate is Some ==> opt_view(r.config_text) == opt_view(candidate->0.config_text)
            && opt_view(r.model) == opt_view(candidate->0.model),
        *candidate is None ==> r.config_text is None && r.model is None,
        r.clear_model <==> !was_official && r.model is None,
        r.auth_action is Replace ==> r.message@ == "已切换到 OpenAI Official"@,
        !(r.auth_action is Replace) ==> r.message@
            == "已切换到 OpenAI Official，请在 Codex 中完成登录"@,
{
}

/// A save of the official configuration writes the live files just where the official route is in
/// use, and says so.
pub proof fn law_official_saves_write_what_is_in_use(
    model: &Option<String>,
    auth_json: &Option<String>,
    config_text: &Option<String>,
    existing: &Option<OfficialCandidate>,
    live_is_official: bool,
    r: Result<OfficialSave, CodexxError>,
)
    requires
        call_ensures(
            save_official_config_inner,
            (model, auth_json, config_text, existing, live_is_official),
            r,
        ),
        r is Ok,
    ensures
        r->Ok_0.writes_live == live_is_official,
        live_is_official ==> r->Ok_0.message@ == "已保存并更新当前 OpenAI Official 配置"@,
        !live_is_official ==> r->Ok_0.message@ == "已保存 OpenAI Official 配置"@,
{
}

} // verus!
