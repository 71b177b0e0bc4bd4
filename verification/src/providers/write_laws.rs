//! What holds of the writes that change the live files together with what is saved: in which order
//! they come, what each expects to find, and what is undone where one fails.
use crate::error::{error_text, CodexxError, ErrorView};
use crate::json::{json_value, opt_json};
use crate::providers::live_action::{ActionKind, ActionPart, ActionStage, LiveAction};
use crate::providers::live_files::{
    removal_write_order, replacement_write_order, rollback_step_failed,
    write_live_files_with_between_writes, AppliedLiveFiles, LiveFile, LiveStage, LiveStep,
    LiveWrite, LiveWriteOrder,
};
use crate::providers::official_auth::config_snapshot_is_official;
use crate::providers::official_display::parse_auth;
use crate::providers::official_profiles::{
    selected_profile_id, Mutation, OfficialProfileDetail, ProfileSave, StoreSnapshot, UndoStep,
};
use crate::providers::profile_change::ProfileChange;
use crate::providers::profile_switch::{
    save_official_profile_inner, switch_official_profile_with_before_apply, PreparedProfile,
};
use crate::text::opt_bytes;
use serde_json::Value;
use vstd::prelude::*;

verus! {

/// A credential is replaced after the configuration just where the route is known to leave a third
/// party for the official interface; one that is removed goes first just where the route is known
/// to become a third party's.
pub proof fn law_orders_follow_the_routes(
    current: Option<&[u8]>,
    target: Option<&[u8]>,
    from: Option<bool>,
    to: Option<bool>,
    replacing: LiveWriteOrder,
    removing: LiveWriteOrder,
)
    requires
        call_ensures(config_snapshot_is_official, (current,), from),
        call_ensures(config_snapshot_is_official, (target,), to),
        call_ensures(replacement_write_order, (current, target), replacing),
        call_ensures(removal_write_order, (target,), removing),
    ensures
        replacing is ConfigFirst <==> from == Some(false) && to == Some(true),
        removing is AuthFirst <==> to == Some(false),
{
}

/// A write starts with its first step, and knows what was there and what is to be there.
pub proof fn law_writes_know_both_files(
    old_config: Option<Vec<u8>>,
    old_auth: Option<Vec<u8>>,
    new_config: Vec<u8>,
    new_auth: Option<Option<Vec<u8>>>,
    r: LiveWrite,
)
    requires
        call_ensures(
            write_live_files_with_between_writes,
            (old_config, old_auth, new_config, new_auth),
            r,
        ),
    ensures
        r.stage is First,
        opt_bytes(r.files.old_config) == opt_bytes(old_config),
        opt_bytes(r.files.old_auth) == opt_bytes(old_auth),
        r.files.new_config@ == new_config@,
        r.files.new_auth is Some <==> new_auth is Some,
        r.files.new_auth is Some ==> opt_bytes(r.files.new_auth->0) == opt_bytes(new_auth->0),
{
    assert(r.files@.old_config == opt_bytes(r.files.old_config));
    assert(r.stage@ is First);
}

/// The file that a step is about.
pub open spec fn file_of(step: LiveStep) -> LiveFile {
    match step {
        LiveStep::Write { file, .. } => file,
        LiveStep::Remove { file, .. } => file,
        LiveStep::Check { file, .. } => file,
        LiveStep::Restore { file, .. } => file,
    }
}

/// What a step expects to find.
pub open spec fn expected_of(step: LiveStep) -> Option<Seq<u8>> {
    match step {
        LiveStep::Write { expected, .. } => opt_bytes(expected),
        LiveStep::Remove { expected, .. } => opt_bytes(expected),
        LiveStep::Check { expected, .. } => opt_bytes(expected),
        LiveStep::Restore { expected, .. } => opt_bytes(expected),
    }
}

/// The steps of a write that concerns a credential. The two writing steps are about different
/// files, each expects what was there, and each leaves what is to be there. Between them the first
/// file is looked at, and undoing puts it back from what was written to what was there.
pub proof fn law_each_file_is_written_once(
    files: AppliedLiveFiles,
    error: CodexxError,
    first: Option<LiveStep>,
    between: Option<LiveStep>,
    check: Option<LiveStep>,
    second: Option<LiveStep>,
    undo: Option<LiveStep>,
)
    requires
        files.new_auth is Some,
        call_ensures(LiveWrite::step, (&LiveWrite { files, stage: LiveStage::First },), first),
        call_ensures(LiveWrite::step, (&LiveWrite { files, stage: LiveStage::Between },), between),
        call_ensures(LiveWrite::step, (&LiveWrite { files, stage: LiveStage::Recheck },), check),
        call_ensures(LiveWrite::step, (&LiveWrite { files, stage: LiveStage::Second },), second),
        call_ensures(LiveWrite::step, (&LiveWrite { files, stage: LiveStage::Undo(error) },), undo),
    ensures
        first is Some && check is Some && second is Some && undo is Some && between is None,
        file_of(first->0) != file_of(second->0),
        file_of(check->0) == file_of(first->0),
        file_of(undo->0) == file_of(first->0),
        forall|step: LiveStep|
            (step == first->0 || step == second->0) ==> ({
                &&& (#[trigger] file_of(step)) is Config ==> step is Write && expected_of(step)
                    == opt_bytes(files.old_config) && step->content@ == files.new_config@
                &&& file_of(step) is Auth ==> expected_of(step) == opt_bytes(files.old_auth)
                &&& file_of(step) is Auth && files.new_auth->0 is Some ==> step is Write
                    && step->content@ == files.new_auth->0->0@
                &&& file_of(step) is Auth && files.new_auth->0 is None ==> step is Remove
            }),
        check->0 is Check,
        undo->0 is Restore,
        file_of(first->0) is Config ==> expected_of(check->0) == Some(files.new_config@)
            && expected_of(undo->0) == Some(files.new_config@) && opt_bytes(
            undo->0->Restore_original,
        ) == opt_bytes(files.old_config),
        file_of(first->0) is Auth ==> expected_of(check->0) == opt_bytes(files.new_auth->0)
            && expected_of(undo->0) == opt_bytes(files.new_auth->0) && opt_bytes(
            undo->0->Restore_original,
        ) == opt_bytes(files.old_auth),
{
    let w = files@;
    assert(first->0@ is Write || first->0@ is Remove);
}

/// A write goes on to its next stage where a stage went well: to the end after the configuration
/// alone, and otherwise through both files. Where a stage fails after the first file was written,
/// that file is put back; the error that stopped the write is then what is reported, and where
/// putting it back fails too, both are.
pub proof fn law_writes_go_on_or_go_back(write: LiveWrite, outcome: Result<(), CodexxError>, r: LiveWrite)
    requires
        call_ensures(LiveWrite::advance, (write, outcome), r),
    ensures
        r.files@ == write.files@,
        outcome is Ok && write.stage is First && write.files.new_auth is None ==> r.stage is Written,
        outcome is Ok && write.stage is First && write.files.new_auth is Some ==> r.stage is Between,
        outcome is Ok && write.stage is Between ==> r.stage is Recheck,
        outcome is Ok && write.stage is Recheck ==> r.stage is Second,
        outcome is Ok && write.stage is Second ==> r.stage is Written,
        outcome is Err && write.stage is First ==> r.stage is Failed && r.stage->Failed_0@
            == outcome->Err_0@,
        outcome is Err && (write.stage is Between || write.stage is Recheck || write.stage is Second)
            ==> r.stage is Undo && r.stage->Undo_0@ == outcome->Err_0@,
        outcome is Ok && write.stage is Undo ==> r.stage is Failed && r.stage->Failed_0@
            == write.stage->Undo_0@,
        outcome is Err && write.stage is Undo ==> r.stage is Failed && (r.stage->Failed_0@
            == ErrorView::Config(
            "写入 Codex live 配置失败："@ + error_text(write.stage->Undo_0@) + "；"@ + "auth.json"@
                + " 回滚也失败："@ + error_text(outcome->Err_0@),
        ) || r.stage->Failed_0@ == ErrorView::Config(
            "写入 Codex live 配置失败："@ + error_text(write.stage->Undo_0@) + "；"@
                + "config.toml"@ + " 回滚也失败："@ + error_text(outcome->Err_0@),
        )),
        write.stage is Written ==> r.stage is Written,
        write.stage is Failed ==> r.stage is Failed && r.stage->Failed_0@ == write.stage->Failed_0@,
{
    assert(r.stage@ is Written <==> r.stage is Written);
}

/// A write ends with what it wrote where both files are written, with its error where it failed,
/// and has not ended otherwise.
pub proof fn law_writes_end_with_their_outcome(
    write: LiveWrite,
    r: Option<Result<AppliedLiveFiles, CodexxError>>,
)
    requires
        call_ensures(LiveWrite::finish, (write,), r),
    ensures
        r is Some <==> write.stage is Written || write.stage is Failed,
        write.stage is Written ==> r->0 is Ok && r->0->Ok_0@ == write.files@,
        write.stage is Failed ==> r->0 is Err && r->0->Err_0@ == write.stage->Failed_0@,
{
}

/// Undoing a finished write looks at the configuration first, and at the credential where the write
/// concerned it, before anything is put back; then each file that the write concerned is put back
/// once, from what was written to what was there.
pub proof fn law_finished_writes_are_undone_whole(files: AppliedLiveFiles, r: Vec<LiveStep>)
    requires
        call_ensures(AppliedLiveFiles::rollback, (&files,), r),
    ensures
        r@.len() >= 2,
        r@[0] is Check && file_of(r@[0]) is Config && expected_of(r@[0]) == Some(files.new_config@),
        files.new_auth is None ==> r@.len() == 2,
        files.new_auth is Some ==> r@.len() >= 3 && r@[1] is Check && file_of(r@[1]) is Auth
            && expected_of(r@[1]) == opt_bytes(files.new_auth->0),
        files.new_auth is Some ==> (r@.len() == 4 <==> files.new_auth->0 is Some
            || files.old_auth is Some),
        r@.len() <= 4,
        r@.len() == 4 ==> file_of(r@[2]) != file_of(r@[3]),
        r@.len() <= 3 ==> file_of(r@.last()) is Config,
        forall|i: int|
            (0 <= i < r@.len() && (i >= 2 || r@.len() == 2 && i == 1)) ==> ({
                let step = #[trigger] r@[i];
                &&& step is Restore
                &&& file_of(step) is Config ==> expected_of(step) == Some(files.new_config@)
                    && opt_bytes(step->Restore_original) == opt_bytes(files.old_config)
                &&& file_of(step) is Auth ==> expected_of(step) == opt_bytes(files.new_auth->0)
                    && opt_bytes(step->Restore_original) == opt_bytes(files.old_auth)
            }),
{
    let views = crate::providers::live_files::step_views(r@);
    assert(views.len() == r@.len());
    assert forall|i: int| 0 <= i < r@.len() implies views[i] == (#[trigger] r@[i])@ by {}
    assert(views[0] == r@[0]@);
    assert(views[1] == r@[1]@);
    if r@.len() >= 3 {
        assert(views[2] == r@[2]@);
    }
    if r@.len() >= 4 {
        assert(views[3] == r@[3]@);
    }
}

/// A file that cannot be put back is named in the error; an error of a step that only looks, or of
/// any other step, is reported as it is.
pub proof fn law_failed_restores_name_the_file(step: &LiveStep, error: CodexxError, r: CodexxError)
    requires
        call_ensures(rollback_step_failed, (step, error), r),
    ensures
        *step is Restore && file_of(*step) is Auth ==> r@ == ErrorView::Config(
            "auth.json: "@ + error_text(error@),
        ),
        *step is Restore && file_of(*step) is Config ==> r@ == ErrorView::Config(
            "config.toml: "@ + error_text(error@),
        ),
        !(*step is Restore) ==> r@ == error@,
{
}

/// What an action does at a place among its parts. A switch to a provider saves the official
/// configuration before it writes anything; a change of the official configuration is written
/// before it is saved, and only prepared and saved where it is not in use. Every action reads the
/// state again after its changes, and only a provider's configuration leaves a mark, at the end.
pub proof fn law_actions_have_their_parts(
    kind: ActionKind,
    wrote: bool,
    saved: bool,
    at: usize,
    r: Option<ActionPart>,
)
    requires
        call_ensures(
            LiveAction::part,
            (&LiveAction { kind, stage: ActionStage::Part(at), wrote, saved },),
            r,
        ),
    ensures
        r is Some <==> at < match kind {
            ActionKind::SwitchProvider => 4int,
            ActionKind::SaveProviderToml => 5int,
            ActionKind::OfficialLive => 4int,
            ActionKind::OfficialSaved => 3int,
        },
        kind is SwitchProvider || kind is SaveProviderToml ==> (r == Some(ActionPart::Snapshot)
            <==> at == 0) && (r == Some(ActionPart::Prepare) <==> at == 1) && (r == Some(
            ActionPart::Write,
        ) <==> at == 2) && (r == Some(ActionPart::State) <==> at == 3),
        r == Some(ActionPart::Mark) <==> kind is SaveProviderToml && at == 4,
        kind is OfficialLive ==> (r == Some(ActionPart::Prepare) <==> at == 0) && (r == Some(
            ActionPart::Write,
        ) <==> at == 1) && (r == Some(ActionPart::Snapshot) <==> at == 2) && (r == Some(
            ActionPart::State,
        ) <==> at == 3),
        kind is OfficialSaved ==> (r == Some(ActionPart::Prepare) <==> at == 0) && (r == Some(
            ActionPart::Snapshot,
        ) <==> at == 1) && (r == Some(ActionPart::State) <==> at == 2) && r != Some(
            ActionPart::Write,
        ),
{
    let action = LiveAction { kind, stage: ActionStage::Part(at), wrote, saved };
    assert(action@.stage == action.stage@);
}

/// An action starts with its first part and nothing changed. It goes on part by part, and notes
/// which parts changed something: the live files at the write, the saved official configuration at
/// the snapshot.
pub proof fn law_actions_note_what_they_change(
    kind: ActionKind,
    new: LiveAction,
    action: LiveAction,
    part: Option<ActionPart>,
    next: Option<ActionPart>,
    changed: bool,
    r: LiveAction,
)
    requires
        call_ensures(LiveAction::new, (kind,), new),
        call_ensures(LiveAction::part, (&action,), part),
        call_ensures(LiveAction::advance, (action, Ok(changed)), r),
        call_ensures(LiveAction::part, (&r,), next),
        part is Some,
        action.stage is Part ==> action.stage->Part_0 < usize::MAX,
    ensures
        new.kind == kind && new.stage is Part && new.stage->Part_0 == 0 && !new.wrote && !new.saved,
        r.kind == action.kind,
        r.stage is Done <==> next is None,
        r.stage is Part <==> next is Some,
        r.stage is Part ==> r.stage->Part_0 == action.stage->Part_0 + 1,
        part == Some(ActionPart::Write) ==> r.wrote == changed && r.saved == action.saved,
        part == Some(ActionPart::Snapshot) ==> r.saved == changed && r.wrote == action.wrote,
        part != Some(ActionPart::Write) && part != Some(ActionPart::Snapshot) ==> r.wrote
            == action.wrote && r.saved == action.saved,
{
    assert(new@.stage == new.stage@);
    assert(action@.stage == action.stage@);
    assert(r@.stage == r.stage@);
}

/// An action that fails undoes what it changed: the live files first, then, only if that went well,
/// the saved official configuration. The error that stopped it is what is reported, with the error
/// of undoing behind it where that failed.
pub proof fn law_failed_actions_undo_in_order(
    action: LiveAction,
    part: Option<ActionPart>,
    outcome: Result<bool, CodexxError>,
    r: LiveAction,
)
    requires
        call_ensures(LiveAction::part, (&action,), part),
        call_ensures(LiveAction::advance, (action, outcome), r),
    ensures
        r.kind == action.kind,
        part is Some && outcome is Err && action.wrote ==> r.stage is UndoLive
            && r.stage->UndoLive_0@ == outcome->Err_0@,
        part is Some && outcome is Err && !action.wrote && action.saved ==> r.stage is UndoSnapshot
            && r.stage->UndoSnapshot_0@ == outcome->Err_0@,
        part is Some && outcome is Err && !action.wrote && !action.saved ==> r.stage is Failed
            && r.stage->Failed_0@ == outcome->Err_0@,
        action.stage is UndoLive && outcome is Ok && action.saved ==> r.stage is UndoSnapshot
            && r.stage->UndoSnapshot_0@ == action.stage->UndoLive_0@ && !r.wrote && r.saved,
        action.stage is UndoLive && outcome is Ok && !action.saved ==> r.stage is Failed
            && r.stage->Failed_0@ == action.stage->UndoLive_0@ && !r.wrote,
        action.stage is UndoLive && outcome is Err ==> r.stage is Failed && r.stage->Failed_0@
            == ErrorView::Config(
            error_text(action.stage->UndoLive_0@) + "；回滚失败："@ + "live 配置: "@ + error_text(
                outcome->Err_0@,
            ),
        ) && r.wrote == action.wrote && r.saved == action.saved,
        action.stage is UndoSnapshot && outcome is Ok ==> r.stage is Failed && r.stage->Failed_0@
            == action.stage->UndoSnapshot_0@ && !r.saved,
        action.stage is UndoSnapshot && outcome is Err ==> r.stage is Failed && r.stage->Failed_0@
            == ErrorView::Config(
            error_text(action.stage->UndoSnapshot_0@) + "；回滚失败："@ + "官方快照: "@
                + error_text(outcome->Err_0@),
        ),
        action.stage is Done ==> r.stage is Done,
        action.stage is Failed ==> r.stage is Failed && r.stage->Failed_0@
            == action.stage->Failed_0@,
{
    assert(action@.stage == action.stage@);
    assert(r@.stage == r.stage@);
}

/// A change of official profiles goes through its parts in order. Where one fails, everything done
/// is undone in the order of the plan; undoing stops only where the live files cannot be put back,
/// and any other failure is noted and passed over. The change ends when there is nothing left.
pub proof fn law_profile_changes_go_on_or_go_back(
    parts: usize,
    new: ProfileChange,
    change: ProfileChange,
    outcome: Result<(), CodexxError>,
    mutation: &Mutation,
    plan: Vec<UndoStep>,
    r: ProfileChange,
)
    requires
        call_ensures(ProfileChange::new, (parts,), new),
        call_ensures(ProfileChange::advance, (change, outcome, mutation), r),
        call_ensures(Mutation::undo_plan, (mutation,), plan),
    ensures
        new.parts == parts,
        parts > 0 ==> new.stage is Do && new.stage->Do_0 == 0,
        parts == 0 ==> new.stage is Done,
        r.parts == change.parts,
        change.stage is Do && outcome is Ok && change.stage->Do_0 + 1 < change.parts ==> r.stage is Do
            && r.stage->Do_0 == change.stage->Do_0 + 1,
        change.stage is Do && outcome is Ok && change.stage->Do_0 + 1 >= change.parts
            ==> r.stage is Done,
        change.stage is Do && outcome is Err && plan@.len() > 0 ==> r.stage is Undo
            && r.stage->Undo_at == 0 && r.stage->Undo_error@ == outcome->Err_0@
            && r.stage->Undo_failures@.len() == 0 && r.stage->Undo_plan@.len() == plan@.len(),
        change.stage is Do && outcome is Err && plan@.len() == 0 ==> r.stage is Failed
            && r.stage->Failed_0@ == outcome->Err_0@,
        change.stage is Undo && change.stage->Undo_at + 1 < change.stage->Undo_plan@.len() && (
        outcome is Ok || !(change.stage->Undo_plan@[change.stage->Undo_at as int] is Live))
            && change.stage->Undo_at < change.stage->Undo_plan@.len() ==> r.stage is Undo
            && r.stage->Undo_at == change.stage->Undo_at + 1 && r.stage->Undo_error@
            == change.stage->Undo_error@ && r.stage->Undo_plan@.len()
            == change.stage->Undo_plan@.len() && r.stage->Undo_failures@.len() == (
        change.stage->Undo_failures@.len() + if outcome is Ok {
            0int
        } else {
            1int
        }),
        change.stage is Undo && outcome is Ok && change.stage->Undo_failures@.len() == 0
            && change.stage->Undo_at + 1 == change.stage->Undo_plan@.len() ==> r.stage is Failed
            && r.stage->Failed_0@ == change.stage->Undo_error@,
        change.stage is Undo && outcome is Ok && change.stage->Undo_failures@.len() == 1
            && change.stage->Undo_at + 1 == change.stage->Undo_plan@.len() ==> r.stage is Failed
            && r.stage->Failed_0@ == ErrorView::Config(
            error_text(change.stage->Undo_error@) + "；回滚失败："@ + error_text(
                change.stage->Undo_failures@[0]@,
            ),
        ),
        change.stage is Undo && outcome is Err && change.stage->Undo_at
            < change.stage->Undo_plan@.len()
            && change.stage->Undo_plan@[change.stage->Undo_at as int] is Live ==> r.stage is Failed
            && r.stage->Failed_0@ == ErrorView::Config(
            error_text(change.stage->Undo_error@)
                + "；live 配置回滚失败，已保留账号恢复快照："@ + error_text(outcome->Err_0@),
        ),
        change.stage is Done ==> r.stage is Done,
        change.stage is Failed ==> r.stage is Failed && r.stage->Failed_0@
            == change.stage->Failed_0@,
{
    let plans = crate::providers::official_profiles::undo_views(plan@);
    assert(plans.len() == plan@.len());
    assert(new.stage@ is Do <==> new.stage is Do);
    assert(new.stage@ is Done <==> new.stage is Done);
    if change.stage is Undo {
        let views = crate::providers::official_profiles::undo_views(change.stage->Undo_plan@);
        assert(views.len() == change.stage->Undo_plan@.len());
        if change.stage->Undo_at < views.len() {
            assert(views[change.stage->Undo_at as int]
                == change.stage->Undo_plan@[change.stage->Undo_at as int]@);
        }
        let texts = crate::providers::official_profiles::error_texts(
            change.stage->Undo_failures@,
        );
        assert(texts.len() == change.stage->Undo_failures@.len());
        if texts.len() == 1 {
            assert(texts =~= seq![error_text(change.stage->Undo_failures@[0]@)]);
            reveal_with_fuel(crate::text::joined_by, 3);
        }
    }
    if r.stage is Undo {
        let views = crate::providers::official_profiles::undo_views(r.stage->Undo_plan@);
        assert(views.len() == r.stage->Undo_plan@.len());
        let texts = crate::providers::official_profiles::error_texts(r.stage->Undo_failures@);
        assert(texts.len() == r.stage->Undo_failures@.len());
    }
}

/// A switch to an official profile keeps the login of the profile in use, if one is, under that
/// profile, and saves the live third-party provider, before the live files are written; then what
/// was written is kept for the profile switched to, and it is selected. Its own credential goes
/// live, or none where it has none, and the message asks for a login where it has none.
pub proof fn law_switches_keep_the_login_in_use(
    store: &StoreSnapshot,
    target: &OfficialProfileDetail,
    official: bool,
    selected: String,
    text: &str,
    parsed: Result<Option<Value>, CodexxError>,
    r: Result<PreparedProfile, CodexxError>,
)
    requires
        call_ensures(switch_official_profile_with_before_apply, (store, target, official), r),
        call_ensures(selected_profile_id, (store,), selected),
        text@ == target.auth_json@,
        call_ensures(parse_auth, (text,), parsed),
    ensures
        parsed is Err ==> r is Err && r->Err_0@ == parsed->Err_0@,
        parsed is Ok ==> r is Ok,
        r is Ok ==> ({
            let steps = r->Ok_0.steps@;
            let n: int = if official {
                1
            } else {
                0
            };
            &&& steps.len() == n + 4
            &&& official ==> steps[0] is Capture && steps[0]->Capture_profile_id@ == selected@
            &&& steps[n] is SaveProvider
            &&& steps[n + 1] is Write
            &&& steps[n + 2] is Keep && steps[n + 2]->Keep_profile_id@ == target.profile.id@
            &&& steps[n + 3] is Select && steps[n + 3]->Select_profile_id@ == target.profile.id@
        }),
        r is Ok ==> opt_json(r->Ok_0.auth) == opt_json(parsed->Ok_0),
        r is Ok && parsed->Ok_0 is Some ==> r->Ok_0.auth_action is Replace && json_value(
            r->Ok_0.auth_action->Replace_0,
        ) == json_value(parsed->Ok_0->0),
        r is Ok && parsed->Ok_0 is None ==> r->Ok_0.auth_action is Remove,
        r is Ok && target.profile.has_auth ==> r->Ok_0.message@ == "已切换到 "@
            + target.profile.provider_name@,
        r is Ok && !target.profile.has_auth ==> r->Ok_0.message@ == "已切换到 "@
            + target.profile.provider_name@ + "，请在 Codex 中完成登录"@,
{
    if r is Ok {
        let steps = r->Ok_0.steps@;
        let views = crate::providers::profile_switch::profile_steps(steps);
        assert(views.len() == steps.len());
        assert forall|i: int| 0 <= i < steps.len() implies views[i] == (#[trigger] steps[i])@ by {}
        assert(views[0] == steps[0]@);
        assert(views[1] == steps[1]@);
        assert(views[2] == steps[2]@);
        assert(views[3] == steps[3]@);
        if official {
            assert(views[4] == steps[4]@);
        }
    }
}

/// A save of an official profile keeps it and records it under its name, and selects it just where
/// it is activated. Only an activation takes the live files over, and only then is the login in use
/// kept and the live provider saved first. The live files are written just where the save says so.
pub proof fn law_saves_record_the_profile(
    store: &StoreSnapshot,
    id: &str,
    save: &ProfileSave,
    activate: bool,
    official: bool,
    selected: String,
    text: &str,
    parsed: Result<Option<Value>, CodexxError>,
    r: Result<PreparedProfile, CodexxError>,
)
    requires
        call_ensures(save_official_profile_inner, (store, id, save, activate, official), r),
        call_ensures(selected_profile_id, (store,), selected),
        text@ == save.auth_text@,
        call_ensures(parse_auth, (text,), parsed),
    ensures
        parsed is Err ==> r is Err && r->Err_0@ == parsed->Err_0@,
        parsed is Ok ==> r is Ok,
        r is Ok ==> ({
            let steps = r->Ok_0.steps@;
            let kept: int = if activate && official {
                1
            } else {
                0
            };
            let taken: int = if activate {
                kept + 1
            } else {
                0
            };
            let n: int = if save.writes_live {
                taken + 1
            } else {
                taken
            };
            &&& steps.len() == n + 2
            &&& kept == 1 ==> steps[0] is Capture && steps[0]->Capture_profile_id@ == selected@
            &&& activate ==> steps[kept] is SaveProvider
            &&& save.writes_live ==> steps[taken] is Write
            &&& steps[n] is Keep && steps[n]->Keep_profile_id@ == id@
            &&& steps[n + 1] is Record && steps[n + 1]->Record_profile_id@ == id@
                && steps[n + 1]->Record_name@ == save.name@ && steps[n + 1]->Record_select
                == activate
        }),
        r is Ok ==> opt_json(r->Ok_0.auth) == opt_json(parsed->Ok_0),
        r is Ok && parsed->Ok_0 is Some ==> r->Ok_0.auth_action is Replace && json_value(
            r->Ok_0.auth_action->Replace_0,
        ) == json_value(parsed->Ok_0->0),
        r is Ok && parsed->Ok_0 is None ==> r->Ok_0.auth_action is Remove,
        r is Ok ==> r->Ok_0.message@ == save.message@,
{
    if r is Ok {
        let steps = r->Ok_0.steps@;
        let views = crate::providers::profile_switch::profile_steps(steps);
        assert(views.len() == steps.len());
        assert forall|i: int| 0 <= i < steps.len() implies views[i] == (#[trigger] steps[i])@ by {}
        assert(views[0] == steps[0]@);
        assert(views[1] == steps[1]@);
        if steps.len() >= 3 {
            assert(views[2] == steps[2]@);
        }
        if steps.len() >= 4 {
            assert(views[3] == steps[3]@);
        }
        if steps.len() >= 5 {
            assert(views[4] == steps[4]@);
        }
    }
}

} // verus!
