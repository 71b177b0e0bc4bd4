//! The order in which an action on the live configuration does its parts, and what it undoes when
//! one of them fails.
use crate::error::{CodexxError, ErrorView};
use crate::providers::live::{rollback_after_failure, undone};
use vstd::prelude::*;

verus! {

/// An action on the live configuration.
#[derive(Debug, Clone, Copy, PartialEq, Eq, Structural)]
pub enum ActionKind {
    /// A switch to a provider that the user entered.
    SwitchProvider,
    /// A switch to a provider's configuration.
    SaveProviderToml,
    /// A change of the official configuration while it is in use, or a switch to it.
    OfficialLive,
    /// A change of the official configuration while it is not in use.
    OfficialSaved,
}

/// A part of an action.
#[derive(Debug, Clone, Copy, PartialEq, Eq, Structural)]
pub enum ActionPart {
    /// The official configuration is saved.
    Snapshot,
    /// What is to be written is put together.
    Prepare,
    /// The live files are written.
    Write,
    /// The state of the application is read again.
    State,
    /// It is noted that somebody decided about the settings that providers share.
    Mark,
}

/// The parts of an action, in order. A provider that takes the live files over does so after the
/// official configuration was saved; an official configuration is saved once it is live.
pub open spec fn parts(kind: ActionKind) -> Seq<ActionPart> {
    match kind {
        ActionKind::SwitchProvider => seq![
            ActionPart::Snapshot,
            ActionPart::Prepare,
            ActionPart::Write,
            ActionPart::State,
        ],
        ActionKind::SaveProviderToml => seq![
            ActionPart::Snapshot,
            ActionPart::Prepare,
            ActionPart::Write,
            ActionPart::State,
            ActionPart::Mark,
        ],
        ActionKind::OfficialLive => seq![
            ActionPart::Prepare,
            ActionPart::Write,
            ActionPart::Snapshot,
            ActionPart::State,
        ],
        ActionKind::OfficialSaved => seq![
            ActionPart::Prepare,
            ActionPart::Snapshot,
            ActionPart::State,
        ],
    }
}

/// Where an action stands.
#[derive(Debug)]
pub enum ActionStage {
    /// A part is to be done, by its place among the parts.
    Part(usize),
    /// The live files are to be put back, because of this error.
    UndoLive(CodexxError),
    /// The saved official configuration is to be put back, because of this error.
    UndoSnapshot(CodexxError),
    /// Every part is done.
    Done,
    /// The action failed.
    Failed(CodexxError),
}

/// Where an action stands, as contracts speak of it.
pub ghost enum ActionStageView {
    Part(int),
    UndoLive(ErrorView),
    UndoSnapshot(ErrorView),
    Done,
    Failed(ErrorView),
}

impl View for ActionStage {
    type V = ActionStageView;

    open spec fn view(&self) -> ActionStageView {
        match self {
            ActionStage::Part(at) => ActionStageView::Part(*at as int),
            ActionStage::UndoLive(error) => ActionStageView::UndoLive(error@),
            ActionStage::UndoSnapshot(error) => ActionStageView::UndoSnapshot(error@),
            ActionStage::Done => ActionStageView::Done,
            ActionStage::Failed(error) => ActionStageView::Failed(error@),
        }
    }
}

/// An action under way.
#[derive(Debug)]
pub struct LiveAction {
    pub kind: ActionKind,
    pub stage: ActionStage,
    /// Whether the live files were changed.
    pub wrote: bool,
    /// Whether the saved official configuration was changed.
    pub saved: bool,
}

/// An action under way, as contracts speak of it.
pub ghost struct ActionView {
    pub kind: ActionKind,
    pub stage: ActionStageView,
    pub wrote: bool,
    pub saved: bool,
}

impl View for LiveAction {
    type V = ActionView;

    open spec fn view(&self) -> ActionView {
        ActionView { kind: self.kind, stage: self.stage@, wrote: self.wrote, saved: self.saved }
    }
}

/// The stage of an action that failed: what it changed is undone first, the live files before the
/// official configuration.
pub open spec fn failing(action: ActionView, error: ErrorView) -> ActionStageView {
    if action.wrote {
        ActionStageView::UndoLive(error)
    } else if action.saved {
        ActionStageView::UndoSnapshot(error)
    } else {
        ActionStageView::Failed(error)
    }
}

/// An action after a part of it went well; `changed` says whether there is something to undo.
pub open spec fn after_part(action: ActionView, at: int, changed: bool) -> ActionView {
    let part = parts(action.kind)[at];
    ActionView {
        stage: if at + 1 < parts(action.kind).len() {
            ActionStageView::Part(at + 1)
        } else {
            ActionStageView::Done
        },
        wrote: if part == ActionPart::Write {
            changed
        } else {
            action.wrote
        },
        saved: if part == ActionPart::Snapshot {
            changed
        } else {
            action.saved
        },
        ..action
    }
}

/// An action after its stage was performed. The saved official configuration is not put back
/// where the live files could not be: it is then what they can be recovered from.
pub open spec fn after_stage(action: ActionView, outcome: Result<bool, ErrorView>) -> ActionView {
    match (action.stage, outcome) {
        (ActionStageView::Part(at), Ok(changed)) => if 0 <= at < parts(action.kind).len() {
            after_part(action, at, changed)
        } else {
            action
        },
        (ActionStageView::Part(at), Err(error)) => if 0 <= at < parts(action.kind).len() {
            ActionView { stage: failing(action, error), ..action }
        } else {
            action
        },
        (ActionStageView::UndoLive(error), Ok(_)) => ActionView {
            stage: if action.saved {
                ActionStageView::UndoSnapshot(error)
            } else {
                ActionStageView::Failed(error)
            },
            wrote: false,
            ..action
        },
        (ActionStageView::UndoLive(error), Err(second)) => ActionView {
            stage: ActionStageView::Failed(undone(error, Some(second), None)),
            ..action
        },
        (ActionStageView::UndoSnapshot(error), Ok(_)) => ActionView {
            stage: ActionStageView::Failed(error),
            saved: false,
            ..action
        },
        (ActionStageView::UndoSnapshot(error), Err(second)) => ActionView {
            stage: ActionStageView::Failed(undone(error, None, Some(second))),
            ..action
        },
        (ActionStageView::Done, _) => action,
        (ActionStageView::Failed(_), _) => action,
    }
}

fn part_at(kind: ActionKind, at: usize) -> (r: Option<ActionPart>)
    ensures
        r == if at < parts(kind).len() {
            Some(parts(kind)[at as int])
        } else {
            None
        },
{
    match (kind, at) {
        (ActionKind::SwitchProvider, 0) => Some(ActionPart::Snapshot),
        (ActionKind::SwitchProvider, 1) => Some(ActionPart::Prepare),
        (ActionKind::SwitchProvider, 2) => Some(ActionPart::Write),
        (ActionKind::SwitchProvider, 3) => Some(ActionPart::State),
        (ActionKind::SaveProviderToml, 0) => Some(ActionPart::Snapshot),
        (ActionKind::SaveProviderToml, 1) => Some(ActionPart::Prepare),
        (ActionKind::SaveProviderToml, 2) => Some(ActionPart::Write),
        (ActionKind::SaveProviderToml, 3) => Some(ActionPart::State),
        (ActionKind::SaveProviderToml, 4) => Some(ActionPart::Mark),
        (ActionKind::OfficialLive, 0) => Some(ActionPart::Prepare),
        (ActionKind::OfficialLive, 1) => Some(ActionPart::Write),
        (ActionKind::OfficialLive, 2) => Some(ActionPart::Snapshot),
        (ActionKind::OfficialLive, 3) => Some(ActionPart::State),
        (ActionKind::OfficialSaved, 0) => Some(ActionPart::Prepare),
        (ActionKind::OfficialSaved, 1) => Some(ActionPart::Snapshot),
        (ActionKind::OfficialSaved, 2) => Some(ActionPart::State),
        _ => None,
    }
}

impl LiveAction {
    /// Begins an action. The caller does what `part` says or undoes what the stage says, tells
    /// `advance` how it went, and goes on until the stage is `Done` or `Failed`.
    pub fn new(kind: ActionKind) -> (r: LiveAction)
        ensures
            r@ == (ActionView {
                kind,
                stage: ActionStageView::Part(0),
                wrote: false,
                saved: false,
            }),
    {
        LiveAction { kind, stage: ActionStage::Part(0), wrote: false, saved: false }
    }

    /// The part that is to be done next, if any.
    pub fn part(&self) -> (r: Option<ActionPart>)
        ensures
            r == match self@.stage {
                ActionStageView::Part(at) => if 0 <= at < parts(self@.kind).len() {
                    Some(parts(self@.kind)[at])
                } else {
                    None
                },
                _ => None,
            },
    {
        match &self.stage {
            ActionStage::Part(at) => part_at(self.kind, *at),
            _ => None,
        }
    }

    /// Goes on with the action, given how its stage went. `Ok(true)` says that there is something
    /// to undo from now on.
    pub fn advance(self, outcome: Result<bool, CodexxError>) -> (r: LiveAction)
        ensures
            r@ == after_stage(
                self@,
                match outcome {
                    Ok(changed) => Ok(changed),
                    Err(error) => Err(error@),
                },
            ),
    {
        let LiveAction { kind, stage, wrote, saved } = self;
        match stage {
            ActionStage::Part(at) => match part_at(kind, at) {
                None => LiveAction { kind, stage: ActionStage::Part(at), wrote, saved },
                Some(part) => match outcome {
                    Ok(changed) => {
                        let stage = match part_at(kind, at + 1) {
                            Some(_) => ActionStage::Part(at + 1),
                            None => ActionStage::Done,
                        };
                        let wrote: bool = if part == ActionPart::Write {
                            changed
                        } else {
                            wrote
                        };
                        let saved: bool = if part == ActionPart::Snapshot {
                            changed
                        } else {
                            saved
                        };
                        LiveAction { kind, stage, wrote, saved }
                    },
                    Err(error) => {
                        let stage = if wrote {
                            ActionStage::UndoLive(error)
                        } else if saved {
                            ActionStage::UndoSnapshot(error)
                        } else {
                            ActionStage::Failed(error)
                        };
                        LiveAction { kind, stage, wrote, saved }
                    },
                },
            },
            ActionStage::UndoLive(error) => match outcome {
                Ok(_) => {
                    let stage = if saved {
                        ActionStage::UndoSnapshot(error)
                    } else {
                        ActionStage::Failed(error)
                    };
                    LiveAction { kind, stage, wrote: false, saved }
                },
                Err(second) => {
                    let error = rollback_after_failure(error, Some(second), None);
                    LiveAction { kind, stage: ActionStage::Failed(error), wrote, saved }
                },
            },
            ActionStage::UndoSnapshot(error) => match outcome {
                Ok(_) => LiveAction {
                    kind,
                    stage: ActionStage::Failed(error),
                    wrote,
                    saved: false,
                },
                Err(second) => {
                    let error = rollback_after_failure(error, None, Some(second));
                    LiveAction { kind, stage: ActionStage::Failed(error), wrote, saved }
                },
            },
            ActionStage::Done => LiveAction { kind, stage: ActionStage::Done, wrote, saved },
            ActionStage::Failed(error) => LiveAction {
                kind,
                stage: ActionStage::Failed(error),
                wrote,
                saved,
            },
        }
    }
}

/// Whether an action can come to stand where it does: it has changed nothing that belongs to a
/// part still to be done, and undoes only what it changed.
pub open spec fn reachable(action: ActionView) -> bool {
    match action.stage {
        ActionStageView::Part(at) => {
            &&& 0 <= at < parts(action.kind).len()
            &&& action.wrote ==> parts(action.kind).take(at).contains(ActionPart::Write)
            &&& action.saved ==> parts(action.kind).take(at).contains(ActionPart::Snapshot)
        },
        ActionStageView::UndoLive(_) => action.wrote,
        ActionStageView::UndoSnapshot(_) => !action.wrote && action.saved,
        ActionStageView::Done => true,
        ActionStageView::Failed(_) => true,
    }
}

/// Every stage that an action comes to is one that it can stand at.
pub proof fn law_actions_stay_in_order(action: ActionView, outcome: Result<bool, ErrorView>)
    requires
        reachable(action),
    ensures
        reachable(after_stage(action, outcome)),
{
    if let (ActionStageView::Part(at), Ok(changed)) = (action.stage, outcome) {
        let before = parts(action.kind).take(at);
        let after = parts(action.kind).take(at + 1);
        assert(after[at] == parts(action.kind)[at]);
        assert forall|part: ActionPart| before.contains(part) implies after.contains(part) by {
            let i = before.index_of(part);
            assert(after[i] == part);
        }
    }
}

/// An action that fails at any part undoes exactly what it changed, and then reports the error
/// that stopped it.
pub proof fn law_failed_action_undoes_what_it_changed(action: ActionView, error: ErrorView)
    requires
        reachable(action),
        action.stage is Part,
    ensures
        ({
            let failed = after_stage(action, Err(error));
            let first = after_stage(failed, Ok(true));
            let second = after_stage(first, Ok(true));
            &&& failed.stage is UndoLive <==> action.wrote
            &&& failed.stage is UndoSnapshot <==> !action.wrote && action.saved
            &&& action.wrote ==> (first.stage is UndoSnapshot <==> action.saved)
            &&& second.stage == ActionStageView::Failed(error)
            &&& !second.wrote
            &&& !second.saved
        }),
{
}

/// Where the live files cannot be put back, the saved official configuration stays, so that they
/// can be recovered from it.
pub proof fn law_recovery_point_survives_a_blocked_undo(
    action: ActionView,
    error: ErrorView,
    second: ErrorView,
)
    requires
        action.stage == ActionStageView::UndoLive(error),
    ensures
        after_stage(action, Err(second)).stage == ActionStageView::Failed(
            undone(error, Some(second), None),
        ),
        after_stage(action, Err(second)).saved == action.saved,
{
}

/// How many more stages an action can go through.
pub open spec fn stages_left(action: ActionView) -> int {
    match action.stage {
        ActionStageView::Part(at) => parts(action.kind).len() - at + 2,
        ActionStageView::UndoLive(_) => 2,
        ActionStageView::UndoSnapshot(_) => 1,
        ActionStageView::Done => 0,
        ActionStageView::Failed(_) => 0,
    }
}

/// Every action comes to an end.
pub proof fn law_actions_end(action: ActionView, outcome: Result<bool, ErrorView>)
    requires
        reachable(action),
        !(action.stage is Done),
        !(action.stage is Failed),
    ensures
        0 <= stages_left(after_stage(action, outcome)) < stages_left(action),
{
}

} // verus!
