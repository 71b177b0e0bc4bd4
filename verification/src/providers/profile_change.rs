//! The order in which a change to official profiles is carried out, and how it is undone when it
//! fails.
use crate::error::{error_text, CodexxError, ErrorView};
use crate::providers::official_profiles::{
    error_texts, undo_steps, undo_views, Mutation, UndoStep, UndoView,
};
use crate::text::joined_by;
use vstd::prelude::*;

verus! {

/// Where a change stands.
#[derive(Debug)]
pub enum ChangeStage {
    /// A part of the change is to be done, by its place.
    Do(usize),
    /// A part is to be undone, by its place in the plan, because of this error. `failures` are the
    /// errors of undoing the parts before it.
    Undo { plan: Vec<UndoStep>, at: usize, error: CodexxError, failures: Vec<CodexxError> },
    /// Every part is done.
    Done,
    /// The change failed.
    Failed(CodexxError),
}

/// Where a change stands, as contracts speak of it.
#[verifier::ext_equal]
pub ghost enum ChangeView {
    Do(int),
    Undo { plan: Seq<UndoView>, at: int, error: ErrorView, failures: Seq<Seq<char>> },
    Done,
    Failed(ErrorView),
}

impl View for ChangeStage {
    type V = ChangeView;

    open spec fn view(&self) -> ChangeView {
        match self {
            ChangeStage::Do(at) => ChangeView::Do(*at as int),
            ChangeStage::Undo { plan, at, error, failures } => ChangeView::Undo {
                plan: undo_views(plan@),
                at: *at as int,
                error: error@,
                failures: error_texts(failures@),
            },
            ChangeStage::Done => ChangeView::Done,
            ChangeStage::Failed(error) => ChangeView::Failed(error@),
        }
    }
}

/// The error of a change that was undone as far as possible, given the texts of the errors of
/// undoing it.
pub open spec fn undone_error(error: ErrorView, failures: Seq<Seq<char>>) -> ErrorView {
    if failures.len() == 0 {
        error
    } else {
        ErrorView::Config(error_text(error) + "；回滚失败："@ + joined_by(failures, "；"@))
    }
}

/// The error of a change whose live files could not be put back.
pub open spec fn blocked_error(error: ErrorView, live: ErrorView) -> ErrorView {
    ErrorView::Config(
        error_text(error) + "；live 配置回滚失败，已保留账号恢复快照："@ + error_text(live),
    )
}

/// The stage at which the part at this place is done, or the one after the last of them.
pub open spec fn doing(parts: int, at: int) -> ChangeView {
    if at < parts {
        ChangeView::Do(at)
    } else {
        ChangeView::Done
    }
}

/// The stage at which the part at this place of a plan is undone, or the one after the last of them.
pub open spec fn undoing(
    plan: Seq<UndoView>,
    at: int,
    error: ErrorView,
    failures: Seq<Seq<char>>,
) -> ChangeView {
    if at < plan.len() {
        ChangeView::Undo { plan, at, error, failures }
    } else {
        ChangeView::Failed(undone_error(error, failures))
    }
}

/// The stage after this one, given how it went and the plan that undoes what was done so far. Where
/// the live files cannot be put back nothing else is undone; any other failure to undo a part is
/// kept for the report.
pub open spec fn after_change(
    parts: int,
    stage: ChangeView,
    outcome: Option<ErrorView>,
    undo: Seq<UndoView>,
) -> ChangeView {
    match (stage, outcome) {
        (ChangeView::Do(at), None) => doing(parts, at + 1),
        (ChangeView::Do(_), Some(error)) => undoing(undo, 0, error, seq![]),
        (ChangeView::Undo { plan, at, error, failures }, None) => undoing(
            plan,
            at + 1,
            error,
            failures,
        ),
        (ChangeView::Undo { plan, at, error, failures }, Some(second)) => if plan[at] is Live {
            ChangeView::Failed(blocked_error(error, second))
        } else {
            undoing(plan, at + 1, error, failures.push(error_text(second)))
        },
        (ChangeView::Done, _) => stage,
        (ChangeView::Failed(_), _) => stage,
    }
}

/// Whether a change can come to stand at this stage.
pub open spec fn change_reachable(parts: int, stage: ChangeView) -> bool {
    match stage {
        ChangeView::Do(at) => 0 <= at < parts,
        ChangeView::Undo { plan, at, .. } => 0 <= at < plan.len(),
        _ => true,
    }
}

/// A change to official profiles that is carried out.
#[derive(Debug)]
pub struct ProfileChange {
    /// How many parts it has.
    pub parts: usize,
    pub stage: ChangeStage,
}

fn undo_or_fail(
    plan: Vec<UndoStep>,
    at: usize,
    error: CodexxError,
    failures: Vec<CodexxError>,
) -> (r: ChangeStage)
    requires
        at <= plan@.len(),
    ensures
        r@ == undoing(undo_views(plan@), at as int, error@, error_texts(failures@)),
{
    if at < plan.len() {
        ChangeStage::Undo { plan, at, error, failures }
    } else {
        ChangeStage::Failed(Mutation::rollback(error, None, &failures))
    }
}

impl ProfileChange {
    /// Begins a change of so many parts. The caller performs the stage, tells `advance` how it went,
    /// and goes on until the stage is `Done` or `Failed`.
    pub fn new(parts: usize) -> (r: ProfileChange)
        ensures
            r.parts == parts,
            r.stage@ == doing(parts as int, 0),
            change_reachable(parts as int, r.stage@),
    {
        let stage = if parts > 0 {
            ChangeStage::Do(0)
        } else {
            ChangeStage::Done
        };
        ProfileChange { parts, stage }
    }

    /// Goes on with the change, given how its stage went and what was done so far.
    pub fn advance(self, outcome: Result<(), CodexxError>, mutation: &Mutation) -> (r: ProfileChange)
        requires
            change_reachable(self.parts as int, self.stage@),
        ensures
            r.parts == self.parts,
            r.stage@ == after_change(
                self.parts as int,
                self.stage@,
                match outcome {
                    Ok(_) => None,
                    Err(error) => Some(error@),
                },
                undo_steps(*mutation),
            ),
            change_reachable(r.parts as int, r.stage@),
    {
        let ProfileChange { parts, stage } = self;
        let stage = match stage {
            ChangeStage::Do(at) => match outcome {
                Ok(_) => if at + 1 < parts {
                    ChangeStage::Do(at + 1)
                } else {
                    ChangeStage::Done
                },
                Err(error) => {
                    let failures: Vec<CodexxError> = Vec::new();
                    assert(error_texts(failures@) =~= seq![]);
                    undo_or_fail(mutation.undo_plan(), 0, error, failures)
                },
            },
            ChangeStage::Undo { plan, at, error, failures } => {
                assert(undo_views(plan@)[at as int] == plan@[at as int]@);
                assert(at < plan.len());
                match outcome {
                    Ok(_) => undo_or_fail(plan, at + 1, error, failures),
                    Err(second) => {
                        let live: bool = match &plan[at] {
                            UndoStep::Live => true,
                            _ => false,
                        };
                        if live {
                            ChangeStage::Failed(Mutation::rollback(error, Some(second), &failures))
                        } else {
                            let ghost earlier = error_texts(failures@);
                            let ghost last = error_text(second@);
                            let mut failures = failures;
                            failures.push(second);
                            assert(error_texts(failures@) =~= earlier.push(last));
                            undo_or_fail(plan, at + 1, error, failures)
                        }
                    },
                }
            },
            ChangeStage::Done => ChangeStage::Done,
            ChangeStage::Failed(error) => ChangeStage::Failed(error),
        };
        ProfileChange { parts, stage }
    }
}

/// A change that fails after it wrote the live files puts them back first. Where that is not
/// possible, nothing else that it did is undone: what was kept of the accounts stays for their
/// recovery.
pub proof fn law_blocked_live_files_keep_what_was_saved(
    parts: int,
    at: int,
    mutation: Mutation,
    error: ErrorView,
    second: ErrorView,
)
    requires
        mutation.live is Some,
        0 <= at < parts,
    ensures
        ({
            let undo = undo_steps(mutation);
            let first = after_change(parts, ChangeView::Do(at), Some(error), undo);
            &&& first matches ChangeView::Undo { plan, at: next, .. } && plan == undo && next == 0
                && plan[0] is Live
            &&& after_change(parts, first, Some(second), undo) == ChangeView::Failed(
                blocked_error(error, second),
            )
        }),
{
    assert(undo_steps(mutation)[0] is Live);
}

/// A part other than the live files that cannot be undone stops nothing: whatever came of it, the
/// next part of the plan is undone, and after the last one the change has failed.
pub proof fn law_other_failures_stop_no_undo(
    parts: int,
    plan: Seq<UndoView>,
    at: int,
    error: ErrorView,
    failures: Seq<Seq<char>>,
    outcome: Option<ErrorView>,
    undo: Seq<UndoView>,
)
    requires
        0 <= at < plan.len(),
        plan[at] !is Live,
    ensures
        match after_change(parts, ChangeView::Undo { plan, at, error, failures }, outcome, undo) {
            ChangeView::Undo { plan: same, at: next, error: kept, .. } => same == plan && next == at
                + 1 && kept == error,
            ChangeView::Failed(_) => at + 1 == plan.len(),
            _ => false,
        },
{
}

} // verus!
