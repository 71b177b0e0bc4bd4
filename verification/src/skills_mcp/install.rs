//! The order in which an import that was decided on is carried out, and what it takes back when it
//! fails.
use crate::error::{CodexxError, ErrorView};
use vstd::prelude::*;

verus! {

/// Where an import stands.
#[derive(Debug)]
pub enum InstallStage {
    /// The records of servers and notes are to be written, in a transaction that stays open.
    Records,
    /// The directory of a skill is to be created, by its place among the skills to install.
    Create(usize),
    /// The configuration and the transaction are to be committed together.
    Commit,
    /// The directory of a skill is to be removed again, because of this error; `created` of them
    /// were created.
    Remove { at: usize, created: usize, error: CodexxError },
    /// Everything is installed.
    Done,
    /// The import failed.
    Failed(CodexxError),
}

/// Where an import stands, as contracts speak of it.
pub ghost enum InstallView {
    Records,
    Create(int),
    Commit,
    Remove { at: int, created: int, error: ErrorView },
    Done,
    Failed(ErrorView),
}

impl View for InstallStage {
    type V = InstallView;

    open spec fn view(&self) -> InstallView {
        match self {
            InstallStage::Records => InstallView::Records,
            InstallStage::Create(at) => InstallView::Create(*at as int),
            InstallStage::Commit => InstallView::Commit,
            InstallStage::Remove { at, created, error } => InstallView::Remove {
                at: *at as int,
                created: *created as int,
                error: error@,
            },
            InstallStage::Done => InstallView::Done,
            InstallStage::Failed(error) => InstallView::Failed(error@),
        }
    }
}

/// The stage at which the directory at this place is created, or the one after the last of them.
pub open spec fn creating(skills: int, at: int) -> InstallView {
    if at < skills {
        InstallView::Create(at)
    } else {
        InstallView::Commit
    }
}

/// The stage at which the directory at this place is removed again, or the one after the last of
/// them.
pub open spec fn removing(at: int, created: int, error: ErrorView) -> InstallView {
    if at < created {
        InstallView::Remove { at, created, error }
    } else {
        InstallView::Failed(error)
    }
}

/// The stage after this one, given how it went. A directory that cannot be removed stops nothing.
pub open spec fn after_install(skills: int, stage: InstallView, outcome: Option<ErrorView>) -> InstallView {
    match (stage, outcome) {
        (InstallView::Records, None) => creating(skills, 0),
        (InstallView::Records, Some(error)) => InstallView::Failed(error),
        (InstallView::Create(at), None) => creating(skills, at + 1),
        (InstallView::Create(at), Some(error)) => removing(0, at, error),
        (InstallView::Commit, None) => InstallView::Done,
        (InstallView::Commit, Some(error)) => removing(0, skills, error),
        (InstallView::Remove { at, created, error }, _) => removing(at + 1, created, error),
        (InstallView::Done, _) => stage,
        (InstallView::Failed(_), _) => stage,
    }
}

/// An import that is carried out.
#[derive(Debug)]
pub struct Install {
    /// How many skills are to be installed.
    pub skills: usize,
    pub stage: InstallStage,
}

fn create_or_commit(skills: usize, at: usize) -> (r: InstallStage)
    ensures
        r@ == creating(skills as int, at as int),
{
    if at < skills {
        InstallStage::Create(at)
    } else {
        InstallStage::Commit
    }
}

fn remove_or_fail(at: usize, created: usize, error: CodexxError) -> (r: InstallStage)
    ensures
        r@ == removing(at as int, created as int, error@),
{
    if at < created {
        InstallStage::Remove { at, created, error }
    } else {
        InstallStage::Failed(error)
    }
}

/// Whether an import can come to stand at this stage.
pub open spec fn install_reachable(skills: int, stage: InstallView) -> bool {
    match stage {
        InstallView::Create(at) => 0 <= at < skills,
        InstallView::Remove { at, created, .. } => 0 <= at < created <= skills,
        _ => true,
    }
}

impl Install {
    /// Begins an import of so many skills. The caller performs the stage, tells `advance` how it
    /// went, and goes on until the stage is `Done` or `Failed`.
    pub fn new(skills: usize) -> (r: Install)
        ensures
            r.skills == skills,
            r.stage@ == InstallView::Records,
    {
        Install { skills, stage: InstallStage::Records }
    }

    /// Goes on with the import, given how its stage went.
    pub fn advance(self, outcome: Result<(), CodexxError>) -> (r: Install)
        requires
            install_reachable(self.skills as int, self.stage@),
        ensures
            r.skills == self.skills,
            r.stage@ == after_install(
                self.skills as int,
                self.stage@,
                match outcome {
                    Ok(_) => None,
                    Err(error) => Some(error@),
                },
            ),
            install_reachable(r.skills as int, r.stage@),
    {
        let Install { skills, stage } = self;
        let stage = match stage {
            InstallStage::Records => match outcome {
                Ok(_) => create_or_commit(skills, 0),
                Err(error) => InstallStage::Failed(error),
            },
            InstallStage::Create(at) => match outcome {
                Ok(_) => create_or_commit(skills, at + 1),
                Err(error) => remove_or_fail(0, at, error),
            },
            InstallStage::Commit => match outcome {
                Ok(_) => InstallStage::Done,
                Err(error) => remove_or_fail(0, skills, error),
            },
            InstallStage::Remove { at, created, error } => remove_or_fail(at + 1, created, error),
            InstallStage::Done => InstallStage::Done,
            InstallStage::Failed(error) => InstallStage::Failed(error),
        };
        Install { skills, stage }
    }
}

/// The skills whose directories this import has created and not removed again, by their places.
pub open spec fn present(skills: int, stage: InstallView) -> Set<int> {
    match stage {
        InstallView::Records => Set::empty(),
        InstallView::Create(at) => Set::new(|i: int| 0 <= i < at),
        InstallView::Commit => Set::new(|i: int| 0 <= i < skills),
        InstallView::Remove { at, created, .. } => Set::new(|i: int| at <= i < created),
        InstallView::Done => Set::new(|i: int| 0 <= i < skills),
        InstallView::Failed(_) => Set::empty(),
    }
}

/// What performing a stage makes of the directories: one is created where creating it went well,
/// one is removed, or nothing happens to them.
pub open spec fn directories_after(before: Set<int>, stage: InstallView, went_well: bool) -> Set<int> {
    match stage {
        InstallView::Create(at) => if went_well {
            before.insert(at)
        } else {
            before
        },
        InstallView::Remove { at, .. } => before.remove(at),
        _ => before,
    }
}

/// An import that fails has removed every directory that it created, and one that succeeds has
/// created each exactly once: whatever the outcome of a stage, the directories that are there
/// after it are those that belong to the stage that follows, none of them where the import failed.
pub proof fn law_failed_import_leaves_no_directory(
    skills: int,
    stage: InstallView,
    outcome: Option<ErrorView>,
)
    requires
        0 <= skills,
        install_reachable(skills, stage),
    ensures
        present(skills, after_install(skills, stage, outcome)) == directories_after(
            present(skills, stage),
            stage,
            outcome is None,
        ),
        install_reachable(skills, after_install(skills, stage, outcome)),
        stage matches InstallView::Create(at) ==> !present(skills, stage).contains(at),
        after_install(skills, stage, outcome) is Failed ==> present(
            skills,
            after_install(skills, stage, outcome),
        ) == Set::<int>::empty(),
{
    let after = after_install(skills, stage, outcome);
    assert(present(skills, after) =~= directories_after(
        present(skills, stage),
        stage,
        outcome is None,
    ));
}

} // verus!
