//! Writing the live configuration and credential together, and undoing it.
//!
//! The two files are written one after the other. Which one comes first decides what a reader
//! sees in between; see the laws at the end.
use crate::error::{config, error_text, CodexxError, ErrorView};
use crate::providers::official_auth::{config_snapshot_is_official, official_snapshot};
use crate::text::{copy_bytes, copy_opt_bytes, joined, joined3, opt_bytes};
use vstd::prelude::*;

verus! {

/// Which of the two live files is written first.
#[derive(Clone, Copy, Debug, PartialEq, Eq, Structural)]
pub enum LiveWriteOrder {
    AuthFirst,
    ConfigFirst,
}

/// The order in which a credential and a configuration are replaced: a route that leaves a third
/// party for the official interface is published before the credential.
pub open spec fn replacement_order(current: Option<Seq<u8>>, target: Option<Seq<u8>>) -> LiveWriteOrder {
    if official_snapshot(current) == Some(false) && official_snapshot(target) == Some(true) {
        LiveWriteOrder::ConfigFirst
    } else {
        LiveWriteOrder::AuthFirst
    }
}

/// The order in which a credential is removed and a configuration replaced: a third-party route
/// is published only after the credential is gone.
pub open spec fn removal_order(target: Option<Seq<u8>>) -> LiveWriteOrder {
    if official_snapshot(target) == Some(false) {
        LiveWriteOrder::AuthFirst
    } else {
        LiveWriteOrder::ConfigFirst
    }
}

/// The bytes of an optional slice.
pub open spec fn opt_slice(bytes: Option<&[u8]>) -> Option<Seq<u8>> {
    match bytes {
        Some(bytes) => Some(bytes@),
        None => None,
    }
}

/// The order in which a credential and a configuration are replaced.
pub fn replacement_write_order(current_config: Option<&[u8]>, target_config: Option<&[u8]>) -> (r:
    LiveWriteOrder)
    ensures
        r == replacement_order(opt_slice(current_config), opt_slice(target_config)),
{
    let leaves: bool = match config_snapshot_is_official(current_config) {
        Some(official) => !official,
        None => false,
    };
    let arrives: bool = match config_snapshot_is_official(target_config) {
        Some(official) => official,
        None => false,
    };
    if leaves && arrives {
        LiveWriteOrder::ConfigFirst
    } else {
        LiveWriteOrder::AuthFirst
    }
}

/// The order in which a credential is removed and a configuration replaced.
pub fn removal_write_order(target_config: Option<&[u8]>) -> (r: LiveWriteOrder)
    ensures
        r == removal_order(opt_slice(target_config)),
{
    match config_snapshot_is_official(target_config) {
        Some(false) => LiveWriteOrder::AuthFirst,
        _ => LiveWriteOrder::ConfigFirst,
    }
}

/// One of the two live files.
#[derive(Clone, Copy, Debug, PartialEq, Eq, Structural)]
pub enum LiveFile {
    Config,
    Auth,
}

/// Something to be done with a live file. Each is refused where the file no longer holds what is
/// expected of it.
#[derive(Debug)]
pub enum LiveStep {
    /// The file is replaced.
    Write { file: LiveFile, expected: Option<Vec<u8>>, content: Vec<u8> },
    /// The file is removed.
    Remove { file: LiveFile, expected: Option<Vec<u8>> },
    /// Nothing is done.
    Check { file: LiveFile, expected: Option<Vec<u8>> },
    /// The file is put back to what it was, or removed where it was not there.
    Restore { file: LiveFile, expected: Option<Vec<u8>>, original: Option<Vec<u8>> },
}

/// Something to be done with a live file, as contracts speak of it.
pub ghost enum StepView {
    Write { file: LiveFile, expected: Option<Seq<u8>>, content: Seq<u8> },
    Remove { file: LiveFile, expected: Option<Seq<u8>> },
    Check { file: LiveFile, expected: Option<Seq<u8>> },
    Restore { file: LiveFile, expected: Option<Seq<u8>>, original: Option<Seq<u8>> },
}

impl View for LiveStep {
    type V = StepView;

    open spec fn view(&self) -> StepView {
        match self {
            LiveStep::Write { file, expected, content } => StepView::Write {
                file: *file,
                expected: opt_bytes(*expected),
                content: content@,
            },
            LiveStep::Remove { file, expected } => StepView::Remove {
                file: *file,
                expected: opt_bytes(*expected),
            },
            LiveStep::Check { file, expected } => StepView::Check {
                file: *file,
                expected: opt_bytes(*expected),
            },
            LiveStep::Restore { file, expected, original } => StepView::Restore {
                file: *file,
                expected: opt_bytes(*expected),
                original: opt_bytes(*original),
            },
        }
    }
}

/// The two live files before and after a write. `new_auth` is `None` where the credential is left
/// alone and `Some(None)` where it is removed.
#[derive(Debug)]
pub struct AppliedLiveFiles {
    pub old_config: Option<Vec<u8>>,
    pub old_auth: Option<Vec<u8>>,
    pub new_config: Vec<u8>,
    pub new_auth: Option<Option<Vec<u8>>>,
}

/// The two live files before and after a write, as contracts speak of them.
pub ghost struct AppliedView {
    pub old_config: Option<Seq<u8>>,
    pub old_auth: Option<Seq<u8>>,
    pub new_config: Seq<u8>,
    pub new_auth: Option<Option<Seq<u8>>>,
}

impl View for AppliedLiveFiles {
    type V = AppliedView;

    open spec fn view(&self) -> AppliedView {
        AppliedView {
            old_config: opt_bytes(self.old_config),
            old_auth: opt_bytes(self.old_auth),
            new_config: self.new_config@,
            new_auth: match self.new_auth {
                Some(auth) => Some(opt_bytes(auth)),
                None => None,
            },
        }
    }
}

/// The order in which a write touches the two files, where it touches both.
pub open spec fn write_order(files: AppliedView) -> LiveWriteOrder {
    match files.new_auth {
        Some(None) => removal_order(Some(files.new_config)),
        _ => replacement_order(files.old_config, Some(files.new_config)),
    }
}

/// The step that writes the configuration.
pub open spec fn config_step(files: AppliedView) -> StepView {
    StepView::Write {
        file: LiveFile::Config,
        expected: files.old_config,
        content: files.new_config,
    }
}

/// The step that writes or removes the credential.
pub open spec fn auth_step(files: AppliedView, new_auth: Option<Seq<u8>>) -> StepView {
    match new_auth {
        Some(content) => StepView::Write {
            file: LiveFile::Auth,
            expected: files.old_auth,
            content,
        },
        None => StepView::Remove { file: LiveFile::Auth, expected: files.old_auth },
    }
}

/// Where a write stands.
#[derive(Debug)]
pub enum LiveStage {
    /// The first file is to be written.
    First,
    /// Whatever is to happen between the two writes.
    Between,
    /// The first file is to be looked at once more.
    Recheck,
    /// The second file is to be written.
    Second,
    /// The first file is to be put back, because of this error.
    Undo(CodexxError),
    /// Both files are written.
    Written,
    /// The write failed.
    Failed(CodexxError),
}

/// Where a write stands, as contracts speak of it.
pub ghost enum StageView {
    First,
    Between,
    Recheck,
    Second,
    Undo(ErrorView),
    Written,
    Failed(ErrorView),
}

impl View for LiveStage {
    type V = StageView;

    open spec fn view(&self) -> StageView {
        match self {
            LiveStage::First => StageView::First,
            LiveStage::Between => StageView::Between,
            LiveStage::Recheck => StageView::Recheck,
            LiveStage::Second => StageView::Second,
            LiveStage::Undo(error) => StageView::Undo(error@),
            LiveStage::Written => StageView::Written,
            LiveStage::Failed(error) => StageView::Failed(error@),
        }
    }
}

/// The step that belongs to a stage; none between the two writes and at the end.
pub open spec fn step_of(files: AppliedView, stage: StageView) -> Option<StepView> {
    match files.new_auth {
        None => match stage {
            StageView::First => Some(config_step(files)),
            _ => None,
        },
        Some(new_auth) => match (write_order(files), stage) {
            (LiveWriteOrder::AuthFirst, StageView::First) => Some(auth_step(files, new_auth)),
            (LiveWriteOrder::AuthFirst, StageView::Recheck) => Some(
                StepView::Check { file: LiveFile::Auth, expected: new_auth },
            ),
            (LiveWriteOrder::AuthFirst, StageView::Second) => Some(config_step(files)),
            (LiveWriteOrder::AuthFirst, StageView::Undo(_)) => Some(
                StepView::Restore {
                    file: LiveFile::Auth,
                    expected: new_auth,
                    original: files.old_auth,
                },
            ),
            (LiveWriteOrder::ConfigFirst, StageView::First) => Some(config_step(files)),
            (LiveWriteOrder::ConfigFirst, StageView::Recheck) => Some(
                StepView::Check { file: LiveFile::Config, expected: Some(files.new_config) },
            ),
            (LiveWriteOrder::ConfigFirst, StageView::Second) => Some(auth_step(files, new_auth)),
            (LiveWriteOrder::ConfigFirst, StageView::Undo(_)) => Some(
                StepView::Restore {
                    file: LiveFile::Config,
                    expected: Some(files.new_config),
                    original: files.old_config,
                },
            ),
            _ => None,
        },
    }
}

/// The name of the file that a write touches first.
pub open spec fn first_file_name(files: AppliedView) -> Seq<char> {
    match write_order(files) {
        LiveWriteOrder::AuthFirst => "auth.json"@,
        LiveWriteOrder::ConfigFirst => "config.toml"@,
    }
}

/// The stage that follows, given how the step of a stage went.
pub open spec fn next_stage(files: AppliedView, stage: StageView, outcome: Option<ErrorView>) -> StageView {
    match (stage, outcome) {
        (StageView::First, None) => if files.new_auth is None {
            StageView::Written
        } else {
            StageView::Between
        },
        (StageView::First, Some(error)) => StageView::Failed(error),
        (StageView::Between, None) => StageView::Recheck,
        (StageView::Recheck, None) => StageView::Second,
        (StageView::Second, None) => StageView::Written,
        (StageView::Between, Some(error)) => StageView::Undo(error),
        (StageView::Recheck, Some(error)) => StageView::Undo(error),
        (StageView::Second, Some(error)) => StageView::Undo(error),
        (StageView::Undo(error), None) => StageView::Failed(error),
        (StageView::Undo(error), Some(second)) => StageView::Failed(
            ErrorView::Config(
                "写入 Codex live 配置失败："@ + error_text(error) + "；"@ + first_file_name(files)
                    + " 回滚也失败："@ + error_text(second),
            ),
        ),
        (StageView::Written, _) => stage,
        (StageView::Failed(_), _) => stage,
    }
}

fn order_of(files: &AppliedLiveFiles) -> (r: LiveWriteOrder)
    ensures
        r == write_order(files@),
{
    match &files.new_auth {
        Some(None) => removal_write_order(Some(files.new_config.as_slice())),
        _ => match &files.old_config {
            Some(old) => replacement_write_order(
                Some(old.as_slice()),
                Some(files.new_config.as_slice()),
            ),
            None => replacement_write_order(None, Some(files.new_config.as_slice())),
        },
    }
}

/// A write of the live files under way.
#[derive(Debug)]
pub struct LiveWrite {
    pub files: AppliedLiveFiles,
    pub stage: LiveStage,
}

/// Begins a write of the live files. The caller performs what `step` says, tells `advance` how it
/// went, and goes on until the stage is `Written` or `Failed`.
pub fn write_live_files_with_between_writes(
    old_config: Option<Vec<u8>>,
    old_auth: Option<Vec<u8>>,
    new_config: Vec<u8>,
    new_auth: Option<Option<Vec<u8>>>,
) -> (r: LiveWrite)
    ensures
        r.files@ == (AppliedView {
            old_config: opt_bytes(old_config),
            old_auth: opt_bytes(old_auth),
            new_config: new_config@,
            new_auth: match new_auth {
                Some(auth) => Some(opt_bytes(auth)),
                None => None,
            },
        }),
        r.stage@ == StageView::First,
{
    LiveWrite {
        files: AppliedLiveFiles { old_config, old_auth, new_config, new_auth },
        stage: LiveStage::First,
    }
}

impl LiveWrite {
    /// What is to be done next; nothing between the two writes and at the end.
    pub fn step(&self) -> (r: Option<LiveStep>)
        ensures
            match step_of(self.files@, self.stage@) {
                Some(view) => r matches Some(step) && step@ == view,
                None => r is None,
            },
    {
        let files = &self.files;
        let new_auth = match &files.new_auth {
            None => {
                return match &self.stage {
                    LiveStage::First => Some(write_config(files)),
                    _ => None,
                };
            },
            Some(new_auth) => new_auth,
        };
        match order_of(files) {
            LiveWriteOrder::AuthFirst => match &self.stage {
                LiveStage::First => Some(write_auth(files, new_auth)),
                LiveStage::Recheck => Some(
                    LiveStep::Check { file: LiveFile::Auth, expected: copy_opt_bytes(new_auth) },
                ),
                LiveStage::Second => Some(write_config(files)),
                LiveStage::Undo(_) => Some(
                    LiveStep::Restore {
                        file: LiveFile::Auth,
                        expected: copy_opt_bytes(new_auth),
                        original: copy_opt_bytes(&files.old_auth),
                    },
                ),
                _ => None,
            },
            LiveWriteOrder::ConfigFirst => match &self.stage {
                LiveStage::First => Some(write_config(files)),
                LiveStage::Recheck => Some(
                    LiveStep::Check {
                        file: LiveFile::Config,
                        expected: Some(copy_bytes(&files.new_config)),
                    },
                ),
                LiveStage::Second => Some(write_auth(files, new_auth)),
                LiveStage::Undo(_) => Some(
                    LiveStep::Restore {
                        file: LiveFile::Config,
                        expected: Some(copy_bytes(&files.new_config)),
                        original: copy_opt_bytes(&files.old_config),
                    },
                ),
                _ => None,
            },
        }
    }

    /// Goes on with the write, given how the last step went.
    pub fn advance(self, outcome: Result<(), CodexxError>) -> (r: LiveWrite)
        ensures
            r.files@ == self.files@,
            r.stage@ == next_stage(
                self.files@,
                self.stage@,
                match outcome {
                    Ok(_) => None,
                    Err(error) => Some(error@),
                },
            ),
    {
        let LiveWrite { files, stage } = self;
        let stage = match (stage, outcome) {
            (LiveStage::First, Ok(_)) => if files.new_auth.is_none() {
                LiveStage::Written
            } else {
                LiveStage::Between
            },
            (LiveStage::First, Err(error)) => LiveStage::Failed(error),
            (LiveStage::Between, Ok(_)) => LiveStage::Recheck,
            (LiveStage::Recheck, Ok(_)) => LiveStage::Second,
            (LiveStage::Second, Ok(_)) => LiveStage::Written,
            (LiveStage::Between, Err(error)) => LiveStage::Undo(error),
            (LiveStage::Recheck, Err(error)) => LiveStage::Undo(error),
            (LiveStage::Second, Err(error)) => LiveStage::Undo(error),
            (LiveStage::Undo(error), Ok(_)) => LiveStage::Failed(error),
            (LiveStage::Undo(error), Err(second)) => {
                let name = match order_of(&files) {
                    LiveWriteOrder::AuthFirst => "auth.json",
                    LiveWriteOrder::ConfigFirst => "config.toml",
                };
                let mut message = joined3("写入 Codex live 配置失败：", &error.text(), "；");
                message.append(name);
                message.append(" 回滚也失败：");
                message.append(&second.text());
                LiveStage::Failed(CodexxError::Config(message))
            },
            (LiveStage::Written, _) => LiveStage::Written,
            (LiveStage::Failed(error), _) => LiveStage::Failed(error),
        };
        LiveWrite { files, stage }
    }

    /// How the write ended: the files, or the error. `None` while it is under way.
    pub fn finish(self) -> (r: Option<Result<AppliedLiveFiles, CodexxError>>)
        ensures
            match self.stage@ {
                StageView::Written => r matches Some(Ok(files)) && files@ == self.files@,
                StageView::Failed(error) => r matches Some(Err(found)) && found@ == error,
                _ => r is None,
            },
    {
        match self.stage {
            LiveStage::Written => Some(Ok(self.files)),
            LiveStage::Failed(error) => Some(Err(error)),
            _ => None,
        }
    }
}

fn write_config(files: &AppliedLiveFiles) -> (r: LiveStep)
    ensures
        r@ == config_step(files@),
{
    LiveStep::Write {
        file: LiveFile::Config,
        expected: copy_opt_bytes(&files.old_config),
        content: copy_bytes(&files.new_config),
    }
}

fn write_auth(files: &AppliedLiveFiles, new_auth: &Option<Vec<u8>>) -> (r: LiveStep)
    ensures
        r@ == auth_step(files@, opt_bytes(*new_auth)),
{
    match new_auth {
        Some(content) => LiveStep::Write {
            file: LiveFile::Auth,
            expected: copy_opt_bytes(&files.old_auth),
            content: copy_bytes(content),
        },
        None => LiveStep::Remove {
            file: LiveFile::Auth,
            expected: copy_opt_bytes(&files.old_auth),
        },
    }
}

/// The order in which an undone write puts the two files back.
pub open spec fn rollback_order(files: AppliedView) -> LiveWriteOrder {
    replacement_order(Some(files.new_config), files.old_config)
}

/// The step that puts the configuration back.
pub open spec fn restore_config(files: AppliedView) -> StepView {
    StepView::Restore {
        file: LiveFile::Config,
        expected: Some(files.new_config),
        original: files.old_config,
    }
}

/// The step that puts the credential back.
pub open spec fn restore_auth(files: AppliedView, new_auth: Option<Seq<u8>>) -> StepView {
    StepView::Restore { file: LiveFile::Auth, expected: new_auth, original: files.old_auth }
}

/// The steps that undo a write: both files are looked at, then put back. A credential that was
/// not there before and is not there now needs no step.
pub open spec fn rollback_steps(files: AppliedView) -> Seq<StepView> {
    let check_config = StepView::Check {
        file: LiveFile::Config,
        expected: Some(files.new_config),
    };
    match files.new_auth {
        None => seq![check_config, restore_config(files)],
        Some(new_auth) => {
            let check_auth = StepView::Check { file: LiveFile::Auth, expected: new_auth };
            if new_auth is None && files.old_auth is None {
                seq![check_config, check_auth, restore_config(files)]
            } else if rollback_order(files) is AuthFirst {
                seq![
                    check_config,
                    check_auth,
                    restore_auth(files, new_auth),
                    restore_config(files),
                ]
            } else {
                seq![
                    check_config,
                    check_auth,
                    restore_config(files),
                    restore_auth(files, new_auth),
                ]
            }
        },
    }
}

/// Steps, as contracts speak of them.
pub open spec fn step_views(steps: Seq<LiveStep>) -> Seq<StepView> {
    steps.map_values(|step: LiveStep| step@)
}

impl AppliedLiveFiles {
    /// The steps that undo the write, to be performed in order until one fails.
    pub fn rollback(&self) -> (r: Vec<LiveStep>)
        ensures
            step_views(r@) == rollback_steps(self@),
    {
        let mut steps: Vec<LiveStep> = Vec::new();
        steps.push(
            LiveStep::Check {
                file: LiveFile::Config,
                expected: Some(copy_bytes(&self.new_config)),
            },
        );
        let config_back = LiveStep::Restore {
            file: LiveFile::Config,
            expected: Some(copy_bytes(&self.new_config)),
            original: copy_opt_bytes(&self.old_config),
        };
        match &self.new_auth {
            None => {
                steps.push(config_back);
            },
            Some(new_auth) => {
                steps.push(
                    LiveStep::Check { file: LiveFile::Auth, expected: copy_opt_bytes(new_auth) },
                );
                let auth_back = LiveStep::Restore {
                    file: LiveFile::Auth,
                    expected: copy_opt_bytes(new_auth),
                    original: copy_opt_bytes(&self.old_auth),
                };
                let order = match &self.old_config {
                    Some(old) => replacement_write_order(
                        Some(self.new_config.as_slice()),
                        Some(old.as_slice()),
                    ),
                    None => replacement_write_order(Some(self.new_config.as_slice()), None),
                };
                if new_auth.is_none() && self.old_auth.is_none() {
                    steps.push(config_back);
                } else {
                    match order {
                        LiveWriteOrder::AuthFirst => {
                            steps.push(auth_back);
                            steps.push(config_back);
                        },
                        LiveWriteOrder::ConfigFirst => {
                            steps.push(config_back);
                            steps.push(auth_back);
                        },
                    }
                }
            },
        }
        assert(step_views(steps@) =~= rollback_steps(self@));
        steps
    }
}

/// The error that an undone write reports where one of its steps fails: a step that puts a file
/// back names the file.
pub open spec fn rollback_failure(step: StepView, error: ErrorView) -> ErrorView {
    match step {
        StepView::Restore { file: LiveFile::Auth, .. } => ErrorView::Config(
            "auth.json: "@ + error_text(error),
        ),
        StepView::Restore { file: LiveFile::Config, .. } => ErrorView::Config(
            "config.toml: "@ + error_text(error),
        ),
        _ => error,
    }
}

/// The error that an undone write reports where one of its steps fails.
pub fn rollback_step_failed(step: &LiveStep, error: CodexxError) -> (r: CodexxError)
    ensures
        r@ == rollback_failure(step@, error@),
{
    match step {
        LiveStep::Restore { file: LiveFile::Auth, .. } => CodexxError::Config(
            joined("auth.json: ", &error.text()),
        ),
        LiveStep::Restore { file: LiveFile::Config, .. } => CodexxError::Config(
            joined("config.toml: ", &error.text()),
        ),
        _ => error,
    }
}

/// What the two live files hold.
pub ghost struct LiveState {
    pub config: Option<Seq<u8>>,
    pub auth: Option<Seq<u8>>,
}

/// What a live file holds.
pub open spec fn held(state: LiveState, file: LiveFile) -> Option<Seq<u8>> {
    match file {
        LiveFile::Config => state.config,
        LiveFile::Auth => state.auth,
    }
}

/// The live files after one of them was given this content.
pub open spec fn with_file(state: LiveState, file: LiveFile, content: Option<Seq<u8>>) -> LiveState {
    match file {
        LiveFile::Config => LiveState { config: content, ..state },
        LiveFile::Auth => LiveState { auth: content, ..state },
    }
}

/// What a step makes of the live files; nothing where it is refused because a file does not hold
/// what the step expects.
pub open spec fn performed(state: LiveState, step: StepView) -> Option<LiveState> {
    match step {
        StepView::Write { file, expected, content } => if held(state, file) == expected {
            Some(with_file(state, file, Some(content)))
        } else {
            None
        },
        StepView::Remove { file, expected } => if held(state, file) == expected {
            Some(with_file(state, file, None))
        } else {
            None
        },
        StepView::Check { file, expected } => if held(state, file) == expected {
            Some(state)
        } else {
            None
        },
        StepView::Restore { file, expected, original } => if held(state, file) == expected {
            Some(with_file(state, file, original))
        } else {
            None
        },
    }
}

/// The live files before a write.
pub open spec fn state_before(files: AppliedView) -> LiveState {
    LiveState { config: files.old_config, auth: files.old_auth }
}

/// The live files after a write.
pub open spec fn state_after(files: AppliedView) -> LiveState {
    LiveState {
        config: Some(files.new_config),
        auth: match files.new_auth {
            Some(auth) => auth,
            None => files.old_auth,
        },
    }
}

/// The live files between the two writes.
pub open spec fn state_between(files: AppliedView) -> LiveState {
    match write_order(files) {
        LiveWriteOrder::AuthFirst => LiveState { config: files.old_config, ..state_after(files) },
        LiveWriteOrder::ConfigFirst => LiveState { auth: files.old_auth, ..state_after(files) },
    }
}

/// A write that nothing interferes with takes the live files from what they were to what they
/// are to be, through one state in between.
pub proof fn law_write_publishes_both_files(files: AppliedView)
    requires
        files.new_auth is Some,
    ensures
        step_of(files, StageView::First) matches Some(step) && performed(state_before(files), step)
            == Some(state_between(files)),
        step_of(files, StageView::Recheck) matches Some(step) && performed(
            state_between(files),
            step,
        ) == Some(state_between(files)),
        step_of(files, StageView::Second) matches Some(step) && performed(
            state_between(files),
            step,
        ) == Some(state_after(files)),
{
}

/// A write that leaves the credential alone is one step.
pub proof fn law_write_of_configuration_alone(files: AppliedView)
    requires
        files.new_auth is None,
    ensures
        step_of(files, StageView::First) matches Some(step) && performed(state_before(files), step)
            == Some(state_after(files)),
        next_stage(files, StageView::First, None) == StageView::Written,
{
}

/// A write that fails after its first step puts the first file back, so that both files are what
/// they were.
pub proof fn law_failed_write_changes_nothing(files: AppliedView, error: ErrorView)
    requires
        files.new_auth is Some,
    ensures
        step_of(files, StageView::Undo(error)) matches Some(step) && performed(
            state_between(files),
            step,
        ) == Some(state_before(files)),
        next_stage(files, StageView::Undo(error), None) == StageView::Failed(error),
        next_stage(files, StageView::First, Some(error)) == StageView::Failed(error),
        next_stage(files, StageView::Between, Some(error)) == StageView::Undo(error),
        next_stage(files, StageView::Recheck, Some(error)) == StageView::Undo(error),
        next_stage(files, StageView::Second, Some(error)) == StageView::Undo(error),
{
}

/// No step touches a file that something else changed in the meantime.
pub proof fn law_steps_refuse_a_changed_file(state: LiveState, step: StepView)
    ensures
        performed(state, step) is Some <==> match step {
            StepView::Write { file, expected, .. } => held(state, file) == expected,
            StepView::Remove { file, expected } => held(state, file) == expected,
            StepView::Check { file, expected } => held(state, file) == expected,
            StepView::Restore { file, expected, .. } => held(state, file) == expected,
        },
{
}

/// While a write leads from a third-party route to the official one, the new credential is never
/// there together with the third-party route.
pub proof fn law_official_credential_waits_for_its_route(files: AppliedView)
    requires
        files.new_auth matches Some(Some(_)),
        official_snapshot(files.old_config) == Some(false),
        official_snapshot(Some(files.new_config)) == Some(true),
    ensures
        state_between(files) == (LiveState {
            config: Some(files.new_config),
            auth: files.old_auth,
        }),
        official_snapshot(state_between(files).config) == Some(true),
{
}

/// While a write leads to a third-party route without a credential, the old credential is never
/// there together with the new route.
pub proof fn law_removed_credential_precedes_third_party_route(files: AppliedView)
    requires
        files.new_auth == Some(None::<Seq<u8>>),
        official_snapshot(Some(files.new_config)) == Some(false),
    ensures
        state_between(files) == (LiveState { config: files.old_config, auth: None }),
{
}

/// The live files after steps were performed in order; nothing where one was refused.
pub open spec fn performed_all(state: LiveState, steps: Seq<StepView>) -> Option<LiveState>
    decreases steps.len(),
{
    if steps.len() == 0 {
        Some(state)
    } else {
        match performed_all(state, steps.drop_last()) {
            Some(reached) => performed(reached, steps.last()),
            None => None,
        }
    }
}

/// Undoing a write brings both files back to what they were before it.
pub proof fn law_rollback_restores_both_files(files: AppliedView)
    ensures
        performed_all(state_after(files), rollback_steps(files)) == Some(state_before(files)),
{
    let steps = rollback_steps(files);
    let state = state_after(files);
    reveal_with_fuel(performed_all, 5);
    assert(steps.drop_last().len() == steps.len() - 1);
}

/// Undoing a write is refused as a whole where the configuration, or a credential that the write
/// concerned, is no longer what the write left: one of the first two steps, which only look at the
/// files, fails before any file is touched.
pub proof fn law_rollback_refuses_changed_files(files: AppliedView, state: LiveState)
    requires
        state.config != Some(files.new_config) || (files.new_auth matches Some(left) && state.auth
            != left),
    ensures
        ({
            let steps = rollback_steps(files);
            &&& steps[0] is Check
            &&& state.config != Some(files.new_config) ==> performed(state, steps[0]) is None
            &&& state.config == Some(files.new_config) ==> performed(state, steps[0]) == Some(state)
                && steps[1] is Check && performed(state, steps[1]) is None
            &&& performed_all(state, steps) is None
        }),
{
    let steps = rollback_steps(files);
    reveal_with_fuel(performed_all, 5);
    assert(steps.drop_last().len() == steps.len() - 1);
}

/// While an undone write leads from a third-party route to the official one, the credential that
/// comes back is never there together with the third-party route.
pub proof fn law_rollback_keeps_credential_from_third_party_route(files: AppliedView, auth: Seq<u8>)
    requires
        files.new_auth == Some(Some(auth)),
        official_snapshot(Some(files.new_config)) == Some(false),
        official_snapshot(files.old_config) == Some(true),
    ensures
        rollback_steps(files).len() == 4,
        rollback_steps(files)[2] == restore_config(files),
        performed_all(state_after(files), rollback_steps(files).take(3)) == Some(
            LiveState { config: files.old_config, auth: Some(auth) },
        ),
{
    reveal_with_fuel(performed_all, 4);
    let steps = rollback_steps(files).take(3);
    assert(steps.len() == 3);
}

} // verus!
