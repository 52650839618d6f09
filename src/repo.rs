//! The repository state machine: bootstrapping a project directory to a
//! repository with at least one commit, and recording or stashing edits.
//!
//! Each operation is a small machine. Its driver runs the command it is
//! given, hands back the outcome, and repeats until the machine is done.
use vstd::prelude::*;
use vstd::string::StrSliceExecFns;
use crate::text::trim_of;
use crate::git::{GitCommand, GitError, Outcome, Step, head_result, outcome_error, check_exit};

verus! {

/// The state of a project directory, as far as bootstrapping is concerned.
#[derive(Clone, Copy, Debug, PartialEq, Eq, Structural)]
pub enum RepoState {
    /// No store directory.
    Absent,
    /// A store directory without commits.
    Empty,
    /// A store directory with at least one commit.
    Ready,
}

/// The state of a directory from what was observed of it.
pub fn repo_state(has_store_directory: bool, has_commits: bool) -> (r: RepoState)
    ensures
        r == (if !has_store_directory {
            RepoState::Absent
        } else if has_commits {
            RepoState::Ready
        } else {
            RepoState::Empty
        }),
{
    if !has_store_directory {
        RepoState::Absent
    } else if has_commits {
        RepoState::Ready
    } else {
        RepoState::Empty
    }
}

/// Whether a directory in this state is a repository.
pub fn is_git_repo(state: RepoState) -> (r: bool)
    ensures
        r == !(state is Absent),
{
    match state {
        RepoState::Absent => false,
        _ => true,
    }
}

/// Where a bootstrap stands.
#[derive(Clone, Copy, Debug, PartialEq, Eq, Structural)]
pub enum BootPhase {
    /// Waiting for `rev-parse HEAD`: does the existing store have a commit?
    Probe,
    /// Waiting for `init`.
    Init,
    /// Waiting for the committer name to be configured.
    ConfigName,
    /// Waiting for the committer email to be configured.
    ConfigEmail,
    /// Waiting for every file of the working tree to be staged.
    Stage,
    /// Waiting for the initial commit.
    Commit,
    /// The result has been handed out.
    Finished,
}

/// What a successful bootstrap did. The last two fields record the
/// best-effort steps, whose failure does not stop a bootstrap.
#[derive(Clone, Copy, Debug, PartialEq, Eq, Structural)]
pub struct BootReport {
    /// The repository already had a commit; nothing was done.
    pub was_ready: bool,
    /// The store directory was created.
    pub created_store: bool,
    /// Both identity settings were stored.
    pub identity_configured: bool,
    /// Staging the working tree reported success.
    pub staged: bool,
}

/// Who the bootstrap commit is made by, and its message.
#[derive(Clone, Debug)]
pub struct Identity {
    pub name: String,
    pub email: String,
    pub initial_message: String,
}

/// A bootstrap in progress.
#[derive(Debug)]
pub struct Bootstrap {
    pub identity: Identity,
    pub phase: BootPhase,
    pub created_store: bool,
    pub identity_configured: bool,
    pub staged: bool,
}

pub open spec fn boot_start(identity: Identity, has_store_directory: bool) -> (Bootstrap, GitCommand) {
    let b = Bootstrap {
        identity,
        phase: if has_store_directory {
            BootPhase::Probe
        } else {
            BootPhase::Init
        },
        created_store: false,
        identity_configured: false,
        staged: false,
    };
    (b, if has_store_directory {
        GitCommand::RevParseHead
    } else {
        GitCommand::Init
    })
}

/// The bootstrap after the outcome `o` of its last command, and its next step.
pub open spec fn boot_next(b: Bootstrap, o: Outcome) -> (Bootstrap, Step<BootReport>) {
    let done = Bootstrap { phase: BootPhase::Finished, ..b };
    match b.phase {
        BootPhase::Probe => if head_result(o) is Ok {
            (
                done,
                Step::Done(
                    Ok(
                        BootReport {
                            was_ready: true,
                            created_store: false,
                            identity_configured: false,
                            staged: false,
                        },
                    ),
                ),
            )
        } else {
            (Bootstrap { phase: BootPhase::ConfigName, ..b }, Step::Run(GitCommand::ConfigUserName { name: b.identity.name }))
        },
        BootPhase::Init => match outcome_error(o) {
            Some(e) => (done, Step::Done(Err(e))),
            None => (
                Bootstrap { phase: BootPhase::ConfigName, created_store: true, ..b },
                Step::Run(GitCommand::ConfigUserName { name: b.identity.name }),
            ),
        },
        BootPhase::ConfigName => (
            Bootstrap {
                phase: BootPhase::ConfigEmail,
                identity_configured: outcome_error(o) is None,
                ..b
            },
            Step::Run(GitCommand::ConfigUserEmail { email: b.identity.email }),
        ),
        BootPhase::ConfigEmail => (
            Bootstrap {
                phase: BootPhase::Stage,
                identity_configured: b.identity_configured && outcome_error(o) is None,
                ..b
            },
            Step::Run(GitCommand::AddAll),
        ),
        BootPhase::Stage => (
            Bootstrap { phase: BootPhase::Commit, staged: outcome_error(o) is None, ..b },
            Step::Run(GitCommand::CommitInitial { message: b.identity.initial_message }),
        ),
        BootPhase::Commit => match outcome_error(o) {
            Some(e) => (done, Step::Done(Err(e))),
            None => (
                done,
                Step::Done(
                    Ok(
                        BootReport {
                            was_ready: false,
                            created_store: b.created_store,
                            identity_configured: b.identity_configured,
                            staged: b.staged,
                        },
                    ),
                ),
            ),
        },
        BootPhase::Finished => (done, Step::Done(Err(GitError::Decode))),
    }
}

impl Bootstrap {
    /// Starts bringing a directory to a repository with at least one commit.
    /// Where the store directory exists, the first command asks whether it
    /// has a commit; else it creates the store.
    pub fn ensure_git_repo(identity: Identity, has_store_directory: bool) -> (r: (Bootstrap, GitCommand))
        ensures
            r == boot_start(identity, has_store_directory),
    {
        let b = Bootstrap {
            identity,
            phase: if has_store_directory {
                BootPhase::Probe
            } else {
                BootPhase::Init
            },
            created_store: false,
            identity_configured: false,
            staged: false,
        };
        (b, if has_store_directory {
            GitCommand::RevParseHead
        } else {
            GitCommand::Init
        })
    }

    pub fn is_finished(&self) -> (r: bool)
        ensures
            r == (self.phase == BootPhase::Finished),
    {
        self.phase == BootPhase::Finished
    }

    /// Takes the outcome of the last command and says what comes next.
    pub fn advance(&mut self, o: Outcome) -> (r: Step<BootReport>)
        requires
            old(self).phase != BootPhase::Finished,
        ensures
            (*final(self), r) == boot_next(*old(self), o),
    {
        let created_store = self.created_store;
        let identity_configured = self.identity_configured;
        let staged = self.staged;
        let (phase, created_store, identity_configured, staged, step) = match self.phase {
            BootPhase::Probe => {
                let ok = match crate::git::git_current_commit(o) {
                    Ok(_) => true,
                    Err(_) => false,
                };
                if ok {
                    let report = BootReport {
                        was_ready: true,
                        created_store: false,
                        identity_configured: false,
                        staged: false,
                    };
                    (BootPhase::Finished, created_store, identity_configured, staged, Step::Done(Ok(report)))
                } else {
                    let cmd = GitCommand::ConfigUserName { name: self.identity.name.clone() };
                    (BootPhase::ConfigName, created_store, identity_configured, staged, Step::Run(cmd))
                }
            },
            BootPhase::Init => match check_exit(o) {
                Err(e) => (BootPhase::Finished, created_store, identity_configured, staged, Step::Done(Err(e))),
                Ok(_) => {
                    let cmd = GitCommand::ConfigUserName { name: self.identity.name.clone() };
                    (BootPhase::ConfigName, true, identity_configured, staged, Step::Run(cmd))
                },
            },
            BootPhase::ConfigName => {
                let ok = match check_exit(o) {
                    Ok(_) => true,
                    Err(_) => false,
                };
                let cmd = GitCommand::ConfigUserEmail { email: self.identity.email.clone() };
                (BootPhase::ConfigEmail, created_store, ok, staged, Step::Run(cmd))
            },
            BootPhase::ConfigEmail => {
                let ok = match check_exit(o) {
                    Ok(_) => true,
                    Err(_) => false,
                };
                (BootPhase::Stage, created_store, identity_configured && ok, staged, Step::Run(GitCommand::AddAll))
            },
            BootPhase::Stage => {
                let ok = match check_exit(o) {
                    Ok(_) => true,
                    Err(_) => false,
                };
                let cmd = GitCommand::CommitInitial { message: self.identity.initial_message.clone() };
                (BootPhase::Commit, created_store, identity_configured, ok, Step::Run(cmd))
            },
            BootPhase::Commit => match check_exit(o) {
                Err(e) => (BootPhase::Finished, created_store, identity_configured, staged, Step::Done(Err(e))),
                Ok(_) => {
                    let report = BootReport { was_ready: false, created_store, identity_configured, staged };
                    (BootPhase::Finished, created_store, identity_configured, staged, Step::Done(Ok(report)))
                },
            },
            BootPhase::Finished => (
                BootPhase::Finished,
                created_store,
                identity_configured,
                staged,
                Step::Done(Err(GitError::Decode)),
            ),
        };
        self.phase = phase;
        self.created_store = created_store;
        self.identity_configured = identity_configured;
        self.staged = staged;
        step
    }
}

/// Bootstrapping a directory without a store creates it, configures the
/// committer, stages every file of the working tree, and only then makes the
/// one initial commit, which may be empty; then the repository is ready.
/// The committer settings and the staging may fail without stopping it.
pub proof fn law_bootstrap_from_absent(identity: Identity, init: Outcome, name: Outcome, email: Outcome, stage: Outcome, commit: Outcome)
    requires
        outcome_error(init) is None,
        outcome_error(commit) is None,
    ensures
        ({
            let (b0, c0) = boot_start(identity, false);
            let (b1, s1) = boot_next(b0, init);
            let (b2, s2) = boot_next(b1, name);
            let (b3, s3) = boot_next(b2, email);
            let (b4, s4) = boot_next(b3, stage);
            let (b5, s5) = boot_next(b4, commit);
            &&& c0 is Init
            &&& s1 == Step::<BootReport>::Run(GitCommand::ConfigUserName { name: identity.name })
            &&& s2 == Step::<BootReport>::Run(GitCommand::ConfigUserEmail { email: identity.email })
            &&& s3 == Step::<BootReport>::Run(GitCommand::AddAll)
            &&& s4 == Step::<BootReport>::Run(GitCommand::CommitInitial { message: identity.initial_message })
            &&& s5 matches Step::Done(Ok(rep)) && !rep.was_ready && rep.created_store
            &&& b5.phase == BootPhase::Finished
        }),
{
}

/// Bootstrapping a store without commits makes exactly one commit, after
/// staging every file of the working tree, and creates no store.
pub proof fn law_bootstrap_from_empty(identity: Identity, probe: Outcome, name: Outcome, email: Outcome, stage: Outcome, commit: Outcome)
    requires
        head_result(probe) is Err,
        outcome_error(commit) is None,
    ensures
        ({
            let (b0, c0) = boot_start(identity, true);
            let (b1, s1) = boot_next(b0, probe);
            let (b2, s2) = boot_next(b1, name);
            let (b3, s3) = boot_next(b2, email);
            let (b4, s4) = boot_next(b3, stage);
            let (b5, s5) = boot_next(b4, commit);
            &&& c0 is RevParseHead
            &&& s1 == Step::<BootReport>::Run(GitCommand::ConfigUserName { name: identity.name })
            &&& s2 == Step::<BootReport>::Run(GitCommand::ConfigUserEmail { email: identity.email })
            &&& s3 == Step::<BootReport>::Run(GitCommand::AddAll)
            &&& s4 == Step::<BootReport>::Run(GitCommand::CommitInitial { message: identity.initial_message })
            &&& s5 matches Step::Done(Ok(rep)) && !rep.was_ready && !rep.created_store
            &&& b5.phase == BootPhase::Finished
        }),
{
}

/// Bootstrapping a repository that has a commit, as one is after a
/// bootstrap, succeeds at once: it runs nothing after the probe and so
/// makes no second commit.
pub proof fn law_bootstrap_is_idempotent(identity: Identity, probe: Outcome)
    requires
        head_result(probe) is Ok,
    ensures
        ({
            let (b0, c0) = boot_start(identity, true);
            let (b1, s1) = boot_next(b0, probe);
            &&& c0 is RevParseHead
            &&& s1 matches Step::Done(Ok(rep)) && rep.was_ready
            &&& b1.phase == BootPhase::Finished
        }),
{
}

/// Where a commit of edits stands.
#[derive(Clone, Copy, Debug, PartialEq, Eq, Structural)]
pub enum CommitPhase {
    /// Waiting for `status --porcelain`.
    Status,
    /// Waiting for every change to be staged.
    Stage,
    /// Waiting for the commit.
    Commit,
    /// The result has been handed out.
    Finished,
}

/// A commit of the working tree's changes under `message`. Its result is
/// `true` where a commit was made, `false` where there was nothing to commit.
#[derive(Debug)]
pub struct CommitChanges {
    pub message: String,
    pub phase: CommitPhase,
}

/// The phase after the outcome `o` of a commit's last command, and its next
/// step.
pub open spec fn commit_next(phase: CommitPhase, message: String, o: Outcome) -> (CommitPhase, Step<bool>) {
    match outcome_error(o) {
        Some(e) => (CommitPhase::Finished, Step::Done(Err(e))),
        None => match phase {
            CommitPhase::Status => if trim_of(o->Exited_0.stdout@).len() == 0 {
                (CommitPhase::Finished, Step::Done(Ok(false)))
            } else {
                (CommitPhase::Stage, Step::Run(GitCommand::AddAll))
            },
            CommitPhase::Stage => (CommitPhase::Commit, Step::Run(GitCommand::Commit { message })),
            _ => (CommitPhase::Finished, Step::Done(Ok(true))),
        },
    }
}

impl CommitChanges {
    /// Starts committing every change of the working tree; the first command
    /// asks for its status.
    pub fn git_commit_changes(message: String) -> (r: (CommitChanges, GitCommand))
        ensures
            r.0.message == message,
            r.0.phase == CommitPhase::Status,
            r.1 is Status,
    {
        (CommitChanges { message, phase: CommitPhase::Status }, GitCommand::Status)
    }

    pub fn is_finished(&self) -> (r: bool)
        ensures
            r == (self.phase == CommitPhase::Finished),
    {
        self.phase == CommitPhase::Finished
    }

    /// Takes the outcome of the last command and says what comes next.
    pub fn advance(&mut self, o: Outcome) -> (r: Step<bool>)
        requires
            old(self).phase != CommitPhase::Finished,
        ensures
            final(self).message == old(self).message,
            (final(self).phase, r) == commit_next(old(self).phase, old(self).message, o),
    {
        let (next, step) = match check_exit(o) {
            Err(e) => (CommitPhase::Finished, Step::Done(Err(e))),
            Ok(f) => match self.phase {
                CommitPhase::Status => {
                    let t = crate::text::trim_text(f.stdout.as_str());
                    if t.as_str().unicode_len() == 0 {
                        (CommitPhase::Finished, Step::Done(Ok(false)))
                    } else {
                        (CommitPhase::Stage, Step::Run(GitCommand::AddAll))
                    }
                },
                CommitPhase::Stage => (
                    CommitPhase::Commit,
                    Step::Run(GitCommand::Commit { message: self.message.clone() }),
                ),
                _ => (CommitPhase::Finished, Step::Done(Ok(true))),
            },
        };
        self.phase = next;
        step
    }
}

/// With a clean working tree a commit reports that there was nothing to
/// commit and runs no command that could make one.
pub proof fn law_clean_tree_commits_nothing(message: String, status: Outcome)
    requires
        outcome_error(status) is None,
        trim_of(status->Exited_0.stdout@).len() == 0,
    ensures
        commit_next(CommitPhase::Status, message, status) == (
            CommitPhase::Finished,
            Step::<bool>::Done(Ok(false)),
        ),
{
}

/// How a stash ended. Stashing is advisory: its failure is reported, not
/// raised.
#[derive(Clone, Debug)]
pub enum StashResult {
    /// The working tree had no changes.
    NothingToStash,
    /// The changes were saved.
    Saved,
    /// Saving failed; carries its standard error, or why it could not start.
    Failed(String),
}

/// Where a stash stands.
#[derive(Clone, Copy, Debug, PartialEq, Eq, Structural)]
pub enum StashPhase {
    Status,
    Save,
    Finished,
}

/// A stash of the working tree's changes, untracked files included.
#[derive(Debug)]
pub struct StashSave {
    pub message: String,
    pub phase: StashPhase,
}

impl StashSave {
    /// Starts stashing; the first command asks for the working tree's status.
    pub fn git_stash_save(message: String) -> (r: (StashSave, GitCommand))
        ensures
            r.0.message == message,
            r.0.phase == StashPhase::Status,
            r.1 is Status,
    {
        (StashSave { message, phase: StashPhase::Status }, GitCommand::Status)
    }

    pub fn is_finished(&self) -> (r: bool)
        ensures
            r == (self.phase == StashPhase::Finished),
    {
        self.phase == StashPhase::Finished
    }

    /// Takes the outcome of the last command and says what comes next. A
    /// status query that cannot be started is an error; empty status output
    /// means there is nothing to stash. Saving is advisory: a save that fails
    /// or cannot be started is reported as `Failed`, never as an error.
    pub fn advance(&mut self, o: Outcome) -> (r: Step<StashResult>)
        requires
            old(self).phase != StashPhase::Finished,
        ensures
            final(self).message == old(self).message,
            match o {
                Outcome::SpawnFailed(e) => final(self).phase == StashPhase::Finished && if old(self).phase
                    == StashPhase::Status {
                    r == Step::<StashResult>::Done(Err(GitError::Spawn(e)))
                } else {
                    r == Step::<StashResult>::Done(Ok(StashResult::Failed(e)))
                },
                Outcome::Exited(f) => if old(self).phase == StashPhase::Status {
                    if f.stdout@.len() == 0 {
                        r == Step::<StashResult>::Done(Ok(StashResult::NothingToStash))
                            && final(self).phase == StashPhase::Finished
                    } else {
                        r == Step::<StashResult>::Run(GitCommand::StashSave { message: old(self).message })
                            && final(self).phase == StashPhase::Save
                    }
                } else {
                    &&& final(self).phase == StashPhase::Finished
                    &&& f.success ==> r == Step::<StashResult>::Done(Ok(StashResult::Saved))
                    &&& !f.success ==> r == Step::<StashResult>::Done(Ok(StashResult::Failed(f.stderr)))
                },
            },
    {
        let (next, step) = match o {
            Outcome::SpawnFailed(e) => if self.phase == StashPhase::Status {
                (StashPhase::Finished, Step::Done(Err(GitError::Spawn(e))))
            } else {
                (StashPhase::Finished, Step::Done(Ok(StashResult::Failed(e))))
            },
            Outcome::Exited(f) => if self.phase == StashPhase::Status {
                if f.stdout.as_str().unicode_len() == 0 {
                    (StashPhase::Finished, Step::Done(Ok(StashResult::NothingToStash)))
                } else {
                    (StashPhase::Save, Step::Run(GitCommand::StashSave { message: self.message.clone() }))
                }
            } else if f.success {
                (StashPhase::Finished, Step::Done(Ok(StashResult::Saved)))
            } else {
                (StashPhase::Finished, Step::Done(Ok(StashResult::Failed(f.stderr))))
            },
        };
        self.phase = next;
        step
    }
}

} // verus!
