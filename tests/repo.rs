use checkpoint_core::git::{Finished, GitCommand, GitError, Outcome, Step};
use checkpoint_core::repo::{
    is_git_repo, repo_state, Bootstrap, CommitChanges, Identity, RepoState, StashResult, StashSave,
};

fn identity() -> Identity {
    Identity {
        name: "Studio".to_string(),
        email: "bot@studio.test".to_string(),
        initial_message: "[Studio] Initial commit - preserving existing code".to_string(),
    }
}

fn ok(stdout: &str) -> Outcome {
    Outcome::Exited(Finished {
        success: true,
        stdout: stdout.to_string(),
        stdout_is_utf8: true,
        stderr: String::new(),
    })
}

fn failed(stderr: &str) -> Outcome {
    Outcome::Exited(Finished {
        success: false,
        stdout: String::new(),
        stdout_is_utf8: true,
        stderr: stderr.to_string(),
    })
}

fn command<T: std::fmt::Debug>(step: Step<T>) -> GitCommand {
    match step {
        Step::Run(c) => c,
        Step::Done(r) => panic!("finished early: {:?}", r),
    }
}

#[test]
fn repository_states() {
    assert_eq!(repo_state(false, false), RepoState::Absent);
    assert_eq!(repo_state(true, false), RepoState::Empty);
    assert_eq!(repo_state(true, true), RepoState::Ready);
    assert!(!is_git_repo(RepoState::Absent));
    assert!(is_git_repo(RepoState::Empty));
    assert!(is_git_repo(RepoState::Ready));
}

#[test]
fn bootstrap_absent_stages_before_committing() {
    let (mut b, first) = Bootstrap::ensure_git_repo(identity(), false);
    assert!(matches!(first, GitCommand::Init));
    match command(b.advance(ok(""))) {
        GitCommand::ConfigUserName { name } => assert_eq!(name, "Studio"),
        other => panic!("unexpected {:?}", other),
    }
    match command(b.advance(ok(""))) {
        GitCommand::ConfigUserEmail { email } => assert_eq!(email, "bot@studio.test"),
        other => panic!("unexpected {:?}", other),
    }
    assert!(matches!(command(b.advance(ok(""))), GitCommand::AddAll));
    assert!(matches!(command(b.advance(ok(""))), GitCommand::CommitInitial { .. }));
    match b.advance(ok("")) {
        Step::Done(Ok(rep)) => {
            assert!(!rep.was_ready);
            assert!(rep.created_store);
            assert!(rep.identity_configured);
            assert!(rep.staged);
        }
        other => panic!("unexpected {:?}", other),
    }
    assert!(b.is_finished());
}

#[test]
fn bootstrap_is_idempotent() {
    let (mut b, first) = Bootstrap::ensure_git_repo(identity(), true);
    assert!(matches!(first, GitCommand::RevParseHead));
    match b.advance(ok("abc\n")) {
        Step::Done(Ok(rep)) => assert!(rep.was_ready && !rep.created_store),
        other => panic!("unexpected {:?}", other),
    }
}

#[test]
fn bootstrap_empty_store_makes_one_commit() {
    let (mut b, _) = Bootstrap::ensure_git_repo(identity(), true);
    let mut commits = 0;
    let mut step = b.advance(failed("unknown revision HEAD"));
    loop {
        match step {
            Step::Run(c) => {
                if matches!(c, GitCommand::CommitInitial { .. } | GitCommand::Commit { .. }) {
                    commits += 1;
                }
                assert!(!matches!(c, GitCommand::Init));
                step = b.advance(ok(""));
            }
            Step::Done(r) => {
                let rep = r.unwrap();
                assert!(!rep.was_ready && !rep.created_store);
                break;
            }
        }
    }
    assert_eq!(commits, 1);
}

#[test]
fn bootstrap_best_effort_failures_do_not_stop_it() {
    let (mut b, _) = Bootstrap::ensure_git_repo(identity(), false);
    let _ = b.advance(ok(""));
    assert!(matches!(command(b.advance(failed("no config"))), GitCommand::ConfigUserEmail { .. }));
    assert!(matches!(command(b.advance(Outcome::SpawnFailed("x".to_string()))), GitCommand::AddAll));
    assert!(matches!(command(b.advance(failed("nothing added"))), GitCommand::CommitInitial { .. }));
    match b.advance(ok("")) {
        Step::Done(Ok(rep)) => {
            assert!(!rep.identity_configured);
            assert!(!rep.staged);
        }
        other => panic!("unexpected {:?}", other),
    }
}

#[test]
fn bootstrap_goes_on_when_staging_cannot_start() {
    let (mut b, _) = Bootstrap::ensure_git_repo(identity(), false);
    for _ in 0..3 {
        let _ = b.advance(ok(""));
    }
    match command(b.advance(Outcome::SpawnFailed("no git".to_string()))) {
        GitCommand::CommitInitial { message } => {
            assert_eq!(message, "[Studio] Initial commit - preserving existing code")
        }
        other => panic!("unexpected {:?}", other),
    }
    match b.advance(ok("")) {
        Step::Done(Ok(rep)) => assert!(!rep.staged && rep.created_store),
        other => panic!("unexpected {:?}", other),
    }
}

#[test]
fn bootstrap_fatal_failures() {
    let (mut b, _) = Bootstrap::ensure_git_repo(identity(), false);
    assert!(matches!(b.advance(failed("cannot init")), Step::Done(Err(GitError::Command(s))) if s == "cannot init"));
    let (mut b, _) = Bootstrap::ensure_git_repo(identity(), false);
    for _ in 0..4 {
        let _ = b.advance(ok(""));
    }
    assert!(matches!(b.advance(failed("commit refused")), Step::Done(Err(GitError::Command(_)))));
}

#[test]
fn clean_tree_commits_nothing() {
    let (mut c, first) = CommitChanges::git_commit_changes("edit".to_string());
    assert!(matches!(first, GitCommand::Status));
    assert!(matches!(c.advance(ok("  \n")), Step::Done(Ok(false))));
    assert!(c.is_finished());
}

#[test]
fn dirty_tree_is_committed() {
    let (mut c, _) = CommitChanges::git_commit_changes("edit".to_string());
    assert!(matches!(command(c.advance(ok(" M a.rs\n"))), GitCommand::AddAll));
    match command(c.advance(ok(""))) {
        GitCommand::Commit { message } => assert_eq!(message, "edit"),
        other => panic!("unexpected {:?}", other),
    }
    assert!(matches!(c.advance(ok("")), Step::Done(Ok(true))));
}

#[test]
fn commit_failure_is_an_error() {
    let (mut c, _) = CommitChanges::git_commit_changes("edit".to_string());
    let _ = c.advance(ok("?? new.rs\n"));
    assert!(matches!(c.advance(failed("index locked")), Step::Done(Err(GitError::Command(_)))));
}

#[test]
fn stash_without_changes_is_a_no_op() {
    let (mut s, first) = StashSave::git_stash_save("before reset".to_string());
    assert!(matches!(first, GitCommand::Status));
    assert!(matches!(s.advance(ok("")), Step::Done(Ok(StashResult::NothingToStash))));
}

#[test]
fn stash_failure_is_advisory() {
    let (mut s, _) = StashSave::git_stash_save("before reset".to_string());
    match command(s.advance(ok(" M a.rs\n"))) {
        GitCommand::StashSave { message } => assert_eq!(message, "before reset"),
        other => panic!("unexpected {:?}", other),
    }
    assert!(matches!(s.advance(failed("oops")), Step::Done(Ok(StashResult::Failed(e))) if e == "oops"));
    let (mut s, _) = StashSave::git_stash_save("m".to_string());
    let _ = s.advance(ok("?? x\n"));
    assert!(matches!(
        s.advance(Outcome::SpawnFailed("no git".to_string())),
        Step::Done(Ok(StashResult::Failed(e))) if e == "no git"
    ));
    let (mut s, _) = StashSave::git_stash_save("m".to_string());
    let _ = s.advance(ok("?? x\n"));
    assert!(matches!(s.advance(ok("")), Step::Done(Ok(StashResult::Saved))));
}
