use checkpoint_core::git::{Finished, GitCommand, GitError, Outcome, Step};
use checkpoint_core::safety::{
    assess_range, classify, decimal_text, EngineMarkers, MarkerTable, ResetSafetyInfo, SafetyCheck,
};

fn ok(stdout: &str) -> Outcome {
    Outcome::Exited(Finished {
        success: true,
        stdout: stdout.to_string(),
        stdout_is_utf8: true,
        stderr: String::new(),
    })
}

fn table() -> MarkerTable {
    let engine = |name: &str, markers: &[&str]| EngineMarkers {
        name: name.to_string(),
        markers: markers.iter().map(|m| m.to_string()).collect(),
    };
    MarkerTable {
        engines: vec![
            engine("alpha", &["[Alpha", "[Alpha Code]", "[Alpha Studio]"]),
            engine("codex", &["[Codex]"]),
            engine("gemini", &["[Gemini]"]),
        ],
    }
}

const ALPHA: Option<usize> = Some(0);
const CODEX: Option<usize> = Some(1);
const GEMINI: Option<usize> = Some(2);

fn subjects(v: &[&str]) -> Vec<String> {
    v.iter().map(|s| s.to_string()).collect()
}

#[test]
fn engine_names() {
    let t = table();
    assert_eq!(t.engine_of("alpha"), ALPHA);
    assert_eq!(t.engine_of("codex"), CODEX);
    assert_eq!(t.engine_of("gemini"), GEMINI);
    assert_eq!(t.engine_of("Alpha"), None);
}

#[test]
fn classify_markers() {
    let t = table();
    let c = classify("[Codex] refactor", &t, ALPHA);
    assert!(c.any_engine && !c.current_engine && !c.is_merge);
    let c = classify("[Alpha Studio] Initial commit", &t, ALPHA);
    assert!(c.any_engine && c.current_engine);
    let c = classify("[Alpha Code] edit", &t, GEMINI);
    assert!(c.any_engine && !c.current_engine);
    let c = classify("[Gemini] edit", &t, GEMINI);
    assert!(c.any_engine && c.current_engine);
    let c = classify("fix typo", &t, None);
    assert!(!c.any_engine && !c.current_engine && !c.is_merge);
}

#[test]
fn classify_merge_ignores_case() {
    assert!(classify("MERGE branch 'main'", &table(), ALPHA).is_merge);
    assert!(classify("Merge pull request", &table(), ALPHA).is_merge);
    assert!(!classify("emerg", &table(), ALPHA).is_merge);
}

#[test]
fn decimal_text_writes_digits() {
    assert_eq!(decimal_text(0), "0");
    assert_eq!(decimal_text(7), "7");
    assert_eq!(decimal_text(1204), "1204");
}

#[test]
fn own_shallow_rollback_is_safe() {
    let r = assess_range(3, subjects(&["[Codex] a", "[Codex] b", "[Codex] c"]), &table(), CODEX);
    assert_eq!(r.commits_to_lose, 3);
    assert!(!r.has_other_engine_commits);
    assert!(!r.has_user_commits);
    assert!(r.safe_to_proceed);
    assert!(r.warning.is_none());
}

#[test]
fn zero_count_is_safe() {
    let r = assess_range(0, subjects(&["by hand", "[Codex] x"]), &table(), ALPHA);
    assert_eq!(r.commits_to_lose, 0);
    assert!(!r.has_user_commits && !r.has_other_engine_commits);
    assert!(r.commits_summary.is_empty());
    assert!(r.safe_to_proceed);
    assert!(r.warning.is_none());
}

#[test]
fn single_user_commit_is_unsafe() {
    let r = assess_range(1, subjects(&["fix the build"]), &table(), ALPHA);
    assert!(r.has_user_commits);
    assert!(!r.has_other_engine_commits);
    assert!(!r.safe_to_proceed);
    assert_eq!(r.warning.as_deref(), Some("1 commit(s) made by hand would be lost"));
}

#[test]
fn merge_commit_is_not_a_user_commit() {
    let r = assess_range(1, subjects(&["Merge branch 'x'"]), &table(), ALPHA);
    assert!(!r.has_user_commits);
    assert!(r.safe_to_proceed);
}

#[test]
fn other_engine_commit_is_reported() {
    let r = assess_range(1, subjects(&["[Gemini] tweak"]), &table(), ALPHA);
    assert!(r.has_other_engine_commits);
    assert!(!r.safe_to_proceed);
    let r = assess_range(40, subjects(&["[Alpha] a", "[Gemini] tweak"]), &table(), ALPHA);
    assert!(r.has_other_engine_commits);
    assert_eq!(r.warning.as_deref(), Some("1 commit(s) from other engines would be lost"));
}

#[test]
fn unknown_engine_owns_no_commit() {
    let r = assess_range(1, subjects(&["[Alpha] a"]), &table(), table().engine_of("cursor"));
    assert!(r.has_other_engine_commits);
}

#[test]
fn deep_rollback_warns_about_depth() {
    let list: Vec<String> = (0..6).map(|i| format!("[Alpha] step {}", i)).collect();
    let r = assess_range(6, list, &table(), ALPHA);
    assert!(!r.has_other_engine_commits && !r.has_user_commits);
    assert!(!r.safe_to_proceed);
    assert_eq!(r.warning.as_deref(), Some("6 commits would be lost, a large rollback"));
}

#[test]
fn both_reasons_are_joined() {
    let r = assess_range(3, subjects(&["[Codex] a", "by hand", "also by hand"]), &table(), ALPHA);
    assert_eq!(
        r.warning.as_deref(),
        Some("1 commit(s) from other engines would be lost; 2 commit(s) made by hand would be lost")
    );
}

#[test]
fn summary_is_capped_at_ten() {
    let list: Vec<String> = (0..25).map(|i| format!("[Alpha] step {}", i)).collect();
    let r = assess_range(25, list.clone(), &table(), ALPHA);
    assert_eq!(r.commits_to_lose, 25);
    assert_eq!(r.commits_summary.len(), 10);
    assert_eq!(r.commits_summary, list[..10].to_vec());
}

fn expect_done(step: Step<ResetSafetyInfo>) -> Result<ResetSafetyInfo, GitError> {
    match step {
        Step::Done(r) => r,
        Step::Run(c) => panic!("unexpected command {:?}", c),
    }
}

#[test]
fn same_head_is_safe_without_range_query() {
    let (mut check, first) = SafetyCheck::check_reset_safety("abc".to_string(), table(), "alpha");
    assert!(matches!(first, GitCommand::RevParseHead));
    let r = expect_done(check.advance(ok("abc\n"))).unwrap();
    assert_eq!(r.commits_to_lose, 0);
    assert!(r.safe_to_proceed);
    assert!(r.warning.is_none());
    assert!(r.commits_summary.is_empty());
    assert!(check.is_finished());
}

#[test]
fn safety_check_walks_the_range() {
    let (mut check, _) = SafetyCheck::check_reset_safety("t1".to_string(), table(), "codex");
    match check.advance(ok("h9\n")) {
        Step::Run(GitCommand::RevListCount { from, to }) => {
            assert_eq!(from, "t1");
            assert_eq!(to, "h9");
        }
        other => panic!("unexpected {:?}", other),
    }
    match check.advance(ok("2\n")) {
        Step::Run(GitCommand::LogSubjects { from, to }) => {
            assert_eq!(from, "t1");
            assert_eq!(to, "h9");
        }
        other => panic!("unexpected {:?}", other),
    }
    let r = expect_done(check.advance(ok("[Codex] b\n[Codex] a\n"))).unwrap();
    assert_eq!(r.commits_to_lose, 2);
    assert!(r.safe_to_proceed);
    assert_eq!(r.commits_summary, subjects(&["[Codex] b", "[Codex] a"]));
}

#[test]
fn safety_check_propagates_errors() {
    let (mut check, _) = SafetyCheck::check_reset_safety("t1".to_string(), table(), "codex");
    let failed = Outcome::Exited(Finished {
        success: false,
        stdout: String::new(),
        stdout_is_utf8: true,
        stderr: "no HEAD".to_string(),
    });
    assert!(matches!(expect_done(check.advance(failed)), Err(GitError::Command(s)) if s == "no HEAD"));
    let (mut check, _) = SafetyCheck::check_reset_safety("t1".to_string(), table(), "codex");
    let _ = check.advance(ok("h9"));
    assert!(matches!(expect_done(check.advance(ok("x"))), Err(GitError::Parse(_))));
}
