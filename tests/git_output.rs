use checkpoint_core::git::{
    git_commit_count_between, git_current_commit, git_log_between, git_reset_hard, Finished,
    GitCommand, GitError, Outcome,
};
use checkpoint_core::text::{contains, nonblank_lines_of, parse_count, same_text, split_lines};

fn ok(stdout: &str) -> Outcome {
    Outcome::Exited(Finished {
        success: true,
        stdout: stdout.to_string(),
        stdout_is_utf8: true,
        stderr: String::new(),
    })
}

fn failed(stderr: &str) -> Outcome {
    Outcome::Exited(Finished {
        success: false,
        stdout: String::new(),
        stdout_is_utf8: true,
        stderr: stderr.to_string(),
    })
}

#[test]
fn parse_count_reads_decimal_numbers() {
    assert_eq!(parse_count("42"), Some(42));
    assert_eq!(parse_count("0"), Some(0));
    assert_eq!(parse_count("+7"), Some(7));
    assert_eq!(parse_count(""), None);
    assert_eq!(parse_count("+"), None);
    assert_eq!(parse_count("-1"), None);
    assert_eq!(parse_count("4x"), None);
    assert_eq!(parse_count(" 4"), None);
}

#[test]
fn parse_count_rejects_overflow() {
    let max = usize::MAX.to_string();
    assert_eq!(parse_count(&max), Some(usize::MAX));
    let over = format!("{}0", max);
    assert_eq!(parse_count(&over), None);
}

#[test]
fn contains_finds_substrings() {
    assert!(contains("[Codex] fix parser", "[Codex]"));
    assert!(contains("abc", ""));
    assert!(contains("abc", "abc"));
    assert!(!contains("ab", "abc"));
    assert!(!contains("[Codex fix", "[Codex]"));
}

#[test]
fn same_text_compares_characters() {
    assert!(same_text("codex", "codex"));
    assert!(!same_text("codex", "Codex"));
    assert!(!same_text("codex", "code"));
}

#[test]
fn split_lines_follows_str_lines() {
    let text = "a\r\nb\n\nc\n";
    let expected: Vec<String> = text.lines().map(|l| l.to_string()).collect();
    assert_eq!(split_lines(text), expected);
    assert_eq!(split_lines(""), Vec::<String>::new());
    assert_eq!(split_lines("x"), vec!["x".to_string()]);
    let last_cr = "x\r\ny\r";
    let expected: Vec<String> = last_cr.lines().map(|l| l.to_string()).collect();
    assert_eq!(split_lines(last_cr), expected);
}

#[test]
fn nonblank_lines_drop_blank_lines() {
    assert_eq!(
        nonblank_lines_of("first\n  \n\nsecond\n"),
        vec!["first".to_string(), "second".to_string()]
    );
}

#[test]
fn current_commit_is_trimmed() {
    assert_eq!(git_current_commit(ok("  abc123\n")).unwrap(), "abc123");
    assert_eq!(git_current_commit(ok("\u{3000}\tab c\u{a0}\r\n")).unwrap(), "ab c");
}

#[test]
fn current_commit_errors() {
    assert!(matches!(git_current_commit(failed("bad HEAD")), Err(GitError::Command(s)) if s == "bad HEAD"));
    assert!(matches!(
        git_current_commit(Outcome::SpawnFailed("no git".to_string())),
        Err(GitError::Spawn(s)) if s == "no git"
    ));
    let not_utf8 = Outcome::Exited(Finished {
        success: true,
        stdout: "ab\u{FFFD}".to_string(),
        stdout_is_utf8: false,
        stderr: String::new(),
    });
    assert!(matches!(git_current_commit(not_utf8), Err(GitError::Decode)));
}

#[test]
fn commit_count_is_parsed() {
    assert_eq!(git_commit_count_between(ok("3\n")).unwrap(), 3);
    assert!(matches!(git_commit_count_between(ok("three\n")), Err(GitError::Parse(s)) if s == "three"));
    assert!(matches!(git_commit_count_between(failed("bad range")), Err(GitError::Command(_))));
}

#[test]
fn log_subjects_are_nonblank_lines() {
    let v = git_log_between(ok("[Codex] one\n\nuser two\n")).unwrap();
    assert_eq!(v, vec!["[Codex] one".to_string(), "user two".to_string()]);
    assert!(matches!(git_log_between(failed("x")), Err(GitError::Command(_))));
}

#[test]
fn reset_reports_failure() {
    assert!(git_reset_hard(ok("")).is_ok());
    assert!(matches!(git_reset_hard(failed("unknown revision")), Err(GitError::Command(s)) if s == "unknown revision"));
}

#[test]
fn command_arguments() {
    let range = GitCommand::RevListCount { from: "a1".to_string(), to: "b2".to_string() };
    assert_eq!(range.args(), vec!["rev-list", "--count", "a1..b2"]);
    let log = GitCommand::LogSubjects { from: "a1".to_string(), to: "b2".to_string() };
    assert_eq!(log.args(), vec!["log", "--oneline", "--format=%s", "a1..b2"]);
    assert_eq!(GitCommand::AddAll.args(), vec!["add", "-A"]);
    assert_eq!(
        GitCommand::CommitInitial { message: "first".to_string() }.args(),
        vec!["commit", "--allow-empty", "-m", "first"]
    );
    assert_eq!(
        GitCommand::ConfigUserName { name: "Studio".to_string() }.args(),
        vec!["config", "user.name", "Studio"]
    );
    assert_eq!(
        GitCommand::StashSave { message: "wip".to_string() }.args(),
        vec!["stash", "save", "-u", "wip"]
    );
    assert_eq!(GitCommand::ResetHard { target: "c3".to_string() }.args(), vec!["reset", "--hard", "c3"]);
}
