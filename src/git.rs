//! Version-control commands, the outcomes a process gateway reports for
//! them, and the interpretation of those outcomes.
use vstd::prelude::*;
use vstd::string::StringExecFns;
use crate::text::{trim_of, trim_text, nonblank_lines, nonblank_lines_of, parse_count, is_count_text, decimal_value, count_digits};

verus! {

/// A version-control command, run by the process gateway in the project
/// directory.
#[derive(Clone, Debug)]
pub enum GitCommand {
    Init,
    ConfigUserName { name: String },
    ConfigUserEmail { email: String },
    AddAll,
    CommitInitial { message: String },
    RevParseHead,
    Status,
    Commit { message: String },
    ResetHard { target: String },
    StashSave { message: String },
    RevListCount { from: String, to: String },
    LogSubjects { from: String, to: String },
}

/// The revision range `from..to`: commits reachable from `to` but not `from`.
pub open spec fn range_text(from: Seq<char>, to: Seq<char>) -> Seq<char> {
    from + ".."@ + to
}

impl GitCommand {
    /// The argument list given to the version-control program.
    pub open spec fn spec_args(&self) -> Seq<Seq<char>> {
        match self {
            GitCommand::Init => seq!["init"@],
            GitCommand::ConfigUserName { name } => seq!["config"@, "user.name"@, name@],
            GitCommand::ConfigUserEmail { email } => seq!["config"@, "user.email"@, email@],
            GitCommand::AddAll => seq!["add"@, "-A"@],
            GitCommand::CommitInitial { message } => seq![
                "commit"@,
                "--allow-empty"@,
                "-m"@,
                message@,
            ],
            GitCommand::RevParseHead => seq!["rev-parse"@, "HEAD"@],
            GitCommand::Status => seq!["status"@, "--porcelain"@],
            GitCommand::Commit { message } => seq!["commit"@, "-m"@, message@],
            GitCommand::ResetHard { target } => seq!["reset"@, "--hard"@, target@],
            GitCommand::StashSave { message } => seq!["stash"@, "save"@, "-u"@, message@],
            GitCommand::RevListCount { from, to } => seq![
                "rev-list"@,
                "--count"@,
                range_text(from@, to@),
            ],
            GitCommand::LogSubjects { from, to } => seq![
                "log"@,
                "--oneline"@,
                "--format=%s"@,
                range_text(from@, to@),
            ],
        }
    }

    /// Whether running the command may create a commit.
    pub open spec fn creates_commit(&self) -> bool {
        self is CommitInitial || self is Commit
    }

    /// The argument list given to the version-control program.
    pub fn args(&self) -> (r: Vec<String>)
        ensures
            r@.map_values(|a: String| a@) == self.spec_args(),
    {
        let r = match self {
            GitCommand::Init => vec![String::from_str("init")],
            GitCommand::ConfigUserName { name } => vec![
                String::from_str("config"),
                String::from_str("user.name"),
                name.clone(),
            ],
            GitCommand::ConfigUserEmail { email } => vec![
                String::from_str("config"),
                String::from_str("user.email"),
                email.clone(),
            ],
            GitCommand::AddAll => vec![String::from_str("add"), String::from_str("-A")],
            GitCommand::CommitInitial { message } => vec![
                String::from_str("commit"),
                String::from_str("--allow-empty"),
                String::from_str("-m"),
                message.clone(),
            ],
            GitCommand::RevParseHead => vec![String::from_str("rev-parse"), String::from_str("HEAD")],
            GitCommand::Status => vec![String::from_str("status"), String::from_str("--porcelain")],
            GitCommand::Commit { message } => vec![
                String::from_str("commit"),
                String::from_str("-m"),
                message.clone(),
            ],
            GitCommand::ResetHard { target } => vec![
                String::from_str("reset"),
                String::from_str("--hard"),
                target.clone(),
            ],
            GitCommand::StashSave { message } => vec![
                String::from_str("stash"),
                String::from_str("save"),
                String::from_str("-u"),
                message.clone(),
            ],
            GitCommand::RevListCount { from, to } => vec![
                String::from_str("rev-list"),
                String::from_str("--count"),
                range_arg(from, to),
            ],
            GitCommand::LogSubjects { from, to } => vec![
                String::from_str("log"),
                String::from_str("--oneline"),
                String::from_str("--format=%s"),
                range_arg(from, to),
            ],
        };
        assert(r@.map_values(|a: String| a@) =~= self.spec_args());
        r
    }
}

fn range_arg(from: &String, to: &String) -> (r: String)
    ensures
        r@ == range_text(from@, to@),
{
    let r = from.clone().concat("..").concat(to.as_str());
    r
}

/// What the process gateway reports of a process that ran to its end.
#[derive(Clone, Debug)]
pub struct Finished {
    /// The process reported success.
    pub success: bool,
    /// Standard output, decoded with invalid UTF-8 replaced.
    pub stdout: String,
    /// Standard output was valid UTF-8 as captured.
    pub stdout_is_utf8: bool,
    /// Standard error, decoded with invalid UTF-8 replaced.
    pub stderr: String,
}

/// What the process gateway reports of one command.
#[derive(Clone, Debug)]
pub enum Outcome {
    /// The process could not be started; the text says why.
    SpawnFailed(String),
    /// The process ran to its end.
    Exited(Finished),
}

/// Why an operation on a repository failed.
#[derive(Clone, Debug)]
pub enum GitError {
    /// The process could not be started.
    Spawn(String),
    /// The process reported failure; carries its standard error.
    Command(String),
    /// Output that had to be read was not valid UTF-8.
    Decode,
    /// Output could not be read as the expected shape; carries the text.
    Parse(String),
}

/// The next thing a multi-step operation asks of its driver: run a command
/// and report its outcome, or take the operation's result.
#[derive(Debug)]
pub enum Step<T> {
    Run(GitCommand),
    Done(Result<T, GitError>),
}

/// The error an outcome amounts to, if any: a failed start or a reported
/// failure.
pub open spec fn outcome_error(o: Outcome) -> Option<GitError> {
    match o {
        Outcome::SpawnFailed(e) => Some(GitError::Spawn(e)),
        Outcome::Exited(f) => if f.success {
            None
        } else {
            Some(GitError::Command(f.stderr))
        },
    }
}

/// The output of a process that ran and reported success.
pub fn check_exit(o: Outcome) -> (r: Result<Finished, GitError>)
    ensures
        match outcome_error(o) {
            Some(e) => r == Err::<Finished, GitError>(e),
            None => (o matches Outcome::Exited(f) && r == Ok::<Finished, GitError>(f)),
        },
{
    match o {
        Outcome::SpawnFailed(e) => Err(GitError::Spawn(e)),
        Outcome::Exited(f) => if f.success {
            Ok(f)
        } else {
            Err(GitError::Command(f.stderr))
        },
    }
}

/// What reading the current head from an outcome of `rev-parse HEAD` gives.
pub open spec fn head_result(o: Outcome) -> Result<Seq<char>, GitError> {
    match o {
        Outcome::SpawnFailed(e) => Err(GitError::Spawn(e)),
        Outcome::Exited(f) => if !f.success {
            Err(GitError::Command(f.stderr))
        } else if f.stdout_is_utf8 {
            Ok(trim_of(f.stdout@))
        } else {
            Err(GitError::Decode)
        },
    }
}

/// Reads the current head commit id from the outcome of `rev-parse HEAD`.
pub fn git_current_commit(o: Outcome) -> (r: Result<String, GitError>)
    ensures
        match head_result(o) {
            Ok(id) => (r matches Ok(s) && s@ == id),
            Err(e) => r == Err::<String, GitError>(e),
        },
{
    match check_exit(o) {
        Err(e) => Err(e),
        Ok(f) => if f.stdout_is_utf8 {
            Ok(trim_text(f.stdout.as_str()))
        } else {
            Err(GitError::Decode)
        },
    }
}

/// The trimmed standard output of a process that ran to its end.
pub open spec fn trimmed_stdout(o: Outcome) -> Seq<char> {
    trim_of(o->Exited_0.stdout@)
}

/// Reads the number of commits in a range from the outcome of
/// `rev-list --count`.
pub fn git_commit_count_between(o: Outcome) -> (r: Result<usize, GitError>)
    ensures
        outcome_error(o) matches Some(e) ==> r == Err::<usize, GitError>(e),
        outcome_error(o) is None ==> {
            let t = trimmed_stdout(o);
            if is_count_text(t) && decimal_value(count_digits(t)) <= usize::MAX {
                (r matches Ok(n) && n as int == decimal_value(count_digits(t)))
            } else {
                (r matches Err(GitError::Parse(p)) && p@ == t)
            }
        },
{
    match check_exit(o) {
        Err(e) => Err(e),
        Ok(f) => {
            let t = trim_text(f.stdout.as_str());
            match parse_count(t.as_str()) {
                Some(n) => Ok(n),
                None => Err(GitError::Parse(t)),
            }
        },
    }
}

/// Reads the subject lines of a range from the outcome of
/// `log --format=%s`: every line that holds more than white space, in order.
pub fn git_log_between(o: Outcome) -> (r: Result<Vec<String>, GitError>)
    ensures
        outcome_error(o) matches Some(e) ==> r == Err::<Vec<String>, GitError>(e),
        outcome_error(o) is None ==> (r matches Ok(v) && v@.map_values(|l: String| l@)
            == nonblank_lines(o->Exited_0.stdout@)),
{
    match check_exit(o) {
        Err(e) => Err(e),
        Ok(f) => Ok(nonblank_lines_of(f.stdout.as_str())),
    }
}

/// Reads the outcome of `reset --hard`.
pub fn git_reset_hard(o: Outcome) -> (r: Result<(), GitError>)
    ensures
        outcome_error(o) matches Some(e) ==> r == Err::<(), GitError>(e),
        outcome_error(o) is None ==> r is Ok,
{
    match check_exit(o) {
        Err(e) => Err(e),
        Ok(_) => Ok(()),
    }
}

} // verus!
