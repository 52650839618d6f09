//! Classification of a prospective rollback: which commits it would discard,
//! who made them, and whether it may proceed without asking.
use vstd::prelude::*;
use vstd::string::StringExecFns;
use crate::text::{has_substring, lower_of, contains, lowercase, same_text};
use crate::git::{GitCommand, GitError, Outcome, Step, head_result, outcome_error, trimmed_stdout, git_current_commit, git_commit_count_between, git_log_between};
use crate::text::{is_count_text, decimal_value, count_digits, nonblank_lines};

verus! {

/// Most commits a rollback may discard and still proceed unasked.
pub const SAFE_DEPTH: usize = 5;

/// Most commit subjects a verdict carries for display.
pub const SUMMARY_LIMIT: usize = 10;

/// The markers by which one engine tags the commits it makes.
#[derive(Clone, Debug)]
pub struct EngineMarkers {
    /// The name by which the engine asks for a rollback.
    pub name: String,
    /// Substrings of a commit subject that mark the engine's commits, a
    /// legacy alias included.
    pub markers: Vec<String>,
}

/// The known engines and their markers.
#[derive(Clone, Debug)]
pub struct MarkerTable {
    pub engines: Vec<EngineMarkers>,
}

/// Some marker of `ms` occurs in `s`.
pub open spec fn marks(s: Seq<char>, ms: Seq<String>) -> bool {
    exists|i: int| 0 <= i < ms.len() && has_substring(s, (#[trigger] ms[i])@)
}

/// `i` is the first engine of `t` called `name`.
pub open spec fn is_engine_named(t: Seq<EngineMarkers>, name: Seq<char>, i: int) -> bool {
    &&& 0 <= i < t.len()
    &&& t[i].name@ == name
    &&& forall|j: int| 0 <= j < i ==> (#[trigger] t[j]).name@ != name
}

/// The engine of `t` that `name` stands for: the first of that name, or none.
pub open spec fn engine_of(t: Seq<EngineMarkers>, name: Seq<char>) -> Option<usize> {
    if exists|i: int| is_engine_named(t, name, i) {
        Some((choose|i: int| is_engine_named(t, name, i)) as usize)
    } else {
        None
    }
}

/// Whether some marker of `markers` occurs in `subject`.
fn marks_any(subject: &str, markers: &Vec<String>) -> (r: bool)
    ensures
        r == marks(subject@, markers@),
{
    let mut i: usize = 0;
    while i < markers.len()
        invariant
            i <= markers@.len(),
            forall|k: int| 0 <= k < i ==> !has_substring(subject@, (#[trigger] markers@[k])@),
        decreases markers@.len() - i,
    {
        if contains(subject, markers[i].as_str()) {
            return true;
        }
        i = i + 1;
    }
    false
}

impl MarkerTable {
    /// The engine that a name stands for, if the table knows it.
    pub fn engine_of(&self, name: &str) -> (r: Option<usize>)
        ensures
            r == engine_of(self.engines@, name@),
            r matches Some(i) ==> i < self.engines@.len(),
    {
        let mut i: usize = 0;
        while i < self.engines.len()
            invariant
                i <= self.engines@.len(),
                forall|j: int| 0 <= j < i ==> (#[trigger] self.engines@[j]).name@ != name@,
            decreases self.engines@.len() - i,
        {
            if same_text(self.engines[i].name.as_str(), name) {
                proof {
                    assert(is_engine_named(self.engines@, name@, i as int));
                    let c = choose|c: int| is_engine_named(self.engines@, name@, c);
                    assert(c == i) by {
                        if c < i {
                        } else if c > i {
                            assert(self.engines@[i as int].name@ != name@);
                        }
                    }
                }
                return Some(i);
            }
            i = i + 1;
        }
        None
    }
}

/// How a commit subject is attributed.
#[derive(Clone, Copy, Debug, PartialEq, Eq, Structural)]
pub struct CommitClass {
    /// The subject carries some engine's marker.
    pub any_engine: bool,
    /// The subject carries a marker of the requesting engine.
    pub current_engine: bool,
    /// The lower-cased subject mentions a merge.
    pub is_merge: bool,
}

pub open spec fn spec_classify(s: Seq<char>, t: Seq<EngineMarkers>, e: Option<usize>) -> CommitClass {
    CommitClass {
        any_engine: exists|i: int| 0 <= i < t.len() && marks(s, (#[trigger] t[i]).markers@),
        current_engine: match e {
            Some(i) => marks(s, t[i as int].markers@),
            None => false,
        },
        is_merge: has_substring(lower_of(s), "merge"@),
    }
}

/// A commit made by an engine other than the requesting one.
pub open spec fn is_other_engine(s: Seq<char>, t: Seq<EngineMarkers>, e: Option<usize>) -> bool {
    let c = spec_classify(s, t, e);
    c.any_engine && !c.current_engine
}

/// A commit with no engine marker that is not a merge: a person made it.
pub open spec fn is_user_commit(s: Seq<char>, t: Seq<EngineMarkers>, e: Option<usize>) -> bool {
    let c = spec_classify(s, t, e);
    !c.any_engine && !c.is_merge
}

/// Attributes a commit subject by the markers of `table`, for the engine
/// `engine` of the table, or for an engine the table does not know.
pub fn classify(subject: &str, table: &MarkerTable, engine: Option<usize>) -> (r: CommitClass)
    requires
        engine matches Some(i) ==> i < table.engines@.len(),
    ensures
        r == spec_classify(subject@, table.engines@, engine),
{
    let mut any_engine = false;
    let mut i: usize = 0;
    while i < table.engines.len()
        invariant
            i <= table.engines@.len(),
            any_engine == exists|k: int| 0 <= k < i && marks(subject@, (#[trigger] table.engines@[k]).markers@),
        decreases table.engines@.len() - i,
    {
        if marks_any(subject, &table.engines[i].markers) {
            any_engine = true;
        }
        i = i + 1;
    }
    let current_engine = match engine {
        Some(k) => marks_any(subject, &table.engines[k].markers),
        None => false,
    };
    let lower = lowercase(subject);
    CommitClass { any_engine, current_engine, is_merge: contains(lower.as_str(), "merge") }
}

pub open spec fn other_engine_count(subjects: Seq<Seq<char>>, t: Seq<EngineMarkers>, e: Option<usize>) -> nat
    decreases subjects.len(),
{
    if subjects.len() == 0 {
        0
    } else {
        other_engine_count(subjects.drop_last(), t, e) + if is_other_engine(subjects.last(), t, e) {
            1nat
        } else {
            0nat
        }
    }
}

pub open spec fn user_commit_count(subjects: Seq<Seq<char>>, t: Seq<EngineMarkers>, e: Option<usize>) -> nat
    decreases subjects.len(),
{
    if subjects.len() == 0 {
        0
    } else {
        user_commit_count(subjects.drop_last(), t, e) + if is_user_commit(subjects.last(), t, e) {
            1nat
        } else {
            0nat
        }
    }
}

/// The decimal digits of a number, most significant first.
pub open spec fn decimal_digits(n: nat) -> Seq<char>
    decreases n,
{
    if n < 10 {
        seq![digit_char(n)]
    } else {
        decimal_digits(n / 10) + seq![digit_char(n % 10)]
    }
}

pub open spec fn digit_char(d: nat) -> char {
    (('0' as nat) + d) as char
}

pub open spec fn other_note(n: nat) -> Seq<char> {
    decimal_digits(n) + " commit(s) from other engines would be lost"@
}

pub open spec fn user_note(n: nat) -> Seq<char> {
    decimal_digits(n) + " commit(s) made by hand would be lost"@
}

pub open spec fn depth_note(n: nat) -> Seq<char> {
    decimal_digits(n) + " commits would be lost, a large rollback"@
}

/// The warning of an unsafe rollback: the other-engine count and the
/// hand-made count where there are any, else the depth alone.
pub open spec fn warning_text(other: nat, user: nat, lose: nat) -> Seq<char> {
    if other > 0 && user > 0 {
        other_note(other) + "; "@ + user_note(user)
    } else if other > 0 {
        other_note(other)
    } else if user > 0 {
        user_note(user)
    } else {
        depth_note(lose)
    }
}

/// The verdict on a rollback that would discard commits.
#[derive(Clone, Debug)]
pub struct ResetSafetyInfo {
    /// Number of commits that the rollback discards.
    pub commits_to_lose: usize,
    /// Some discarded commit carries another engine's marker.
    pub has_other_engine_commits: bool,
    /// Some discarded commit was made by hand.
    pub has_user_commits: bool,
    /// The first subjects of the discarded commits, at most ten.
    pub commits_summary: Vec<String>,
    /// The rollback may proceed without asking.
    pub safe_to_proceed: bool,
    /// Why the rollback needs confirmation, where it does.
    pub warning: Option<String>,
}

pub open spec fn views(v: Seq<String>) -> Seq<Seq<char>> {
    v.map_values(|s: String| s@)
}

/// `r` is the verdict on discarding `lose` commits with these subjects, at
/// the request of engine `e` of the table `t`. Where nothing is lost, it is
/// the verdict of a rollback to the current head.
pub open spec fn verdict_for(
    r: ResetSafetyInfo,
    lose: nat,
    subjects: Seq<Seq<char>>,
    t: Seq<EngineMarkers>,
    e: Option<usize>,
) -> bool {
    if lose == 0 {
        is_zero_verdict(r)
    } else {
        let other = other_engine_count(subjects, t, e);
        let user = user_commit_count(subjects, t, e);
        let shown = if subjects.len() <= SUMMARY_LIMIT {
            subjects
        } else {
            subjects.subrange(0, SUMMARY_LIMIT as int)
        };
        &&& r.commits_to_lose == lose
        &&& r.has_other_engine_commits == (other > 0)
        &&& r.has_user_commits == (user > 0)
        &&& views(r.commits_summary@) == shown
        &&& r.safe_to_proceed == (other == 0 && user == 0 && lose <= SAFE_DEPTH)
        &&& (r.safe_to_proceed ==> r.warning is None)
        &&& (!r.safe_to_proceed ==> (r.warning matches Some(w) && w@ == warning_text(other, user, lose)))
    }
}

/// `r` is the verdict on a rollback to the current head: nothing is lost.
pub open spec fn is_zero_verdict(r: ResetSafetyInfo) -> bool {
    &&& r.commits_to_lose == 0
    &&& !r.has_other_engine_commits
    &&& !r.has_user_commits
    &&& r.commits_summary@.len() == 0
    &&& r.safe_to_proceed
    &&& r.warning is None
}

fn digit_text(d: usize) -> (r: String)
    requires
        d < 10,
    ensures
        r@ == seq![digit_char(d as nat)],
{
    let r = if d == 0 {
        String::from_str("0")
    } else if d == 1 {
        String::from_str("1")
    } else if d == 2 {
        String::from_str("2")
    } else if d == 3 {
        String::from_str("3")
    } else if d == 4 {
        String::from_str("4")
    } else if d == 5 {
        String::from_str("5")
    } else if d == 6 {
        String::from_str("6")
    } else if d == 7 {
        String::from_str("7")
    } else if d == 8 {
        String::from_str("8")
    } else {
        String::from_str("9")
    };
    proof {
        reveal_strlit("0");
        reveal_strlit("1");
        reveal_strlit("2");
        reveal_strlit("3");
        reveal_strlit("4");
        reveal_strlit("5");
        reveal_strlit("6");
        reveal_strlit("7");
        reveal_strlit("8");
        reveal_strlit("9");
    }
    assert(r@ =~= seq![digit_char(d as nat)]);
    r
}

/// The decimal text of a number.
pub fn decimal_text(n: usize) -> (r: String)
    ensures
        r@ == decimal_digits(n as nat),
    decreases n,
{
    if n < 10 {
        digit_text(n)
    } else {
        let head = decimal_text(n / 10);
        let last = digit_text(n % 10);
        head.concat(last.as_str())
    }
}

fn warning_message(other: usize, user: usize, lose: usize) -> (r: String)
    ensures
        r@ == warning_text(other as nat, user as nat, lose as nat),
{
    let other_part = decimal_text(other).concat(" commit(s) from other engines would be lost");
    let user_part = decimal_text(user).concat(" commit(s) made by hand would be lost");
    if other > 0 && user > 0 {
        other_part.concat("; ").concat(user_part.as_str())
    } else if other > 0 {
        other_part
    } else if user > 0 {
        user_part
    } else {
        decimal_text(lose).concat(" commits would be lost, a large rollback")
    }
}

/// The verdict on discarding `commits_to_lose` commits whose subjects are
/// `subjects`, at the request of engine `engine` of `table`.
pub fn assess_range(
    commits_to_lose: usize,
    subjects: Vec<String>,
    table: &MarkerTable,
    engine: Option<usize>,
) -> (r: ResetSafetyInfo)
    requires
        engine matches Some(i) ==> i < table.engines@.len(),
    ensures
        verdict_for(r, commits_to_lose as nat, views(subjects@), table.engines@, engine),
{
    if commits_to_lose == 0 {
        return zero_verdict();
    }
    let ghost vs = views(subjects@);
    let mut other: usize = 0;
    let mut user: usize = 0;
    let mut shown: Vec<String> = Vec::new();
    let mut i: usize = 0;
    while i < subjects.len()
        invariant
            vs == views(subjects@),
            i <= subjects@.len(),
            engine matches Some(k) ==> k < table.engines@.len(),
            other as nat == other_engine_count(vs.subrange(0, i as int), table.engines@, engine),
            user as nat == user_commit_count(vs.subrange(0, i as int), table.engines@, engine),
            other <= i,
            user <= i,
            views(shown@) == vs.subrange(0, if i <= SUMMARY_LIMIT { i as int } else { SUMMARY_LIMIT as int }),
        decreases subjects@.len() - i,
    {
        let subject = &subjects[i];
        let c = classify(subject.as_str(), table, engine);
        assert(vs.subrange(0, i + 1).drop_last() =~= vs.subrange(0, i as int));
        assert(vs.subrange(0, i + 1).last() == subject@);
        if c.any_engine && !c.current_engine {
            other = other + 1;
        }
        if !c.any_engine && !c.is_merge {
            user = user + 1;
        }
        if i < SUMMARY_LIMIT {
            let ghost before = views(shown@);
            shown.push(subject.clone());
            assert(views(shown@) =~= before.push(subject@));
            assert(views(shown@) =~= vs.subrange(0, i + 1));
        }
        i = i + 1;
    }
    assert(vs.subrange(0, i as int) =~= vs);
    let safe = other == 0 && user == 0 && commits_to_lose <= SAFE_DEPTH;
    let warning = if safe {
        None
    } else {
        Some(warning_message(other, user, commits_to_lose))
    };
    ResetSafetyInfo {
        commits_to_lose,
        has_other_engine_commits: other > 0,
        has_user_commits: user > 0,
        commits_summary: shown,
        safe_to_proceed: safe,
        warning,
    }
}

/// The verdict on a rollback to the current head.
pub fn zero_verdict() -> (r: ResetSafetyInfo)
    ensures
        is_zero_verdict(r),
{
    ResetSafetyInfo {
        commits_to_lose: 0,
        has_other_engine_commits: false,
        has_user_commits: false,
        commits_summary: Vec::new(),
        safe_to_proceed: true,
        warning: None,
    }
}

proof fn lemma_own_commits_count_nothing(subjects: Seq<Seq<char>>, t: Seq<EngineMarkers>,
    e: Option<usize>)
    requires
        e matches Some(i) ==> i < t.len(),
        forall|i: int| 0 <= i < subjects.len() ==> (#[trigger] spec_classify(subjects[i], t, e)).current_engine,
    ensures
        other_engine_count(subjects, t, e) == 0,
        user_commit_count(subjects, t, e) == 0,
    decreases subjects.len(),
{
    if subjects.len() > 0 {
        let rest = subjects.drop_last();
        assert forall|i: int| 0 <= i < rest.len() implies (#[trigger] spec_classify(rest[i], t, e)).current_engine by {
            assert(rest[i] == subjects[i]);
        }
        lemma_own_commits_count_nothing(rest, t, e);
        let last = subjects[subjects.len() - 1];
        assert(spec_classify(last, t, e).current_engine);
        let i = e->0;
        assert(marks(last, t[i as int].markers@));
        assert(spec_classify(last, t, e).any_engine);
    }
}

proof fn lemma_other_commit_counts(subjects: Seq<Seq<char>>, t: Seq<EngineMarkers>,
    e: Option<usize>, k: int)
    requires
        0 <= k < subjects.len(),
        is_other_engine(subjects[k], t, e),
    ensures
        other_engine_count(subjects, t, e) > 0,
    decreases subjects.len(),
{
    if k < subjects.len() - 1 {
        let rest = subjects.drop_last();
        assert(rest[k] == subjects[k]);
        lemma_other_commit_counts(rest, t, e, k);
    }
}

/// A rollback to the current head loses nothing and may proceed.
pub proof fn law_same_head_is_safe(r: ResetSafetyInfo)
    requires
        is_zero_verdict(r),
    ensures
        r.commits_to_lose == 0,
        r.safe_to_proceed,
        r.warning is None,
{
}

/// A shallow rollback that discards only the requesting engine's own
/// commits may proceed without asking.
pub proof fn law_own_shallow_rollback_is_safe(
    r: ResetSafetyInfo,
    lose: nat,
    subjects: Seq<Seq<char>>,
    t: Seq<EngineMarkers>,
    e: Option<usize>,
)
    requires
        verdict_for(r, lose, subjects, t, e),
        e matches Some(i) ==> i < t.len(),
        lose <= SAFE_DEPTH,
        forall|i: int| 0 <= i < subjects.len() ==> (#[trigger] spec_classify(subjects[i], t, e)).current_engine,
    ensures
        r.safe_to_proceed,
        r.warning is None,
{
    lemma_own_commits_count_nothing(subjects, t, e);
}

/// Discarding a single commit that carries no engine marker and is not a
/// merge discards a hand-made commit, and needs confirmation.
pub proof fn law_single_user_commit_is_unsafe(
    r: ResetSafetyInfo,
    lose: nat,
    subject: Seq<char>,
    t: Seq<EngineMarkers>,
    e: Option<usize>,
)
    requires
        verdict_for(r, lose, seq![subject], t, e),
        lose > 0,
        !spec_classify(subject, t, e).any_engine,
        !has_substring(lower_of(subject), "merge"@),
    ensures
        r.has_user_commits,
        !r.safe_to_proceed,
{
    assert(seq![subject].drop_last() =~= Seq::<Seq<char>>::empty());
}

/// A discarded commit of another engine is reported, however many commits
/// the rollback discards.
pub proof fn law_other_engine_commit_is_reported(
    r: ResetSafetyInfo,
    lose: nat,
    subjects: Seq<Seq<char>>,
    t: Seq<EngineMarkers>,
    e: Option<usize>,
    k: int,
)
    requires
        verdict_for(r, lose, subjects, t, e),
        lose > 0,
        0 <= k < subjects.len(),
        spec_classify(subjects[k], t, e).any_engine,
        !spec_classify(subjects[k], t, e).current_engine,
    ensures
        r.has_other_engine_commits,
        !r.safe_to_proceed,
{
    lemma_other_commit_counts(subjects, t, e, k);
}

/// A rollback that loses no commit may proceed, whatever the subjects.
pub proof fn law_nothing_lost_is_safe(r: ResetSafetyInfo, subjects: Seq<Seq<char>>, t: Seq<EngineMarkers>, e: Option<usize>)
    requires
        verdict_for(r, 0, subjects, t, e),
    ensures
        r.commits_to_lose == 0,
        r.safe_to_proceed,
        r.warning is None,
{
}

/// A verdict may proceed exactly when it carries no warning.
pub proof fn law_safe_iff_no_warning(
    r: ResetSafetyInfo,
    lose: nat,
    subjects: Seq<Seq<char>>,
    t: Seq<EngineMarkers>,
    e: Option<usize>,
)
    requires
        verdict_for(r, lose, subjects, t, e),
    ensures
        r.safe_to_proceed <==> r.warning is None,
{
}

/// A verdict shows at most ten commit subjects.
pub proof fn law_summary_is_capped(r: ResetSafetyInfo, lose: nat, subjects: Seq<Seq<char>>, t: Seq<EngineMarkers>,
    e: Option<usize>)
    requires
        verdict_for(r, lose, subjects, t, e),
    ensures
        r.commits_summary@.len() <= SUMMARY_LIMIT,
{
    assert(views(r.commits_summary@).len() == r.commits_summary@.len());
}

/// Where a safety check stands.
#[derive(Debug)]
pub enum SafetyPhase {
    /// Waiting for the outcome of `rev-parse HEAD`.
    AwaitHead,
    /// Waiting for the number of commits between the target and `head`.
    AwaitCount { head: String },
    /// Waiting for the subjects of the `count` commits between the target and
    /// `head`.
    AwaitLog { head: String, count: usize },
    /// The verdict or the error has been handed out.
    Finished,
}

/// A safety check of a rollback to `target`, asked for by `engine`. The
/// driver runs each command it is given and hands back the outcome.
#[derive(Debug)]
pub struct SafetyCheck {
    pub target: String,
    pub table: MarkerTable,
    /// The requesting engine, as an index into `table`.
    pub engine: Option<usize>,
    pub phase: SafetyPhase,
}

impl SafetyCheck {
    /// Starts the check of a rollback to `target_commit` for the engine named
    /// `current_engine`; the first command resolves the current head.
    pub fn check_reset_safety(target_commit: String, table: MarkerTable, current_engine: &str) -> (r: (
        SafetyCheck,
        GitCommand,
    ))
        ensures
            r.0.wf(),
            r.0.target == target_commit,
            r.0.table == table,
            r.0.engine == engine_of(table.engines@, current_engine@),
            r.0.phase is AwaitHead,
            r.1 is RevParseHead,
    {
        let engine = table.engine_of(current_engine);
        let check = SafetyCheck {
            target: target_commit,
            table,
            engine,
            phase: SafetyPhase::AwaitHead,
        };
        (check, GitCommand::RevParseHead)
    }

    /// The requesting engine is one of the table.
    pub open spec fn wf(&self) -> bool {
        self.engine matches Some(i) ==> i < self.table.engines@.len()
    }

    pub fn is_finished(&self) -> (r: bool)
        ensures
            r == self.phase is Finished,
    {
        match self.phase {
            SafetyPhase::Finished => true,
            _ => false,
        }
    }

    /// Takes the outcome of the last command and says what comes next.
    pub fn advance(&mut self, o: Outcome) -> (r: Step<ResetSafetyInfo>)
        requires
            old(self).wf(),
            !(old(self).phase is Finished),
        ensures
            final(self).wf(),
            final(self).target == old(self).target,
            final(self).table == old(self).table,
            final(self).engine == old(self).engine,
            match old(self).phase {
                SafetyPhase::AwaitHead => match head_result(o) {
                    Err(e) => r == Step::<ResetSafetyInfo>::Done(Err(e)) && final(self).phase is Finished,
                    Ok(h) => if h == old(self).target@ {
                        &&& r matches Step::Done(Ok(v)) && is_zero_verdict(v)
                        &&& final(self).phase is Finished
                    } else {
                        &&& r matches Step::Run(GitCommand::RevListCount { from, to }) && from
                            == old(self).target && to@ == h
                        &&& final(self).phase matches SafetyPhase::AwaitCount { head } && head@ == h
                    },
                },
                SafetyPhase::AwaitCount { head } => match outcome_error(o) {
                    Some(e) => r == Step::<ResetSafetyInfo>::Done(Err(e)) && final(self).phase is Finished,
                    None => {
                        let t = trimmed_stdout(o);
                        if is_count_text(t) && decimal_value(count_digits(t)) <= usize::MAX {
                            &&& r matches Step::Run(GitCommand::LogSubjects { from, to }) && from
                                == old(self).target && to == head
                            &&& final(self).phase matches SafetyPhase::AwaitLog { head: h, count }
                                && h == head && count == decimal_value(count_digits(t))
                        } else {
                            &&& r matches Step::Done(Err(GitError::Parse(p))) && p@ == t
                            &&& final(self).phase is Finished
                        }
                    },
                },
                SafetyPhase::AwaitLog { head, count } => match outcome_error(o) {
                    Some(e) => r == Step::<ResetSafetyInfo>::Done(Err(e)) && final(self).phase is Finished,
                    None => {
                        &&& r matches Step::Done(Ok(v)) && verdict_for(
                            v,
                            count as nat,
                            nonblank_lines(o->Exited_0.stdout@),
                            old(self).table.engines@,
                            old(self).engine,
                        )
                        &&& final(self).phase is Finished
                    },
                },
                SafetyPhase::Finished => true,
            },
    {
        let (next, step) = match &self.phase {
            SafetyPhase::AwaitHead => match git_current_commit(o) {
                Err(e) => (SafetyPhase::Finished, Step::Done(Err(e))),
                Ok(head) => {
                    if head == self.target {
                        (SafetyPhase::Finished, Step::Done(Ok(zero_verdict())))
                    } else {
                        let cmd = GitCommand::RevListCount { from: self.target.clone(), to: head.clone() };
                        (SafetyPhase::AwaitCount { head }, Step::Run(cmd))
                    }
                },
            },
            SafetyPhase::AwaitCount { head } => match git_commit_count_between(o) {
                Err(e) => (SafetyPhase::Finished, Step::Done(Err(e))),
                Ok(count) => {
                    let cmd = GitCommand::LogSubjects { from: self.target.clone(), to: head.clone() };
                    (SafetyPhase::AwaitLog { head: head.clone(), count }, Step::Run(cmd))
                },
            },
            SafetyPhase::AwaitLog { head: _, count } => match git_log_between(o) {
                Err(e) => (SafetyPhase::Finished, Step::Done(Err(e))),
                Ok(subjects) => (
                    SafetyPhase::Finished,
                    Step::Done(Ok(assess_range(*count, subjects, &self.table, self.engine))),
                ),
            },
            SafetyPhase::Finished => (SafetyPhase::Finished, Step::Done(Err(GitError::Decode))),
        };
        self.phase = next;
        step
    }
}

} // verus!
