//! What the caller is asked to do in each phase of a run, and the command
//! lines that it is asked to run.

use vstd::prelude::*;
use vstd::string::StringExecFns;
use crate::branches::{temp_branch, temp_branch_name};
use crate::failure::{message_of, Failure};
use crate::layout::{extended, ledger_of, ledger_path, scratch_of, scratch_path, sentinel_paths, sentinels_of};
use crate::plan;
use crate::plan::{Head, Phase, RunView};
use crate::run::{BranchOrCommit, Run};
use crate::text::{decimal, decimal_text, texts};

verus! {

/// What the caller is asked to do. The answer is an event, handed to the
/// next step of the run.
#[derive(Clone, Copy, PartialEq, Eq, Structural, Debug)]
pub enum Action {
    /// To start the run, with `Event::Start`.
    Begin,
    /// To run the version-control program as `invocation` says. The answer is
    /// `Event::Succeeded` with what it printed where it exited with status
    /// zero, `Event::Rejected` where it exited with another status, and
    /// `Event::Broken` where it could not be run.
    Git,
    /// To answer, with `Event::Clock`, whether the committer date is set in
    /// the environment, and the time.
    ReadClock,
    /// To set the committer date in the environment to what `committer_date`
    /// makes of the seconds of the run, and to answer `Event::Saved`.
    SetCommitterDate,
    /// To read the file that `ledger_file` names, and to answer with
    /// `Event::Entries`: the pairs it holds, or `None` where there is no such
    /// file.
    LoadLedger,
    /// To write the entries of the ledger of the run to the file that
    /// `ledger_file` names, and to answer `Event::Saved`.
    SaveLedger,
    /// To answer, with `Event::Flag`, whether the directory that
    /// `scratch_dir` names exists.
    ProbeDirectory,
    /// To read the file that `link_file` names, and to answer with
    /// `Event::Text`: what it holds, or `None` where it is no file but a
    /// directory.
    ReadLink,
    /// To answer, with `Event::Flag`, whether one of the directories that
    /// `sentinels` names exists.
    ProbeRebase,
    /// Nothing more: the run is over.
    Finish,
}

/// What the caller is asked to do in a phase.
pub open spec fn action_of(phase: Phase) -> Action {
    match phase {
        Phase::Idle => Action::Begin,
        Phase::Clock => Action::ReadClock,
        Phase::SetDate => Action::SetCommitterDate,
        Phase::LoadLedger => Action::LoadLedger,
        Phase::ClearLedger | Phase::RecordLedger => Action::SaveLedger,
        Phase::ScratchProbe => Action::ProbeDirectory,
        Phase::Locate => Action::ReadLink,
        Phase::CheckStale | Phase::CheckAttempt | Phase::CheckProbe => Action::ProbeRebase,
        Phase::Finished => Action::Finish,
        _ => Action::Git,
    }
}

/// What the caller is asked to do in a phase.
pub fn pending(phase: Phase) -> (r: Action)
    ensures
        r == action_of(phase),
{
    match phase {
        Phase::Idle => Action::Begin,
        Phase::Clock => Action::ReadClock,
        Phase::SetDate => Action::SetCommitterDate,
        Phase::LoadLedger => Action::LoadLedger,
        Phase::ClearLedger | Phase::RecordLedger => Action::SaveLedger,
        Phase::ScratchProbe => Action::ProbeDirectory,
        Phase::Locate => Action::ReadLink,
        Phase::CheckStale | Phase::CheckAttempt | Phase::CheckProbe => Action::ProbeRebase,
        Phase::Finished => Action::Finish,
        _ => Action::Git,
    }
}

/// A command line of the version-control program.
#[derive(Debug)]
pub struct Invocation {
    /// The directory to run it in.
    pub dir: String,
    /// The arguments behind the name of the program.
    pub args: Vec<String>,
}

/// An `Invocation` as a mathematical value.
pub struct InvocationView {
    pub dir: Seq<char>,
    pub args: Seq<Seq<char>>,
}

impl View for Invocation {
    type V = InvocationView;

    open spec fn view(&self) -> InvocationView {
        InvocationView { dir: self.dir@, args: texts(self.args@) }
    }
}

/// The worktree in which the branch at hand is rebased: the one that has it
/// checked out, or the private one.
pub open spec fn rebase_dir_of(s: RunView) -> Seq<char> {
    if plan::in_own_worktree(s) {
        plan::current(s).worktree->0.path
    } else {
        scratch_of(s.metadata)
    }
}

/// The link file of the worktree in which the branch at hand is rebased.
pub open spec fn link_of(s: RunView) -> Seq<char> {
    rebase_dir_of(s) + "/.git"@
}

/// The arguments that put a worktree back where it stood.
pub open spec fn restore_args(saved: Head) -> Seq<Seq<char>> {
    match saved {
        Head::Branch(name) => seq!["switch"@, name],
        Head::Commit(hash) => seq!["switch"@, "--detach"@, hash],
    }
}

/// The directory that the command of a phase runs in.
pub open spec fn dir_of(s: RunView) -> Seq<char> {
    match s.phase {
        Phase::Version | Phase::Toplevel | Phase::CommonDir => s.start_dir,
        Phase::CleanTree | Phase::CleanIndex => plan::current(s).worktree->0.path,
        Phase::PullBound => s.branches[s.target as int].worktree->0.path,
        Phase::PullSwitch
        | Phase::PullScratch
        | Phase::PullDetach
        | Phase::Checkout
        | Phase::Normalize => scratch_of(s.metadata),
        Phase::AbortStale
        | Phase::Attempt
        | Phase::AbortAttempt
        | Phase::CurrentBranch
        | Phase::CurrentCommit
        | Phase::CreateTemp
        | Phase::Probe
        | Phase::Count
        | Phase::AbortProbe
        | Phase::LeaveTemp
        | Phase::DeleteTemp
        | Phase::Restore => rebase_dir_of(s),
        _ => s.root,
    }
}

/// The arguments of the command of a phase.
pub open spec fn args_of(s: RunView) -> Seq<Seq<char>> {
    let branch = plan::current(s).branch;
    match s.phase {
        Phase::Version => seq!["version"@],
        Phase::Toplevel => seq!["rev-parse"@, "--show-toplevel"@],
        Phase::CommonDir => seq!["rev-parse"@, "--git-common-dir"@],
        Phase::DefaultBranch => seq![
            "--no-pager"@,
            "config"@,
            "--default"@,
            "master"@,
            "--get"@,
            "init.defaultBranch"@,
        ],
        Phase::ScratchAdd => seq!["worktree"@, "add"@, "--detach"@, scratch_of(s.metadata)],
        Phase::Inventory => seq![
            "for-each-ref"@,
            "--format=%(refname:short)%00%(upstream:short)%00%(worktreepath)"@,
            "refs/heads"@,
        ],
        Phase::CleanTree => seq!["diff-index"@, "--quiet"@, "HEAD"@],
        Phase::CleanIndex => seq!["diff-index"@, "--quiet"@, "--cached"@, "HEAD"@],
        Phase::PullBound | Phase::PullScratch => seq!["pull"@, "--ff-only"@],
        Phase::PullSwitch => seq!["switch"@, s.onto],
        Phase::PullDetach => seq!["switch"@, "--detach"@],
        Phase::TipBefore | Phase::TipAfter => seq!["rev-parse"@, branch],
        Phase::MergeBase => seq!["merge-base"@, branch, s.onto],
        Phase::Targets => seq!["--no-pager"@, "log"@, "--format=%H"@, s.base + ".."@ + s.onto],
        Phase::Checkout => seq!["switch"@, branch],
        Phase::Attempt => seq!["rebase"@, s.targets[s.attempt as int]],
        Phase::AbortStale | Phase::AbortAttempt | Phase::AbortProbe => seq!["rebase"@, "--abort"@],
        Phase::CurrentBranch => seq!["symbolic-ref"@, "--quiet"@, "--short"@, "HEAD"@],
        Phase::CurrentCommit => seq!["rev-parse"@, "HEAD"@],
        Phase::CreateTemp => seq!["switch"@, "--force-create"@, temp_branch(), s.onto],
        Phase::Probe => seq!["-c"@, "commit.gpgsign=false"@, "rebase"@, branch],
        Phase::Count => seq!["--no-pager"@, "log"@, "--format=%H"@, branch + "..HEAD"@],
        Phase::LeaveTemp => seq!["switch"@, "--detach"@, s.onto],
        Phase::DeleteTemp => seq!["branch"@, "--delete"@, "--force"@, temp_branch()],
        Phase::Restore => restore_args(s.saved->0),
        Phase::Normalize => seq!["switch"@, "--detach"@, branch],
        _ => Seq::empty(),
    }
}

/// The command line that the caller is asked to run, in the phases in which
/// it is asked to run one.
pub open spec fn invocation_of(s: RunView) -> Option<InvocationView> {
    if action_of(s.phase) == Action::Git {
        Some(InvocationView { dir: dir_of(s), args: args_of(s) })
    } else {
        None
    }
}

/// What to tell the user of the failure of a run: the message of the
/// failure, with the name of the integration branch where that was not
/// found. `None` while the run has not failed.
pub open spec fn failure_text_of(s: RunView) -> Option<Seq<char>> {
    match s.failure {
        Some(Failure::TargetNotFound) => Some("Couldn't find target branch '"@ + s.onto + "'"@),
        Some(failure) => Some(message_of(failure)),
        None => None,
    }
}

/// What to tell the user of the failure of the run.
pub fn failure_text(run: &Run) -> (r: Option<String>)
    ensures
        match r {
            Some(text) => failure_text_of(run@) == Some(text@),
            None => failure_text_of(run@) is None,
        },
{
    match run.failure() {
        Some(Failure::TargetNotFound) => {
            let mut text = extended(&"Couldn't find target branch '".to_owned(), run.onto().as_str());
            text.append("'");
            Some(text)
        },
        Some(failure) => Some(failure.message()),
        None => None,
    }
}

/// The committer date that freezes the time at `seconds` since the epoch.
pub open spec fn committer_date_of(seconds: u64) -> Seq<char> {
    "@"@ + decimal(seconds as nat) + " +0000"@
}

/// The value to set the committer date to, so that every commit that the run
/// makes gets the same date.
pub fn committer_date(seconds: u64) -> (r: String)
    ensures
        r@ == committer_date_of(seconds),
{
    let mut date = "@".to_owned();
    let digits = decimal_text(seconds);
    date.append(digits.as_str());
    date.append(" +0000");
    date
}

/// A list of arguments.
fn words(list: &[&str]) -> (r: Vec<String>)
    ensures
        r@.len() == list@.len(),
        forall|i: int| 0 <= i < list@.len() ==> (#[trigger] r@[i])@ == list@[i]@,
{
    let mut out: Vec<String> = Vec::new();
    let mut i: usize = 0;
    while i < list.len()
        invariant
            i <= list@.len(),
            out@.len() == i,
            forall|k: int| 0 <= k < i ==> (#[trigger] out@[k])@ == list@[k]@,
        decreases list@.len() - i,
    {
        out.push(list[i].to_owned());
        i += 1;
    }
    out
}

/// The worktree in which the branch at hand is rebased.
fn rebase_dir(run: &Run) -> (r: String)
    requires
        run@.cursor < run@.branches.len(),
    ensures
        r@ == rebase_dir_of(run@),
{
    match &run.branches()[run.cursor()].worktree {
        Some(tree) => tree.path.clone(),
        None => scratch_path(run.metadata()),
    }
}

/// The private worktree of the run.
pub fn scratch_dir(run: &Run) -> (r: String)
    ensures
        r@ == scratch_of(run@.metadata),
{
    scratch_path(run.metadata())
}

/// The ledger file of the run.
pub fn ledger_file(run: &Run) -> (r: String)
    ensures
        r@ == ledger_of(run@.metadata),
{
    ledger_path(run.metadata())
}

/// The link file to read while the run waits for it.
pub fn link_file(run: &Run) -> (r: Option<String>)
    ensures
        match r {
            Some(path) => run@.phase == Phase::Locate && path@ == link_of(run@),
            None => run@.phase != Phase::Locate,
        },
{
    if matches!(run.phase(), Phase::Locate) {
        let dir = rebase_dir(run);
        Some(extended(&dir, "/.git"))
    } else {
        None
    }
}

/// The directories of which one exists while a rebase is in progress in the
/// worktree in which the branch at hand is rebased.
pub fn sentinels(run: &Run) -> (r: Vec<String>)
    ensures
        texts(r@) == sentinels_of(run@.gitdir),
{
    sentinel_paths(run.gitdir())
}

/// The directory that the command of the phase runs in.
fn command_dir(run: &Run) -> (r: String)
    requires
        action_of(run@.phase) == Action::Git,
    ensures
        r@ == dir_of(run@),
{
    match run.phase() {
        Phase::Version | Phase::Toplevel | Phase::CommonDir => run.start_dir().clone(),
        Phase::CleanTree | Phase::CleanIndex => match &run.branches()[run.cursor()].worktree {
            Some(tree) => tree.path.clone(),
            None => String::new(),
        },
        Phase::PullBound => match &run.branches()[run.target()].worktree {
            Some(tree) => tree.path.clone(),
            None => String::new(),
        },
        Phase::PullSwitch
        | Phase::PullScratch
        | Phase::PullDetach
        | Phase::Checkout
        | Phase::Normalize => scratch_path(run.metadata()),
        Phase::AbortStale
        | Phase::Attempt
        | Phase::AbortAttempt
        | Phase::CurrentBranch
        | Phase::CurrentCommit
        | Phase::CreateTemp
        | Phase::Probe
        | Phase::Count
        | Phase::AbortProbe
        | Phase::LeaveTemp
        | Phase::DeleteTemp
        | Phase::Restore => rebase_dir(run),
        _ => run.root().clone(),
    }
}

/// The arguments of the commands that name no branch or commit.
fn fixed_args(phase: Phase) -> (r: Option<Vec<String>>)
    ensures
        match r {
            Some(args) => is_fixed(phase) && forall|s: RunView|
                s.phase == phase ==> texts(args@) == #[trigger] args_of(s),
            None => !is_fixed(phase),
        },
{
    let args = match phase {
        Phase::Version => words(&["version"]),
        Phase::Toplevel => words(&["rev-parse", "--show-toplevel"]),
        Phase::CommonDir => words(&["rev-parse", "--git-common-dir"]),
        Phase::DefaultBranch => words(
            &["--no-pager", "config", "--default", "master", "--get", "init.defaultBranch"],
        ),
        Phase::Inventory => words(
            &[
                "for-each-ref",
                "--format=%(refname:short)%00%(upstream:short)%00%(worktreepath)",
                "refs/heads",
            ],
        ),
        Phase::CleanTree => words(&["diff-index", "--quiet", "HEAD"]),
        Phase::CleanIndex => words(&["diff-index", "--quiet", "--cached", "HEAD"]),
        Phase::PullBound | Phase::PullScratch => words(&["pull", "--ff-only"]),
        Phase::PullDetach => words(&["switch", "--detach"]),
        Phase::AbortStale | Phase::AbortAttempt | Phase::AbortProbe => words(
            &["rebase", "--abort"],
        ),
        Phase::CurrentBranch => words(&["symbolic-ref", "--quiet", "--short", "HEAD"]),
        Phase::CurrentCommit => words(&["rev-parse", "HEAD"]),
        _ => {
            return None;
        },
    };
    assert forall|s: RunView| s.phase == phase implies texts(args@) == #[trigger] args_of(s) by {
        assert(texts(args@) =~= args_of(s));
    }
    Some(args)
}

/// The phases whose command names no branch or commit.
pub open spec fn is_fixed(phase: Phase) -> bool {
    match phase {
        Phase::Version
        | Phase::Toplevel
        | Phase::CommonDir
        | Phase::DefaultBranch
        | Phase::Inventory
        | Phase::CleanTree
        | Phase::CleanIndex
        | Phase::PullBound
        | Phase::PullScratch
        | Phase::PullDetach
        | Phase::AbortStale
        | Phase::AbortAttempt
        | Phase::AbortProbe
        | Phase::CurrentBranch
        | Phase::CurrentCommit => true,
        _ => false,
    }
}

/// The given words with the given texts behind them.
fn words_then(list: &[&str], last: Vec<String>) -> (r: Vec<String>)
    ensures
        texts(r@) == Seq::new(list@.len(), |i: int| list@[i]@) + texts(last@),
{
    let mut out = words(list);
    let ghost head = out@;
    let ghost tail = last@;
    let mut last = last;
    out.append(&mut last);
    assert(texts(out@) =~= Seq::new(list@.len(), |i: int| list@[i]@) + texts(tail)) by {
        assert(out@ =~= head + tail);
    }
    out
}

/// The arguments of the commands that name the integration branch, the
/// private worktree or the temporary branch.
fn run_args(run: &Run) -> (r: Option<Vec<String>>)
    ensures
        match r {
            Some(args) => names_run(run@.phase) && texts(args@) == args_of(run@),
            None => !names_run(run@.phase),
        },
{
    let mut last: Vec<String> = Vec::new();
    match run.phase() {
        Phase::ScratchAdd => {
            last.push(scratch_path(run.metadata()));
            let args = words_then(&["worktree", "add", "--detach"], last);
            assert(texts(args@) =~= args_of(run@));
            Some(args)
        },
        Phase::PullSwitch => {
            last.push(run.onto().clone());
            let args = words_then(&["switch"], last);
            assert(texts(args@) =~= args_of(run@));
            Some(args)
        },
        Phase::Targets => {
            let mut range = extended(run.base(), "..");
            range.append(run.onto().as_str());
            last.push(range);
            let args = words_then(&["--no-pager", "log", "--format=%H"], last);
            assert(texts(args@) =~= args_of(run@));
            Some(args)
        },
        Phase::CreateTemp => {
            last.push(temp_branch_name());
            last.push(run.onto().clone());
            let args = words_then(&["switch", "--force-create"], last);
            assert(texts(args@) =~= args_of(run@));
            Some(args)
        },
        Phase::LeaveTemp => {
            last.push(run.onto().clone());
            let args = words_then(&["switch", "--detach"], last);
            assert(texts(args@) =~= args_of(run@));
            Some(args)
        },
        Phase::DeleteTemp => {
            last.push(temp_branch_name());
            let args = words_then(&["branch", "--delete", "--force"], last);
            assert(texts(args@) =~= args_of(run@));
            Some(args)
        },
        _ => None,
    }
}

/// The phases whose command names the integration branch, the private
/// worktree or the temporary branch, and not the branch at hand.
pub open spec fn names_run(phase: Phase) -> bool {
    match phase {
        Phase::ScratchAdd
        | Phase::PullSwitch
        | Phase::Targets
        | Phase::CreateTemp
        | Phase::LeaveTemp
        | Phase::DeleteTemp => true,
        _ => false,
    }
}

/// The arguments of the commands that name the branch at hand, a commit to
/// rebase onto, or the place to go back to.
fn turn_args(run: &Run) -> (r: Vec<String>)
    requires
        action_of(run@.phase) == Action::Git,
        !is_fixed(run@.phase),
        !names_run(run@.phase),
    ensures
        texts(r@) == args_of(run@),
{
    let phase = run.phase();
    let branch = run.branches()[run.cursor()].branch.clone();
    let mut last: Vec<String> = Vec::new();
    let args = match phase {
        Phase::TipBefore | Phase::TipAfter => {
            last.push(branch);
            words_then(&["rev-parse"], last)
        },
        Phase::MergeBase => {
            last.push(branch);
            last.push(run.onto().clone());
            words_then(&["merge-base"], last)
        },
        Phase::Checkout => {
            last.push(branch);
            words_then(&["switch"], last)
        },
        Phase::Attempt => {
            last.push(run.targets()[run.attempt()].clone());
            words_then(&["rebase"], last)
        },
        Phase::Probe => {
            last.push(branch);
            words_then(&["-c", "commit.gpgsign=false", "rebase"], last)
        },
        Phase::Count => {
            last.push(extended(&branch, "..HEAD"));
            words_then(&["--no-pager", "log", "--format=%H"], last)
        },
        Phase::Restore => match run.saved() {
            Some(BranchOrCommit::Branch(name)) => {
                last.push(name.clone());
                words_then(&["switch"], last)
            },
            Some(BranchOrCommit::Commit(hash)) => {
                last.push(hash.clone());
                words_then(&["switch", "--detach"], last)
            },
            None => last,
        },
        _ => {
            last.push(branch);
            words_then(&["switch", "--detach"], last)
        },
    };
    assert(texts(args@) =~= args_of(run@));
    args
}

/// The command line that the caller is asked to run; `None` in the phases in
/// which it is asked for something else.
pub fn invocation(run: &Run) -> (r: Option<Invocation>)
    ensures
        match r {
            Some(command) => invocation_of(run@) == Some(command@),
            None => invocation_of(run@) is None,
        },
{
    let phase = run.phase();
    if !matches!(pending(phase), Action::Git) {
        return None;
    }
    let dir = command_dir(run);
    let args = match fixed_args(phase) {
        Some(args) => args,
        None => match run_args(run) {
            Some(args) => args,
            None => turn_args(run),
        },
    };
    Some(Invocation { dir, args })
}

} // verus!
