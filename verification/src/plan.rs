//! What a run does, as a function from its state and the answer to its last
//! request to its next state.
//!
//! A run asks its caller for one thing at a time: to run the version-control
//! program, to look at a file or the clock, to save the ledger. The phase of
//! the state says what has been asked for; the caller answers with an event.

use vstd::prelude::*;
use crate::branches::{branches_of, disposition_of, BranchView, Disposition, WorktreeView};
use crate::conflicts::entries_map;
use crate::failure::Failure;
use crate::layout::{absolute_of, link_name_of, linked_of};
use crate::text::{answer_of, commits_of};
use crate::version::{supported, version_of};

verus! {

/// What the run is waiting for.
#[derive(Clone, Copy, PartialEq, Eq, Structural, Debug)]
pub enum Phase {
    /// Nothing yet: the run has not started.
    Idle,
    /// The version of the program.
    Version,
    /// Whether the committer date is set, and the time.
    Clock,
    /// The committer date to be set.
    SetDate,
    /// The root of the worktree that the run started in.
    Toplevel,
    /// The shared metadata directory.
    CommonDir,
    /// The configured default branch name.
    DefaultBranch,
    /// The entries of the ledger file.
    LoadLedger,
    /// Whether the private worktree exists.
    ScratchProbe,
    /// The private worktree to be made.
    ScratchAdd,
    /// The listing of the local branches.
    Inventory,
    /// Whether the worktree of a branch matches its tip.
    CleanTree,
    /// Whether the staging area of a branch matches its tip.
    CleanIndex,
    /// The pull of the integration branch, in the worktree that holds it.
    PullBound,
    /// The private worktree to switch to the integration branch.
    PullSwitch,
    /// The pull of the integration branch, in the private worktree.
    PullScratch,
    /// The private worktree to leave the integration branch.
    PullDetach,
    /// The tip of the branch before it is rebased.
    TipBefore,
    /// The ledger to be saved without the branch.
    ClearLedger,
    /// The merge base of the branch and the integration branch.
    MergeBase,
    /// The commits of the integration branch that the branch lacks.
    Targets,
    /// The link file of the worktree in which the branch is rebased.
    Locate,
    /// Whether an earlier run has left a rebase in progress in that worktree.
    CheckStale,
    /// The rebase that an earlier run has left to be aborted.
    AbortStale,
    /// The private worktree to switch to the branch.
    Checkout,
    /// A rebase of the branch onto one of the commits.
    Attempt,
    /// Whether the failed rebase is still in progress.
    CheckAttempt,
    /// The failed rebase to be aborted.
    AbortAttempt,
    /// The branch that the worktree is on.
    CurrentBranch,
    /// The commit that the worktree is at.
    CurrentCommit,
    /// The temporary branch to be made at the integration branch.
    CreateTemp,
    /// The rebase of the temporary branch onto the branch.
    Probe,
    /// Whether the rebase of the temporary branch is in progress.
    CheckProbe,
    /// The commits that the rebase of the temporary branch has applied.
    Count,
    /// The rebase of the temporary branch to be aborted.
    AbortProbe,
    /// The worktree to leave the temporary branch.
    LeaveTemp,
    /// The temporary branch to be deleted.
    DeleteTemp,
    /// The worktree to go back to where it was.
    Restore,
    /// The private worktree to stand, detached, at the tip of the branch.
    Normalize,
    /// The tip of the branch after a rebase that conflicts stopped.
    TipAfter,
    /// The ledger to be saved with the branch.
    RecordLedger,
    /// Nothing any more: the run is over.
    Finished,
}

/// The answer to a request.
#[derive(Debug)]
pub enum Event {
    /// The run is to start.
    Start,
    /// The program ran and exited with status zero; what it printed.
    Succeeded(Vec<u8>),
    /// The program ran and exited with another status; a report of that.
    Rejected(String),
    /// The program could not be run, or a file could not be read or written;
    /// a report of that.
    Broken(String),
    /// The answer to a question that has two.
    Flag(bool),
    /// What the file holds, or `None` where it is not a file.
    Text(Option<Vec<u8>>),
    /// The pairs that the ledger file holds, or `None` where there is none.
    Entries(Option<Vec<(String, String)>>),
    /// Whether the committer date was set before the run, and the seconds
    /// since the epoch.
    Clock { preset: bool, seconds: u64 },
    /// What was to be set or saved has been.
    Saved,
}

/// A line of the progress report. The numbers are positions in the list of
/// branches, or of commits to rebase onto.
#[derive(Clone, Copy, PartialEq, Eq, Structural, Debug)]
pub enum Note {
    /// The private worktree is being made.
    CreatingWorktree,
    /// The branches are known: what is done with each can be shown.
    Listed,
    /// The integration branch is being pulled.
    Pulling,
    /// The integration branch has been pulled.
    Pulled,
    /// The integration branch is not pulled: it is checked out with changes
    /// pending.
    NotPullingDirty,
    /// The integration branch is not pulled: it has no upstream.
    NotPullingNoUpstream,
    /// The turn of a branch begins.
    Rebasing(usize),
    /// The branch is passed over: it is blocked at the commit it points to.
    SkippedBlocked,
    /// The branch lacks nothing.
    UpToDate,
    /// A rebase onto a commit is tried.
    Onto(usize),
    /// The rebase went through.
    Success,
    /// The rebase ran into conflicts.
    Conflicts,
    /// The first conflicting commit is searched for.
    FindingFirstConflict,
    /// Conflicts stopped the branch short: it is to be rebased by hand.
    Stunted,
}

/// Where a worktree stands.
pub enum Head {
    /// On a branch.
    Branch(Seq<char>),
    /// At a commit, detached.
    Commit(Seq<char>),
}

/// The state of a run, as a mathematical value.
pub struct RunView {
    /// What the run is waiting for.
    pub phase: Phase,
    /// Whether every commit is tried in turn when a rebase conflicts.
    pub slow: bool,
    /// Whether branches with an upstream are rebased too.
    pub include_non_local: bool,
    /// The pattern that the names of rebased branches match.
    pub filter: Option<Seq<char>>,
    /// The integration branch that was asked for.
    pub wanted: Option<Seq<char>>,
    /// The directory that the run started in.
    pub start_dir: Seq<char>,
    /// The root of the worktree around it.
    pub root: Seq<char>,
    /// The shared metadata directory.
    pub metadata: Seq<char>,
    /// The integration branch.
    pub onto: Seq<char>,
    /// The time to freeze the committer date at.
    pub seconds: u64,
    /// The conflict ledger.
    pub ledger: Map<Seq<char>, Seq<char>>,
    /// The local branches.
    pub branches: Seq<BranchView>,
    /// Where the integration branch stands among them.
    pub target: usize,
    /// The branch at hand.
    pub cursor: usize,
    /// The merge base of the branch at hand and the integration branch.
    pub base: Seq<char>,
    /// The commits that the branch at hand lacks, newest first.
    pub targets: Seq<Seq<char>>,
    /// The commit that is tried.
    pub attempt: usize,
    /// Whether a rebase of the branch at hand has run into conflicts.
    pub blocked: bool,
    /// Whether the first conflict has been searched for.
    pub probed: bool,
    /// How many of the oldest commits applied cleanly on top of the branch.
    pub applied: usize,
    /// Where the worktree stood before the search.
    pub saved: Option<Head>,
    /// The metadata directory of the worktree in which the branch is rebased.
    pub gitdir: Seq<char>,
    /// A failure met while the temporary branch was in use: it ends the run
    /// once the branch has been dealt with.
    pub doomed: Option<Failure>,
    /// Why the run failed, once it has.
    pub failure: Option<Failure>,
}

/// The state before the start.
pub open spec fn initial(
    start_dir: Seq<char>,
    wanted: Option<Seq<char>>,
    slow: bool,
    include_non_local: bool,
    filter: Option<Seq<char>>,
) -> RunView {
    RunView {
        phase: Phase::Idle,
        slow,
        include_non_local,
        filter,
        wanted,
        start_dir,
        root: Seq::empty(),
        metadata: Seq::empty(),
        onto: Seq::empty(),
        seconds: 0,
        ledger: Map::empty(),
        branches: Seq::empty(),
        target: 0,
        cursor: 0,
        base: Seq::empty(),
        targets: Seq::empty(),
        attempt: 0,
        blocked: false,
        probed: false,
        applied: 0,
        saved: None,
        gitdir: Seq::empty(),
        doomed: None,
        failure: None,
    }
}

/// The next state with the lines to report.
pub struct Next {
    pub state: RunView,
    pub notes: Seq<Note>,
}

/// The next state, with nothing to report.
pub open spec fn quiet(state: RunView) -> Next {
    Next { state, notes: Seq::empty() }
}

/// The next state, with one line to report before those of `next`.
pub open spec fn after(note: Note, next: Next) -> Next {
    Next { state: next.state, notes: seq![note] + next.notes }
}

/// The run stopped by `failure`.
pub open spec fn stopped(s: RunView, failure: Failure) -> Next {
    quiet(RunView { phase: Phase::Finished, failure: Some(failure), ..s })
}

/// The failure that an event other than the awaited one stands for.
pub open spec fn refusal(e: Event) -> Failure {
    match e {
        Event::Rejected(report) => Failure::Rejected(report),
        Event::Broken(report) => Failure::Broken(report),
        _ => Failure::Unexpected,
    }
}

/// The run waiting for something else.
pub open spec fn waiting(s: RunView, phase: Phase) -> Next {
    quiet(RunView { phase, ..s })
}

/// What the run does with the branch at `i`.
pub open spec fn disposition_at(s: RunView, i: int) -> Disposition {
    disposition_of(s.branches[i], s.onto, s.include_non_local, s.filter)
}

/// The first branch from `from` on that is checked out somewhere, or the
/// number of branches where there is none.
pub open spec fn next_bound(branches: Seq<BranchView>, from: int) -> int
    decreases branches.len() - from,
{
    if from < 0 || from >= branches.len() {
        branches.len() as int
    } else if branches[from].worktree is Some {
        from
    } else {
        next_bound(branches, from + 1)
    }
}

/// The first branch from `from` on that is rebased, or the number of
/// branches where there is none.
pub open spec fn next_eligible(s: RunView, from: int) -> int
    decreases s.branches.len() - from,
{
    if from < 0 || from >= s.branches.len() {
        s.branches.len() as int
    } else if disposition_at(s, from) == Disposition::Eligible {
        from
    } else {
        next_eligible(s, from + 1)
    }
}

/// The first branch from `from` on with the name `name`, or the number of
/// branches where there is none.
pub open spec fn index_of(branches: Seq<BranchView>, name: Seq<char>, from: int) -> int
    decreases branches.len() - from,
{
    if from < 0 || from >= branches.len() {
        branches.len() as int
    } else if branches[from].branch == name {
        from
    } else {
        index_of(branches, name, from + 1)
    }
}

/// The branch at hand.
pub open spec fn current(s: RunView) -> BranchView {
    s.branches[s.cursor as int]
}

/// Whether the branch at hand is rebased in the worktree that holds it,
/// rather than in the private one.
pub open spec fn in_own_worktree(s: RunView) -> bool {
    current(s).worktree is Some
}

/// The turn of the first branch from `from` on that is rebased begins: its
/// tip is asked for. Where there is none the run is over.
pub open spec fn turn_from(s: RunView, from: int) -> Next {
    let i = next_eligible(s, from);
    if i >= s.branches.len() {
        waiting(s, Phase::Finished)
    } else {
        after(
            Note::Rebasing(i as usize),
            quiet(
                RunView {
                    phase: Phase::TipBefore,
                    cursor: i as usize,
                    base: Seq::empty(),
                    targets: Seq::empty(),
                    attempt: 0,
                    blocked: false,
                    probed: false,
                    applied: 0,
                    saved: None,
                    gitdir: Seq::empty(),
                    ..s
                },
            ),
        )
    }
}

/// The turn of the branch at hand is over; the next one begins.
pub open spec fn turn_over(s: RunView) -> Next {
    turn_from(s, s.cursor + 1)
}

/// The first branch from `from` on that is checked out is examined. Where
/// there is none the integration branch is looked up and pulled.
pub open spec fn examine_from(s: RunView, from: int) -> Next {
    let i = next_bound(s.branches, from);
    if i >= s.branches.len() {
        pull(s)
    } else {
        waiting(RunView { cursor: i as usize, ..s }, Phase::CleanTree)
    }
}

/// The branch at hand with its worktree found clean.
pub open spec fn marked_clean(s: RunView) -> RunView {
    RunView {
        branches: s.branches.update(
            s.cursor as int,
            BranchView {
                worktree: Some(WorktreeView { path: current(s).worktree->0.path, clean: true }),
                ..current(s)
            },
        ),
        ..s
    }
}

/// The branches are known. The integration branch must be among them. It is
/// pulled where it has an upstream and no changes are pending where it is
/// checked out: there if it is checked out, else in the private worktree.
/// Then the turns of the branches begin.
pub open spec fn pull(s: RunView) -> Next {
    let t = index_of(s.branches, s.onto, 0);
    if t >= s.branches.len() {
        stopped(s, Failure::TargetNotFound)
    } else {
        let s = RunView { target: t as usize, ..s };
        let target = s.branches[t];
        after(
            Note::Listed,
            if target.upstream is None {
                after(Note::NotPullingNoUpstream, turn_from(s, 0))
            } else if target.worktree is None {
                after(Note::Pulling, waiting(s, Phase::PullSwitch))
            } else if target.worktree->0.clean {
                after(Note::Pulling, waiting(s, Phase::PullBound))
            } else {
                after(Note::NotPullingDirty, turn_from(s, 0))
            },
        )
    }
}

/// A rebase onto the commit at `i` is tried.
pub open spec fn try_onto(s: RunView, i: usize) -> Next {
    after(Note::Onto(i), waiting(RunView { attempt: i, ..s }, Phase::Attempt))
}

/// No more rebase is tried: the private worktree is put, detached, at the
/// tip of the branch.
pub open spec fn settle(s: RunView) -> Next {
    waiting(s, Phase::Normalize)
}

/// A rebase has conflicted and is no longer in progress. When every commit
/// is tried, the next older one is, until none is left. Else the first
/// conflict is searched for, once.
pub open spec fn after_conflict(s: RunView) -> Next {
    if s.slow {
        if s.attempt + 1 < s.targets.len() {
            try_onto(s, (s.attempt + 1) as usize)
        } else {
            settle(s)
        }
    } else if !s.probed {
        after(Note::FindingFirstConflict, waiting(s, Phase::CurrentBranch))
    } else {
        settle(s)
    }
}

/// The search is over and the worktree is back where it was. Where some but
/// not all of the commits applied on top of the branch, the newest of them
/// is tried: with `n` applied, the `n`th from the end.
pub open spec fn after_search(s: RunView) -> Next {
    let s = RunView { probed: true, ..s };
    if 0 < s.applied < s.targets.len() {
        try_onto(s, (s.targets.len() - s.applied) as usize)
    } else {
        settle(s)
    }
}

/// The next state of the run in state `s` when the answer to what it waits
/// for is `e`.
pub open spec fn step_of(s: RunView, e: Event) -> Next {
    if sets_up(s.phase) {
        setup_step(s, e)
    } else if examines(s.phase) || pulls(s.phase) {
        pull_step(s, e)
    } else if opens(s.phase) {
        opening_step(s, e)
    } else if searches(s.phase) {
        search_step(s, e)
    } else if tries(s.phase) {
        try_step(s, e)
    } else if closes(s.phase) {
        closing_step(s, e)
    } else {
        quiet(s)
    }
}

/// A step before the branches are known.
#[verifier::opaque]
pub open spec fn setup_step(s: RunView, e: Event) -> Next {
    match s.phase {
        Phase::Idle => on_idle(s, e),
        Phase::Version => on_version(s, e),
        Phase::Clock => on_clock(s, e),
        Phase::SetDate => on_saved(s, e, Phase::Toplevel),
        Phase::Toplevel => on_toplevel(s, e),
        Phase::CommonDir => on_common_dir(s, e),
        Phase::DefaultBranch => on_default_branch(s, e),
        Phase::LoadLedger => on_load_ledger(s, e),
        Phase::ScratchProbe => on_scratch_probe(s, e),
        Phase::ScratchAdd => on_done(s, e, Phase::Inventory),
        _ => on_inventory(s, e),
    }
}

/// A step while worktrees are examined and the integration branch is pulled.
#[verifier::opaque]
pub open spec fn pull_step(s: RunView, e: Event) -> Next {
    match s.phase {
        Phase::CleanTree => on_clean_tree(s, e),
        Phase::CleanIndex => on_clean_index(s, e),
        Phase::PullSwitch => on_done(s, e, Phase::PullScratch),
        Phase::PullScratch => on_cleanup(s, e, Phase::PullDetach),
        Phase::PullDetach => on_pull_detach(s, e),
        _ => on_pulled(s, e),
    }
}

/// A step of a turn before the first try.
#[verifier::opaque]
pub open spec fn opening_step(s: RunView, e: Event) -> Next {
    match s.phase {
        Phase::TipBefore => on_tip_before(s, e),
        Phase::ClearLedger => on_saved(s, e, Phase::MergeBase),
        Phase::MergeBase => on_merge_base(s, e),
        Phase::Targets => on_targets(s, e),
        Phase::Locate => on_locate(s, e),
        Phase::CheckStale => on_check_stale(s, e),
        Phase::AbortStale => on_abort_stale(s, e),
        _ => on_checkout(s, e),
    }
}

/// A step of a try, outside the search for the first conflict.
#[verifier::opaque]
pub open spec fn try_step(s: RunView, e: Event) -> Next {
    match s.phase {
        Phase::Attempt => on_attempt(s, e),
        Phase::CheckAttempt => on_check_attempt(s, e),
        _ => on_abort_attempt(s, e),
    }
}

/// A step of the search for the first conflict.
#[verifier::opaque]
pub open spec fn search_step(s: RunView, e: Event) -> Next {
    match s.phase {
        Phase::CurrentBranch => on_current_branch(s, e),
        Phase::CurrentCommit => on_current_commit(s, e),
        Phase::CreateTemp => on_create_temp(s, e),
        Phase::Probe => on_probe(s, e),
        Phase::CheckProbe => on_check_probe(s, e),
        Phase::Count => on_count(s, e),
        Phase::AbortProbe => on_cleanup(s, e, Phase::LeaveTemp),
        Phase::LeaveTemp => on_cleanup(s, e, Phase::DeleteTemp),
        Phase::DeleteTemp => on_cleanup(s, e, Phase::Restore),
        _ => on_restore(s, e),
    }
}

/// A step at the end of a turn.
#[verifier::opaque]
pub open spec fn closing_step(s: RunView, e: Event) -> Next {
    match s.phase {
        Phase::Normalize => on_normalize(s, e),
        Phase::TipAfter => on_tip_after(s, e),
        _ => on_recorded(s, e),
    }
}

/// A command had to succeed: then the run waits for `then`.
pub open spec fn on_done(s: RunView, e: Event, then: Phase) -> Next {
    match e {
        Event::Succeeded(_) => waiting(s, then),
        _ => stopped(s, refusal(e)),
    }
}

/// Something had to be set or saved: then the run waits for `then`.
pub open spec fn on_saved(s: RunView, e: Event, then: Phase) -> Next {
    match e {
        Event::Saved => waiting(s, then),
        _ => stopped(s, refusal(e)),
    }
}

/// The run starts by asking for the version.
pub open spec fn on_idle(s: RunView, e: Event) -> Next {
    match e {
        Event::Start => waiting(s, Phase::Version),
        _ => stopped(s, refusal(e)),
    }
}

/// The version must be readable and new enough.
pub open spec fn on_version(s: RunView, e: Event) -> Next {
    match e {
        Event::Succeeded(output) => match version_of(output@) {
            Err(failure) => stopped(s, failure),
            Ok(version) => if supported(version) {
                waiting(s, Phase::Clock)
            } else {
                stopped(s, Failure::TooOld)
            },
        },
        _ => stopped(s, refusal(e)),
    }
}

/// The committer date is frozen at the time of the run unless it was set
/// before.
pub open spec fn on_clock(s: RunView, e: Event) -> Next {
    match e {
        Event::Clock { preset, seconds } => if preset {
            waiting(s, Phase::Toplevel)
        } else {
            waiting(RunView { seconds, ..s }, Phase::SetDate)
        },
        _ => stopped(s, refusal(e)),
    }
}

/// The root of the worktree is the answer as text.
pub open spec fn on_toplevel(s: RunView, e: Event) -> Next {
    match e {
        Event::Succeeded(output) => match answer_of(output@) {
            Some(root) => waiting(RunView { root, ..s }, Phase::CommonDir),
            None => stopped(s, Failure::NotUtf8),
        },
        _ => stopped(s, refusal(e)),
    }
}

/// The shared metadata directory is the answer, taken from the directory in
/// which the question was asked. The integration branch is the one that was
/// asked for; where none was, the configured default is asked for.
pub open spec fn on_common_dir(s: RunView, e: Event) -> Next {
    match e {
        Event::Succeeded(output) => match answer_of(output@) {
            Some(path) => {
                let s = RunView { metadata: absolute_of(s.start_dir, path), ..s };
                match s.wanted {
                    Some(name) => waiting(RunView { onto: name, ..s }, Phase::LoadLedger),
                    None => waiting(s, Phase::DefaultBranch),
                }
            },
            None => stopped(s, Failure::NotUtf8),
        },
        _ => stopped(s, refusal(e)),
    }
}

/// The configured default branch is the integration branch.
pub open spec fn on_default_branch(s: RunView, e: Event) -> Next {
    match e {
        Event::Succeeded(output) => match answer_of(output@) {
            Some(name) => waiting(RunView { onto: name, ..s }, Phase::LoadLedger),
            None => stopped(s, Failure::NotUtf8),
        },
        _ => stopped(s, refusal(e)),
    }
}

/// The ledger is what the file holds; no file is an empty ledger.
pub open spec fn on_load_ledger(s: RunView, e: Event) -> Next {
    match e {
        Event::Entries(Some(entries)) => waiting(
            RunView { ledger: entries_map(entries@), ..s },
            Phase::ScratchProbe,
        ),
        Event::Entries(None) => waiting(RunView { ledger: Map::empty(), ..s }, Phase::ScratchProbe),
        _ => stopped(s, refusal(e)),
    }
}

/// The private worktree is made where it does not exist.
pub open spec fn on_scratch_probe(s: RunView, e: Event) -> Next {
    match e {
        Event::Flag(true) => waiting(s, Phase::Inventory),
        Event::Flag(false) => after(Note::CreatingWorktree, waiting(s, Phase::ScratchAdd)),
        _ => stopped(s, refusal(e)),
    }
}

/// The branches are those of the listing; the checked out ones are examined.
pub open spec fn on_inventory(s: RunView, e: Event) -> Next {
    match e {
        Event::Succeeded(output) => match branches_of(output@) {
            Ok(branches) => examine_from(RunView { branches, ..s }, 0),
            Err(failure) => stopped(s, failure),
        },
        _ => stopped(s, refusal(e)),
    }
}

/// A worktree that differs from the tip, or that cannot be examined, is not
/// clean.
pub open spec fn on_clean_tree(s: RunView, e: Event) -> Next {
    match e {
        Event::Succeeded(_) => waiting(s, Phase::CleanIndex),
        _ => examine_from(s, s.cursor + 1),
    }
}

/// A worktree is clean where neither it nor the staging area differs from
/// the tip.
pub open spec fn on_clean_index(s: RunView, e: Event) -> Next {
    match e {
        Event::Succeeded(_) => examine_from(marked_clean(s), s.cursor + 1),
        _ => examine_from(s, s.cursor + 1),
    }
}

/// The pull must go through; then the turns of the branches begin.
pub open spec fn on_pulled(s: RunView, e: Event) -> Next {
    match e {
        Event::Succeeded(_) => after(Note::Pulled, turn_from(s, 0)),
        _ => stopped(s, refusal(e)),
    }
}

/// The private worktree has been asked to leave the integration branch. A
/// pull that failed ends the run now; else the worktree must have left.
pub open spec fn on_pull_detach(s: RunView, e: Event) -> Next {
    match s.doomed {
        Some(failure) => stopped(RunView { doomed: None, ..s }, failure),
        None => on_pulled(s, e),
    }
}

/// A branch that the ledger records at the commit it points to is passed
/// over. Any other record of it is dropped, and the ledger saved.
pub open spec fn on_tip_before(s: RunView, e: Event) -> Next {
    match e {
        Event::Succeeded(output) => match answer_of(output@) {
            Some(tip) => if s.ledger.contains_key(current(s).branch) && s.ledger[current(
                s,
            ).branch] == tip {
                after(Note::SkippedBlocked, turn_over(s))
            } else {
                waiting(
                    RunView { ledger: s.ledger.remove(current(s).branch), ..s },
                    Phase::ClearLedger,
                )
            },
            None => stopped(s, Failure::NotUtf8),
        },
        _ => stopped(s, refusal(e)),
    }
}

/// The commits behind the merge base are asked for.
pub open spec fn on_merge_base(s: RunView, e: Event) -> Next {
    match e {
        Event::Succeeded(output) => match answer_of(output@) {
            Some(base) => waiting(RunView { base, ..s }, Phase::Targets),
            None => stopped(s, Failure::NotUtf8),
        },
        _ => stopped(s, refusal(e)),
    }
}

/// A branch that lacks nothing is done. Any other is rebased where it is
/// checked out, or in the private worktree; the metadata of that worktree is
/// looked for.
pub open spec fn on_targets(s: RunView, e: Event) -> Next {
    match e {
        Event::Succeeded(output) => match commits_of(output@) {
            Some(targets) => if targets.len() == 0 {
                after(Note::UpToDate, turn_over(s))
            } else {
                waiting(RunView { targets, ..s }, Phase::Locate)
            },
            None => stopped(s, Failure::NotUtf8),
        },
        _ => stopped(s, refusal(e)),
    }
}

/// The metadata of the main worktree is the shared directory itself; that of
/// a linked worktree is the directory of its name in it. Before anything is
/// done in the worktree it is asked whether an earlier run has left a rebase
/// in progress there.
pub open spec fn on_locate(s: RunView, e: Event) -> Next {
    match e {
        Event::Text(None) => waiting(RunView { gitdir: s.metadata, ..s }, Phase::CheckStale),
        Event::Text(Some(content)) => match link_name_of(content@) {
            Some(name) => waiting(
                RunView { gitdir: linked_of(s.metadata, name), ..s },
                Phase::CheckStale,
            ),
            None => stopped(s, Failure::BadGitDir),
        },
        _ => stopped(s, refusal(e)),
    }
}

/// The worktree is ready: the private worktree is switched to the branch,
/// and the newest commit is tried.
pub open spec fn begin_tries(s: RunView) -> Next {
    if in_own_worktree(s) {
        try_onto(s, 0)
    } else {
        waiting(s, Phase::Checkout)
    }
}

/// A rebase that an earlier run has left in progress is aborted.
pub open spec fn on_check_stale(s: RunView, e: Event) -> Next {
    match e {
        Event::Flag(true) => waiting(s, Phase::AbortStale),
        Event::Flag(false) => begin_tries(s),
        _ => stopped(s, refusal(e)),
    }
}

/// The rebase that an earlier run has left has been aborted.
pub open spec fn on_abort_stale(s: RunView, e: Event) -> Next {
    match e {
        Event::Succeeded(_) => begin_tries(s),
        _ => stopped(s, refusal(e)),
    }
}

/// The private worktree is on the branch: the newest commit is tried. Where
/// it could not be switched the turn is a failure, which ends the run once
/// the worktree has been asked to stand on no branch: it may have been on one
/// before.
pub open spec fn on_checkout(s: RunView, e: Event) -> Next {
    match e {
        Event::Succeeded(_) => try_onto(s, 0),
        _ => doomed(s, refusal(e), Phase::Normalize),
    }
}

/// A rebase that goes through ends the tries. One that the program rejects
/// has run into conflicts, and may still be in progress. One that could not
/// be run is a failure, which ends the run once the private worktree has
/// been taken off the branch.
pub open spec fn on_attempt(s: RunView, e: Event) -> Next {
    match e {
        Event::Succeeded(_) => after(Note::Success, settle(s)),
        Event::Rejected(_) => after(
            Note::Conflicts,
            waiting(RunView { blocked: true, ..s }, Phase::CheckAttempt),
        ),
        _ => doomed(s, refusal(e), Phase::Normalize),
    }
}

/// A rebase that is still in progress is aborted; so is one of which that
/// cannot be told, which is a failure.
pub open spec fn on_check_attempt(s: RunView, e: Event) -> Next {
    match e {
        Event::Flag(true) => waiting(s, Phase::AbortAttempt),
        Event::Flag(false) => after_conflict(s),
        _ => doomed(s, refusal(e), Phase::AbortAttempt),
    }
}

/// The rebase has been aborted. After a failure no more is tried: the
/// private worktree is taken off the branch.
pub open spec fn on_abort_attempt(s: RunView, e: Event) -> Next {
    match e {
        Event::Succeeded(_) => if s.doomed is Some {
            settle(s)
        } else {
            after_conflict(s)
        },
        _ => doomed(s, refusal(e), Phase::Normalize),
    }
}

/// The worktree is on the branch that the answer names; where the program
/// rejects the question it is on none, and the commit is asked for.
pub open spec fn on_current_branch(s: RunView, e: Event) -> Next {
    match e {
        Event::Succeeded(output) => match answer_of(output@) {
            Some(name) => waiting(
                RunView { saved: Some(Head::Branch(name)), ..s },
                Phase::CreateTemp,
            ),
            None => doomed(s, Failure::NotUtf8, Phase::Normalize),
        },
        Event::Rejected(_) => waiting(s, Phase::CurrentCommit),
        _ => doomed(s, refusal(e), Phase::Normalize),
    }
}

/// The worktree is at the commit that the answer names.
pub open spec fn on_current_commit(s: RunView, e: Event) -> Next {
    match e {
        Event::Succeeded(output) => match answer_of(output@) {
            Some(commit) => waiting(
                RunView { saved: Some(Head::Commit(commit)), ..s },
                Phase::CreateTemp,
            ),
            None => doomed(s, Failure::NotUtf8, Phase::Normalize),
        },
        _ => doomed(s, refusal(e), Phase::Normalize),
    }
}

/// The temporary branch has been made: the integration branch is rebased
/// onto the branch. Where it could not be made the search is a failure.
pub open spec fn on_create_temp(s: RunView, e: Event) -> Next {
    match e {
        Event::Succeeded(_) => waiting(s, Phase::Probe),
        _ => doomed(s, refusal(e), Phase::Normalize),
    }
}

/// A failure while the private worktree is on a branch, or while the
/// temporary branch is in use, does not end the run at once: the run goes on
/// to `then`, to put things back, and keeps the first such failure to end
/// with.
pub open spec fn doomed(s: RunView, failure: Failure, then: Phase) -> Next {
    waiting(
        RunView {
            doomed: match s.doomed {
                Some(first) => Some(first),
                None => Some(failure),
            },
            ..s
        },
        then,
    )
}

/// Where the integration branch goes onto the branch without conflicts,
/// nothing is learnt: no commit counts as applied, and the temporary branch
/// is left and deleted. Where the program rejects the rebase, it must be in
/// progress.
pub open spec fn on_probe(s: RunView, e: Event) -> Next {
    match e {
        Event::Succeeded(_) => waiting(RunView { applied: 0, ..s }, Phase::LeaveTemp),
        Event::Rejected(_) => waiting(s, Phase::CheckProbe),
        _ => doomed(s, refusal(e), Phase::LeaveTemp),
    }
}

/// The commits that the rebase in progress has applied are asked for. A
/// rebase that failed and is not in progress is a failure.
pub open spec fn on_check_probe(s: RunView, e: Event) -> Next {
    match e {
        Event::Flag(true) => waiting(s, Phase::Count),
        Event::Flag(false) => doomed(s, Failure::NotRebasing, Phase::LeaveTemp),
        _ => doomed(s, refusal(e), Phase::AbortProbe),
    }
}

/// As many commits applied cleanly as the listing names.
pub open spec fn on_count(s: RunView, e: Event) -> Next {
    match e {
        Event::Succeeded(output) => match commits_of(output@) {
            Some(commits) => waiting(
                RunView { applied: commits.len() as usize, ..s },
                Phase::AbortProbe,
            ),
            None => doomed(s, Failure::NotUtf8, Phase::AbortProbe),
        },
        _ => doomed(s, refusal(e), Phase::AbortProbe),
    }
}

/// A step after which things are put back: the next one follows whether or
/// not this one went through.
pub open spec fn on_cleanup(s: RunView, e: Event, then: Phase) -> Next {
    match e {
        Event::Succeeded(_) => waiting(s, then),
        _ => doomed(s, refusal(e), then),
    }
}

/// The temporary branch has been dealt with, and the search is over. After
/// a failure, on the way or now, no more is tried: the private worktree is
/// taken off the branch.
pub open spec fn on_restore(s: RunView, e: Event) -> Next {
    let searched = RunView { probed: true, ..s };
    match e {
        Event::Succeeded(_) => if s.doomed is Some {
            settle(searched)
        } else {
            after_search(s)
        },
        _ => doomed(searched, refusal(e), Phase::Normalize),
    }
}

/// The private worktree has been asked to stand, detached, at the tip of
/// the branch. A failure met in the turn ends the run now. Else the worktree
/// must stand there; a branch that conflicts stopped is then recorded at its
/// new tip, which is asked for, and any other is done.
pub open spec fn on_normalize(s: RunView, e: Event) -> Next {
    match s.doomed {
        Some(failure) => stopped(RunView { doomed: None, ..s }, failure),
        None => match e {
            Event::Succeeded(_) => if s.blocked {
                after(Note::Stunted, waiting(s, Phase::TipAfter))
            } else {
                turn_over(s)
            },
            _ => stopped(s, refusal(e)),
        },
    }
}

/// The ledger records the branch at its tip, and is saved.
pub open spec fn on_tip_after(s: RunView, e: Event) -> Next {
    match e {
        Event::Succeeded(output) => match answer_of(output@) {
            Some(tip) => waiting(
                RunView { ledger: s.ledger.insert(current(s).branch, tip), ..s },
                Phase::RecordLedger,
            ),
            None => stopped(s, Failure::NotUtf8),
        },
        _ => stopped(s, refusal(e)),
    }
}

/// The ledger has been saved: the turn of the branch is over.
pub open spec fn on_recorded(s: RunView, e: Event) -> Next {
    match e {
        Event::Saved => turn_over(s),
        _ => stopped(s, refusal(e)),
    }
}

/// What every state of a run fulfils: in the phases that speak of a branch
/// that branch exists, in those that try a commit that commit does, and
/// while the temporary branch is in use the place to go back to is known.
pub open spec fn well_formed(s: RunView) -> bool {
    fits(s, s.phase)
}

/// Whether the state has what the phase `phase` speaks of.
pub open spec fn fits(s: RunView, phase: Phase) -> bool {
    match phase {
        Phase::CleanTree | Phase::CleanIndex => s.cursor < s.branches.len() && current(
            s,
        ).worktree is Some,
        Phase::PullBound => s.target < s.branches.len() && s.branches[s.target as int].worktree is Some,
        Phase::PullSwitch | Phase::PullScratch | Phase::PullDetach => s.target < s.branches.len(),
        Phase::TipBefore
        | Phase::ClearLedger
        | Phase::MergeBase
        | Phase::Targets
        | Phase::Normalize
        | Phase::TipAfter
        | Phase::RecordLedger => s.cursor < s.branches.len(),
        Phase::Locate | Phase::CheckStale | Phase::AbortStale | Phase::Checkout => s.cursor
            < s.branches.len() && 0 < s.targets.len() <= usize::MAX,
        Phase::Attempt
        | Phase::CheckAttempt
        | Phase::AbortAttempt
        | Phase::CurrentBranch
        | Phase::CurrentCommit => s.cursor < s.branches.len() && s.attempt < s.targets.len()
            <= usize::MAX,
        Phase::CreateTemp
        | Phase::Probe
        | Phase::CheckProbe
        | Phase::Count
        | Phase::AbortProbe
        | Phase::LeaveTemp
        | Phase::DeleteTemp
        | Phase::Restore => s.cursor < s.branches.len() && s.attempt < s.targets.len()
            <= usize::MAX && s.saved is Some,
        _ => true,
    }
}

/// The phases before the branches are known.
pub open spec fn sets_up(phase: Phase) -> bool {
    phase == Phase::Idle || phase == Phase::Version || phase == Phase::Clock || phase
        == Phase::SetDate || phase == Phase::Toplevel || phase == Phase::CommonDir || phase
        == Phase::DefaultBranch || phase == Phase::LoadLedger || phase == Phase::ScratchProbe
        || phase == Phase::ScratchAdd || phase == Phase::Inventory
}

/// The phases in which the worktree of a branch is examined.
pub open spec fn examines(phase: Phase) -> bool {
    phase == Phase::CleanTree || phase == Phase::CleanIndex
}

/// The phases in which the integration branch is pulled.
pub open spec fn pulls(phase: Phase) -> bool {
    phase == Phase::PullBound || phase == Phase::PullSwitch || phase == Phase::PullScratch || phase
        == Phase::PullDetach
}

/// The phases in which a commit is being tried, the search for the first
/// conflict included.
pub open spec fn tries(phase: Phase) -> bool {
    phase == Phase::Attempt || phase == Phase::CheckAttempt || phase == Phase::AbortAttempt
        || searches(phase)
}

/// The phases of the search for the first conflict.
pub open spec fn searches(phase: Phase) -> bool {
    phase == Phase::CurrentBranch || phase == Phase::CurrentCommit || phase == Phase::CreateTemp
        || phase == Phase::Probe || phase == Phase::CheckProbe || phase == Phase::Count || phase
        == Phase::AbortProbe || phase == Phase::LeaveTemp || phase == Phase::DeleteTemp || phase
        == Phase::Restore
}

/// The phases of a turn before the first try.
pub open spec fn opens(phase: Phase) -> bool {
    phase == Phase::TipBefore || phase == Phase::ClearLedger || phase == Phase::MergeBase || phase
        == Phase::Targets || phase == Phase::Locate || phase == Phase::CheckStale || phase
        == Phase::AbortStale || phase == Phase::Checkout
}

/// The phases of a turn after the last try.
pub open spec fn closes(phase: Phase) -> bool {
    phase == Phase::Normalize || phase == Phase::TipAfter || phase == Phase::RecordLedger
}

/// The phases of the turn of a branch.
pub open spec fn in_turn(phase: Phase) -> bool {
    opens(phase) || tries(phase) || closes(phase)
}

} // verus!
