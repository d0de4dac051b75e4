//! A run: the state that the caller holds and feeds with events.

use vstd::prelude::*;
use crate::branches::{branch_views, classify, parse_branches, BranchInfo, Disposition, WorktreeInfo};
use crate::conflicts::Conflicts;
use crate::failure::Failure;
use crate::plan;
use crate::plan::{Event, Head, Note, Phase, RunView};
use crate::text::{decode_answer, optional_view, parse_commits, texts};

verus! {

/// Where a worktree stands: on a branch, or at a commit.
#[derive(Debug)]
pub enum BranchOrCommit {
    /// On the branch of this name.
    Branch(String),
    /// At the commit of this hash, detached.
    Commit(String),
}

impl View for BranchOrCommit {
    type V = Head;

    open spec fn view(&self) -> Head {
        match self {
            BranchOrCommit::Branch(name) => Head::Branch(name@),
            BranchOrCommit::Commit(hash) => Head::Commit(hash@),
        }
    }
}

/// What an optional place holds.
pub open spec fn optional_head(saved: Option<BranchOrCommit>) -> Option<Head> {
    match saved {
        Some(head) => Some(head@),
        None => None,
    }
}

/// A run of the tool over one repository.
pub struct Run {
    phase: Phase,
    slow: bool,
    include_non_local: bool,
    filter: Option<String>,
    wanted: Option<String>,
    start_dir: String,
    root: String,
    metadata: String,
    onto: String,
    seconds: u64,
    ledger: Conflicts,
    branches: Vec<BranchInfo>,
    target: usize,
    cursor: usize,
    base: String,
    targets: Vec<String>,
    attempt: usize,
    blocked: bool,
    probed: bool,
    applied: usize,
    saved: Option<BranchOrCommit>,
    gitdir: String,
    doomed: Option<Failure>,
    failure: Option<Failure>,
}

impl View for Run {
    type V = RunView;

    closed spec fn view(&self) -> RunView {
        RunView {
            phase: self.phase,
            slow: self.slow,
            include_non_local: self.include_non_local,
            filter: optional_view(self.filter),
            wanted: optional_view(self.wanted),
            start_dir: self.start_dir@,
            root: self.root@,
            metadata: self.metadata@,
            onto: self.onto@,
            seconds: self.seconds,
            ledger: self.ledger@,
            branches: branch_views(self.branches@),
            target: self.target,
            cursor: self.cursor,
            base: self.base@,
            targets: texts(self.targets@),
            attempt: self.attempt,
            blocked: self.blocked,
            probed: self.probed,
            applied: self.applied,
            saved: optional_head(self.saved),
            gitdir: self.gitdir@,
            doomed: self.doomed,
            failure: self.failure,
        }
    }
}

/// Whether a state with its lines to report is what `next` says.
pub open spec fn agrees(r: (Run, Vec<Note>), next: plan::Next) -> bool {
    r.0@ == next.state && r.1@ == next.notes
}

/// The failure that an event other than the awaited one stands for.
fn refusal_of(e: Event) -> (r: Failure)
    ensures
        r == plan::refusal(e),
{
    match e {
        Event::Rejected(report) => Failure::Rejected(report),
        Event::Broken(report) => Failure::Broken(report),
        _ => Failure::Unexpected,
    }
}

impl Run {
    #[verifier::type_invariant]
    spec fn valid(self) -> bool {
        plan::well_formed(self@)
    }

    /// A run that has not started. It is to run in `start_dir`, an absolute
    /// path, onto the branch `onto` or, where that is `None`, onto the
    /// configured default branch.
    pub fn new(
        start_dir: &str,
        onto: Option<&str>,
        slow_conflict_detection: bool,
        include_non_local: bool,
        match_branches: Option<&str>,
    ) -> (r: Run)
        ensures
            r@ == plan::initial(
                start_dir@,
                match onto {
                    Some(name) => Some(name@),
                    None => None,
                },
                slow_conflict_detection,
                include_non_local,
                match match_branches {
                    Some(pattern) => Some(pattern@),
                    None => None,
                },
            ),
    {
        let r = Run {
            phase: Phase::Idle,
            slow: slow_conflict_detection,
            include_non_local,
            filter: match match_branches {
                Some(pattern) => Some(pattern.to_owned()),
                None => None,
            },
            wanted: match onto {
                Some(name) => Some(name.to_owned()),
                None => None,
            },
            start_dir: start_dir.to_owned(),
            root: String::new(),
            metadata: String::new(),
            onto: String::new(),
            seconds: 0,
            ledger: Conflicts::new(),
            branches: Vec::new(),
            target: 0,
            cursor: 0,
            base: String::new(),
            targets: Vec::new(),
            attempt: 0,
            blocked: false,
            probed: false,
            applied: 0,
            saved: None,
            gitdir: String::new(),
            doomed: None,
            failure: None,
        };
        assert(r@.branches =~= Seq::empty());
        assert(r@.targets =~= Seq::empty());
        r
    }

    /// What the run waits for. The state of a run is always well formed.
    pub fn phase(&self) -> (r: Phase)
        ensures
            r == self@.phase,
            plan::well_formed(self@),
    {
        proof {
            use_type_invariant(self);
        }
        self.phase
    }

    /// Whether the run is over.
    pub fn is_finished(&self) -> (r: bool)
        ensures
            r == (self@.phase == Phase::Finished),
    {
        matches!(self.phase, Phase::Finished)
    }

    /// Why the run failed; `None` while it has not.
    pub fn failure(&self) -> (r: &Option<Failure>)
        ensures
            *r == self@.failure,
    {
        &self.failure
    }

    /// Whether every commit is tried in turn when a rebase conflicts.
    pub fn slow(&self) -> (r: bool)
        ensures
            r == self@.slow,
    {
        self.slow
    }

    /// Whether branches with an upstream are rebased too.
    pub fn include_non_local(&self) -> (r: bool)
        ensures
            r == self@.include_non_local,
    {
        self.include_non_local
    }

    /// The pattern that the names of rebased branches match.
    pub fn filter(&self) -> (r: &Option<String>)
        ensures
            optional_view(*r) == self@.filter,
    {
        &self.filter
    }

    /// The directory that the run started in.
    pub fn start_dir(&self) -> (r: &String)
        ensures
            r@ == self@.start_dir,
    {
        &self.start_dir
    }

    /// The root of the worktree that the run started in.
    pub fn root(&self) -> (r: &String)
        ensures
            r@ == self@.root,
    {
        &self.root
    }

    /// The shared metadata directory.
    pub fn metadata(&self) -> (r: &String)
        ensures
            r@ == self@.metadata,
    {
        &self.metadata
    }

    /// The integration branch.
    pub fn onto(&self) -> (r: &String)
        ensures
            r@ == self@.onto,
    {
        &self.onto
    }

    /// The time to freeze the committer date at, in seconds since the epoch.
    pub fn seconds(&self) -> (r: u64)
        ensures
            r == self@.seconds,
    {
        self.seconds
    }

    /// The conflict ledger.
    pub fn ledger(&self) -> (r: &Conflicts)
        ensures
            r@ == self@.ledger,
    {
        &self.ledger
    }

    /// The local branches.
    pub fn branches(&self) -> (r: &Vec<BranchInfo>)
        ensures
            branch_views(r@) == self@.branches,
    {
        &self.branches
    }

    /// Where the integration branch stands among the branches.
    pub fn target(&self) -> (r: usize)
        ensures
            r == self@.target,
    {
        self.target
    }

    /// Where the branch at hand stands among the branches.
    pub fn cursor(&self) -> (r: usize)
        ensures
            r == self@.cursor,
    {
        self.cursor
    }

    /// The merge base of the branch at hand and the integration branch.
    pub fn base(&self) -> (r: &String)
        ensures
            r@ == self@.base,
    {
        &self.base
    }

    /// The commits that the branch at hand lacks, newest first.
    pub fn targets(&self) -> (r: &Vec<String>)
        ensures
            texts(r@) == self@.targets,
    {
        &self.targets
    }

    /// Which of the commits is tried.
    pub fn attempt(&self) -> (r: usize)
        ensures
            r == self@.attempt,
    {
        self.attempt
    }

    /// Whether a rebase of the branch at hand has run into conflicts.
    pub fn blocked(&self) -> (r: bool)
        ensures
            r == self@.blocked,
    {
        self.blocked
    }

    /// Where the worktree stood before the search for the first conflict.
    pub fn saved(&self) -> (r: &Option<BranchOrCommit>)
        ensures
            optional_head(*r) == self@.saved,
    {
        &self.saved
    }

    /// The metadata directory of the worktree in which the branch at hand
    /// is rebased.
    pub fn gitdir(&self) -> (r: &String)
        ensures
            r@ == self@.gitdir,
    {
        &self.gitdir
    }

    /// Stops the run.
    fn stop(self, failure: Failure) -> (r: (Run, Vec<Note>))
        ensures
            agrees(r, plan::stopped(self@, failure)),
    {
        (Run { phase: Phase::Finished, failure: Some(failure), ..self }, Vec::new())
    }

    /// Makes the run wait for something else.
    fn wait(self, phase: Phase) -> (r: (Run, Vec<Note>))
        requires
            plan::fits(self@, phase),
        ensures
            agrees(r, plan::waiting(self@, phase)),
    {
        (Run { phase, ..self }, Vec::new())
    }

    /// Goes on to deal with the temporary branch after a failure.
    fn doom(self, failure: Failure, then: Phase) -> (r: (Run, Vec<Note>))
        requires
            plan::fits(self@, then),
        ensures
            agrees(r, plan::doomed(self@, failure, then)),
    {
        if self.doomed.is_some() {
            self.wait(then)
        } else {
            (Run { doomed: Some(failure), phase: then, ..self }, Vec::new())
        }
    }

    fn on_cleanup(self, e: Event, then: Phase) -> (r: (Run, Vec<Note>))
        requires
            plan::fits(self@, then),
        ensures
            agrees(r, plan::on_cleanup(self@, e, then)),
    {
        match e {
            Event::Succeeded(_) => self.wait(then),
            _ => {
                let failure = refusal_of(e);
                self.doom(failure, then)
            },
        }
    }

    /// Stops the run for an event that was not awaited.
    fn refuse(self, e: Event) -> (r: (Run, Vec<Note>))
        ensures
            agrees(r, plan::stopped(self@, plan::refusal(e))),
    {
        let failure = refusal_of(e);
        self.stop(failure)
    }

    /// Puts a line before those of a step.
    fn noted(note: Note, next: (Run, Vec<Note>)) -> (r: (Run, Vec<Note>))
        ensures
            agrees(r, plan::after(note, plan::Next { state: next.0@, notes: next.1@ })),
    {
        let (run, mut notes) = next;
        notes.insert(0, note);
        assert(notes@ =~= seq![note] + next.1@);
        (run, notes)
    }

    fn on_done(self, e: Event, then: Phase) -> (r: (Run, Vec<Note>))
        requires
            plan::fits(self@, then),
        ensures
            agrees(r, plan::on_done(self@, e, then)),
    {
        match e {
            Event::Succeeded(_) => self.wait(then),
            _ => self.refuse(e),
        }
    }

    fn on_saved(self, e: Event, then: Phase) -> (r: (Run, Vec<Note>))
        requires
            plan::fits(self@, then),
        ensures
            agrees(r, plan::on_saved(self@, e, then)),
    {
        match e {
            Event::Saved => self.wait(then),
            _ => self.refuse(e),
        }
    }

    /// Begins the turn of the first branch from `from` on that is rebased.
    fn turn_from(self, from: usize) -> (r: (Run, Vec<Note>))
        ensures
            agrees(r, plan::turn_from(self@, from as int)),
    {
        let n = self.branches.len();
        let mut i: usize = from;
        while i < n
            invariant
                from <= i,
                n == self@.branches.len(),
                plan::next_eligible(self@, from as int) == plan::next_eligible(self@, i as int),
            decreases n - i,
        {
            let what = classify(&self.branches[i], &self.onto, self.include_non_local, &self.filter);
            assert(what == plan::disposition_at(self@, i as int));
            if what == Disposition::Eligible {
                let next = Run {
                    phase: Phase::TipBefore,
                    cursor: i,
                    base: String::new(),
                    targets: Vec::new(),
                    attempt: 0,
                    blocked: false,
                    probed: false,
                    applied: 0,
                    saved: None,
                    gitdir: String::new(),
                    ..self
                };
                assert(next@.targets =~= Seq::empty());
                let mut notes: Vec<Note> = Vec::new();
                notes.push(Note::Rebasing(i));
                assert(notes@ =~= seq![Note::Rebasing(i)] + Seq::empty());
                return (next, notes);
            }
            i += 1;
        }
        self.wait(Phase::Finished)
    }

    /// Ends the turn of the branch at hand.
    fn turn_over(self) -> (r: (Run, Vec<Note>))
        requires
            self@.cursor < self@.branches.len(),
        ensures
            agrees(r, plan::turn_over(self@)),
    {
        proof {
            assert(self.branches.len() == self.branches@.len());
        }
        let from = self.cursor + 1;
        self.turn_from(from)
    }

    /// Pulls the integration branch where that is possible.
    fn pull(self) -> (r: (Run, Vec<Note>))
        requires
            !plan::pulls(self@.phase),
        ensures
            agrees(r, plan::pull(self@)),
    {
        proof {
            use_type_invariant(&self);
        }
        let n = self.branches.len();
        let mut t: usize = 0;
        while t < n && self.branches[t].branch != self.onto
            invariant
                t <= n,
                n == self@.branches.len(),
                plan::index_of(self@.branches, self@.onto, 0) == plan::index_of(
                    self@.branches,
                    self@.onto,
                    t as int,
                ),
            decreases n - t,
        {
            t += 1;
        }
        if t >= n {
            return self.stop(Failure::TargetNotFound);
        }
        let has_upstream = self.branches[t].upstream.is_some();
        let bound = self.branches[t].worktree.is_some();
        let clean = match &self.branches[t].worktree {
            Some(tree) => tree.clean,
            None => false,
        };
        let next = Run { target: t, ..self };
        let step = if !has_upstream {
            Run::noted(Note::NotPullingNoUpstream, next.turn_from(0))
        } else if !bound {
            Run::noted(Note::Pulling, next.wait(Phase::PullSwitch))
        } else if clean {
            Run::noted(Note::Pulling, next.wait(Phase::PullBound))
        } else {
            Run::noted(Note::NotPullingDirty, next.turn_from(0))
        };
        Run::noted(Note::Listed, step)
    }

    /// Examines the first branch from `from` on that is checked out.
    fn examine_from(self, from: usize) -> (r: (Run, Vec<Note>))
        requires
            !plan::pulls(self@.phase),
        ensures
            agrees(r, plan::examine_from(self@, from as int)),
    {
        let n = self.branches.len();
        let mut i: usize = from;
        while i < n && self.branches[i].worktree.is_none()
            invariant
                from <= i,
                n == self@.branches.len(),
                plan::next_bound(self@.branches, from as int) == plan::next_bound(
                    self@.branches,
                    i as int,
                ),
            decreases n - i,
        {
            i += 1;
        }
        if i >= n {
            self.pull()
        } else {
            (Run { cursor: i, phase: Phase::CleanTree, ..self }, Vec::new())
        }
    }

    /// Tries a rebase onto the commit at `i`.
    fn try_onto(self, i: usize) -> (r: (Run, Vec<Note>))
        requires
            i < self@.targets.len(),
            self@.cursor < self@.branches.len(),
        ensures
            agrees(r, plan::try_onto(self@, i)),
    {
        proof {
            assert(self.targets.len() == self.targets@.len());
        }
        Run::noted(Note::Onto(i), (Run { attempt: i, phase: Phase::Attempt, ..self }, Vec::new()))
    }

    /// Goes on after a rebase that conflicted.
    fn after_conflict(self) -> (r: (Run, Vec<Note>))
        requires
            self@.attempt < self@.targets.len(),
            self@.cursor < self@.branches.len(),
        ensures
            agrees(r, plan::after_conflict(self@)),
    {
        let n = self.targets.len();
        if self.slow {
            if self.attempt + 1 < n {
                let i = self.attempt + 1;
                self.try_onto(i)
            } else {
                self.wait(Phase::Normalize)
            }
        } else if !self.probed {
            Run::noted(Note::FindingFirstConflict, self.wait(Phase::CurrentBranch))
        } else {
            self.wait(Phase::Normalize)
        }
    }

    /// Goes on after the search for the first conflict.
    fn after_search(self) -> (r: (Run, Vec<Note>))
        requires
            self@.phase == Phase::Restore,
        ensures
            agrees(r, plan::after_search(self@)),
    {
        proof {
            use_type_invariant(&self);
        }
        let next = Run { probed: true, ..self };
        if 0 < next.applied && next.applied < next.targets.len() {
            let i = next.targets.len() - next.applied;
            next.try_onto(i)
        } else {
            next.wait(Phase::Normalize)
        }
    }

    fn on_idle(self, e: Event) -> (r: (Run, Vec<Note>))
        requires
            self@.phase == Phase::Idle,
        ensures
            agrees(r, plan::on_idle(self@, e)),
    {
        proof {
            use_type_invariant(&self);
        }
        match e {
            Event::Start => self.wait(Phase::Version),
            _ => self.refuse(e),
        }
    }

    fn on_version(self, e: Event) -> (r: (Run, Vec<Note>))
        requires
            self@.phase == Phase::Version,
        ensures
            agrees(r, plan::on_version(self@, e)),
    {
        proof {
            use_type_invariant(&self);
        }
        match e {
            Event::Succeeded(output) => match crate::version::git_version(output.as_slice()) {
                Err(failure) => self.stop(failure),
                Ok(version) => if crate::version::version_supported(version.as_slice()) {
                    self.wait(Phase::Clock)
                } else {
                    self.stop(Failure::TooOld)
                },
            },
            _ => self.refuse(e),
        }
    }

    fn on_clock(self, e: Event) -> (r: (Run, Vec<Note>))
        requires
            self@.phase == Phase::Clock,
        ensures
            agrees(r, plan::on_clock(self@, e)),
    {
        proof {
            use_type_invariant(&self);
        }
        match e {
            Event::Clock { preset, seconds } => if preset {
                self.wait(Phase::Toplevel)
            } else {
                let next = Run { seconds, ..self };
                next.wait(Phase::SetDate)
            },
            _ => self.refuse(e),
        }
    }

    fn on_toplevel(self, e: Event) -> (r: (Run, Vec<Note>))
        requires
            self@.phase == Phase::Toplevel,
        ensures
            agrees(r, plan::on_toplevel(self@, e)),
    {
        proof {
            use_type_invariant(&self);
        }
        match e {
            Event::Succeeded(output) => match decode_answer(output.as_slice()) {
                Some(root) => {
                    let next = Run { root, ..self };
                    next.wait(Phase::CommonDir)
                },
                None => self.stop(Failure::NotUtf8),
            },
            _ => self.refuse(e),
        }
    }

    fn on_common_dir(self, e: Event) -> (r: (Run, Vec<Note>))
        requires
            self@.phase == Phase::CommonDir,
        ensures
            agrees(r, plan::on_common_dir(self@, e)),
    {
        proof {
            use_type_invariant(&self);
        }
        match e {
            Event::Succeeded(output) => match decode_answer(output.as_slice()) {
                Some(path) => {
                    let metadata = crate::layout::absolute_path(&self.start_dir, path);
                    let wanted = match &self.wanted {
                        Some(name) => Some(name.clone()),
                        None => None,
                    };
                    let next = Run { metadata, ..self };
                    match wanted {
                        Some(name) => {
                            let next = Run { onto: name, ..next };
                            next.wait(Phase::LoadLedger)
                        },
                        None => next.wait(Phase::DefaultBranch),
                    }
                },
                None => self.stop(Failure::NotUtf8),
            },
            _ => self.refuse(e),
        }
    }

    fn on_default_branch(self, e: Event) -> (r: (Run, Vec<Note>))
        requires
            self@.phase == Phase::DefaultBranch,
        ensures
            agrees(r, plan::on_default_branch(self@, e)),
    {
        proof {
            use_type_invariant(&self);
        }
        match e {
            Event::Succeeded(output) => match crate::config::default_branch_name(
                output.as_slice(),
            ) {
                Ok(name) => {
                    let next = Run { onto: name, ..self };
                    next.wait(Phase::LoadLedger)
                },
                Err(failure) => self.stop(failure),
            },
            _ => self.refuse(e),
        }
    }

    fn on_load_ledger(self, e: Event) -> (r: (Run, Vec<Note>))
        requires
            self@.phase == Phase::LoadLedger,
        ensures
            agrees(r, plan::on_load_ledger(self@, e)),
    {
        proof {
            use_type_invariant(&self);
        }
        match e {
            Event::Entries(Some(entries)) => {
                let next = Run { ledger: Conflicts::from_entries(entries), ..self };
                next.wait(Phase::ScratchProbe)
            },
            Event::Entries(None) => {
                let next = Run { ledger: Conflicts::new(), ..self };
                next.wait(Phase::ScratchProbe)
            },
            _ => self.refuse(e),
        }
    }

    fn on_scratch_probe(self, e: Event) -> (r: (Run, Vec<Note>))
        requires
            self@.phase == Phase::ScratchProbe,
        ensures
            agrees(r, plan::on_scratch_probe(self@, e)),
    {
        proof {
            use_type_invariant(&self);
        }
        match e {
            Event::Flag(true) => self.wait(Phase::Inventory),
            Event::Flag(false) => Run::noted(Note::CreatingWorktree, self.wait(Phase::ScratchAdd)),
            _ => self.refuse(e),
        }
    }

    fn on_inventory(self, e: Event) -> (r: (Run, Vec<Note>))
        requires
            self@.phase == Phase::Inventory,
        ensures
            agrees(r, plan::on_inventory(self@, e)),
    {
        proof {
            use_type_invariant(&self);
        }
        match e {
            Event::Succeeded(output) => match parse_branches(output.as_slice()) {
                Ok(branches) => {
                    let next = Run { branches, ..self };
                    next.examine_from(0)
                },
                Err(failure) => self.stop(failure),
            },
            _ => self.refuse(e),
        }
    }

    fn on_clean_tree(self, e: Event) -> (r: (Run, Vec<Note>))
        requires
            self@.phase == Phase::CleanTree,
        ensures
            agrees(r, plan::on_clean_tree(self@, e)),
    {
        proof {
            use_type_invariant(&self);
        }
        match e {
            Event::Succeeded(_) => self.wait(Phase::CleanIndex),
            _ => {
                proof {
                    assert(self.branches.len() == self.branches@.len());
                }
                let from = self.cursor + 1;
                self.examine_from(from)
            },
        }
    }

    fn on_clean_index(self, e: Event) -> (r: (Run, Vec<Note>))
        requires
            self@.phase == Phase::CleanIndex,
        ensures
            agrees(r, plan::on_clean_index(self@, e)),
    {
        proof {
            use_type_invariant(&self);
        }
        proof {
            assert(self.branches.len() == self.branches@.len());
        }
        let from = self.cursor + 1;
        match e {
            Event::Succeeded(_) => {
                let i = self.cursor;
                let old = &self.branches[i];
                let path = match &old.worktree {
                    Some(tree) => tree.path.clone(),
                    None => String::new(),
                };
                let marked = BranchInfo {
                    branch: old.branch.clone(),
                    upstream: match &old.upstream {
                        Some(name) => Some(name.clone()),
                        None => None,
                    },
                    worktree: Some(WorktreeInfo { path, clean: true }),
                };
                let ghost before = self@;
                let mut branches = self.branches;
                branches.set(i, marked);
                assert(branch_views(branches@) =~= plan::marked_clean(before).branches);
                let next = Run { branches, ..self };
                next.examine_from(from)
            },
            _ => self.examine_from(from),
        }
    }

    fn on_pulled(self, e: Event) -> (r: (Run, Vec<Note>))
        ensures
            agrees(r, plan::on_pulled(self@, e)),
    {
        match e {
            Event::Succeeded(_) => Run::noted(Note::Pulled, self.turn_from(0)),
            _ => self.refuse(e),
        }
    }

    fn on_tip_before(self, e: Event) -> (r: (Run, Vec<Note>))
        requires
            self@.phase == Phase::TipBefore,
        ensures
            agrees(r, plan::on_tip_before(self@, e)),
    {
        proof {
            use_type_invariant(&self);
        }
        match e {
            Event::Succeeded(output) => match decode_answer(output.as_slice()) {
                Some(tip) => {
                    let name = self.branches[self.cursor].branch.clone();
                    if self.ledger.blocks(name.as_str(), tip.as_str()) {
                        Run::noted(Note::SkippedBlocked, self.turn_over())
                    } else {
                        let mut ledger = self.ledger;
                        ledger.remove(name.as_str());
                        let next = Run { ledger, ..self };
                        next.wait(Phase::ClearLedger)
                    }
                },
                None => self.stop(Failure::NotUtf8),
            },
            _ => self.refuse(e),
        }
    }

    fn on_merge_base(self, e: Event) -> (r: (Run, Vec<Note>))
        requires
            self@.phase == Phase::MergeBase,
        ensures
            agrees(r, plan::on_merge_base(self@, e)),
    {
        proof {
            use_type_invariant(&self);
        }
        match e {
            Event::Succeeded(output) => match decode_answer(output.as_slice()) {
                Some(base) => {
                    let next = Run { base, ..self };
                    next.wait(Phase::Targets)
                },
                None => self.stop(Failure::NotUtf8),
            },
            _ => self.refuse(e),
        }
    }

    fn on_targets(self, e: Event) -> (r: (Run, Vec<Note>))
        requires
            self@.phase == Phase::Targets,
        ensures
            agrees(r, plan::on_targets(self@, e)),
    {
        proof {
            use_type_invariant(&self);
        }
        match e {
            Event::Succeeded(output) => match parse_commits(output.as_slice()) {
                Some(targets) => {
                    if targets.len() == 0 {
                        Run::noted(Note::UpToDate, self.turn_over())
                    } else {
                        let next = Run { targets, ..self };
                        next.wait(Phase::Locate)
                    }
                },
                None => self.stop(Failure::NotUtf8),
            },
            _ => self.refuse(e),
        }
    }

    fn on_locate(self, e: Event) -> (r: (Run, Vec<Note>))
        requires
            self@.phase == Phase::Locate,
        ensures
            agrees(r, plan::on_locate(self@, e)),
    {
        proof {
            use_type_invariant(&self);
        }
        match e {
            Event::Text(None) => {
                let gitdir = self.metadata.clone();
                let next = Run { gitdir, ..self };
                next.wait(Phase::CheckStale)
            },
            Event::Text(Some(content)) => match crate::layout::link_name(content.as_slice()) {
                Some(name) => {
                    let gitdir = crate::layout::linked_gitdir(&self.metadata, &name);
                    let next = Run { gitdir, ..self };
                    next.wait(Phase::CheckStale)
                },
                None => self.stop(Failure::BadGitDir),
            },
            _ => self.refuse(e),
        }
    }

    /// Begins the tries once the worktree is ready.
    fn begin_tries(self) -> (r: (Run, Vec<Note>))
        requires
            self@.phase == Phase::CheckStale || self@.phase == Phase::AbortStale,
        ensures
            agrees(r, plan::begin_tries(self@)),
    {
        proof {
            use_type_invariant(&self);
        }
        if self.branches[self.cursor].worktree.is_some() {
            self.try_onto(0)
        } else {
            self.wait(Phase::Checkout)
        }
    }

    fn on_check_stale(self, e: Event) -> (r: (Run, Vec<Note>))
        requires
            self@.phase == Phase::CheckStale,
        ensures
            agrees(r, plan::on_check_stale(self@, e)),
    {
        proof {
            use_type_invariant(&self);
        }
        match e {
            Event::Flag(true) => self.wait(Phase::AbortStale),
            Event::Flag(false) => self.begin_tries(),
            _ => self.refuse(e),
        }
    }

    fn on_abort_stale(self, e: Event) -> (r: (Run, Vec<Note>))
        requires
            self@.phase == Phase::AbortStale,
        ensures
            agrees(r, plan::on_abort_stale(self@, e)),
    {
        match e {
            Event::Succeeded(_) => self.begin_tries(),
            _ => self.refuse(e),
        }
    }

    fn on_checkout(self, e: Event) -> (r: (Run, Vec<Note>))
        requires
            self@.phase == Phase::Checkout,
        ensures
            agrees(r, plan::on_checkout(self@, e)),
    {
        proof {
            use_type_invariant(&self);
        }
        match e {
            Event::Succeeded(_) => self.try_onto(0),
            _ => {
                let failure = refusal_of(e);
                self.doom(failure, Phase::Normalize)
            },
        }
    }

    fn on_attempt(self, e: Event) -> (r: (Run, Vec<Note>))
        requires
            self@.phase == Phase::Attempt,
        ensures
            agrees(r, plan::on_attempt(self@, e)),
    {
        proof {
            use_type_invariant(&self);
        }
        match e {
            Event::Succeeded(_) => Run::noted(Note::Success, self.wait(Phase::Normalize)),
            Event::Rejected(_) => {
                let next = Run { blocked: true, ..self };
                Run::noted(Note::Conflicts, next.wait(Phase::CheckAttempt))
            },
            _ => {
                let failure = refusal_of(e);
                self.doom(failure, Phase::Normalize)
            },
        }
    }

    fn on_check_attempt(self, e: Event) -> (r: (Run, Vec<Note>))
        requires
            self@.phase == Phase::CheckAttempt,
        ensures
            agrees(r, plan::on_check_attempt(self@, e)),
    {
        proof {
            use_type_invariant(&self);
        }
        match e {
            Event::Flag(true) => self.wait(Phase::AbortAttempt),
            Event::Flag(false) => self.after_conflict(),
            _ => {
                let failure = refusal_of(e);
                self.doom(failure, Phase::AbortAttempt)
            },
        }
    }

    fn on_abort_attempt(self, e: Event) -> (r: (Run, Vec<Note>))
        requires
            self@.phase == Phase::AbortAttempt,
        ensures
            agrees(r, plan::on_abort_attempt(self@, e)),
    {
        proof {
            use_type_invariant(&self);
        }
        match e {
            Event::Succeeded(_) => if self.doomed.is_some() {
                self.wait(Phase::Normalize)
            } else {
                self.after_conflict()
            },
            _ => {
                let failure = refusal_of(e);
                self.doom(failure, Phase::Normalize)
            },
        }
    }

    fn on_current_branch(self, e: Event) -> (r: (Run, Vec<Note>))
        requires
            self@.phase == Phase::CurrentBranch,
        ensures
            agrees(r, plan::on_current_branch(self@, e)),
    {
        proof {
            use_type_invariant(&self);
        }
        match e {
            Event::Succeeded(output) => match decode_answer(output.as_slice()) {
                Some(name) => {
                    let next = Run { saved: Some(BranchOrCommit::Branch(name)), ..self };
                    next.wait(Phase::CreateTemp)
                },
                None => self.doom(Failure::NotUtf8, Phase::Normalize),
            },
            Event::Rejected(_) => self.wait(Phase::CurrentCommit),
            _ => {
                let failure = refusal_of(e);
                self.doom(failure, Phase::Normalize)
            },
        }
    }

    fn on_current_commit(self, e: Event) -> (r: (Run, Vec<Note>))
        requires
            self@.phase == Phase::CurrentCommit,
        ensures
            agrees(r, plan::on_current_commit(self@, e)),
    {
        proof {
            use_type_invariant(&self);
        }
        match e {
            Event::Succeeded(output) => match decode_answer(output.as_slice()) {
                Some(commit) => {
                    let next = Run { saved: Some(BranchOrCommit::Commit(commit)), ..self };
                    next.wait(Phase::CreateTemp)
                },
                None => self.doom(Failure::NotUtf8, Phase::Normalize),
            },
            _ => {
                let failure = refusal_of(e);
                self.doom(failure, Phase::Normalize)
            },
        }
    }

    fn on_create_temp(self, e: Event) -> (r: (Run, Vec<Note>))
        requires
            self@.phase == Phase::CreateTemp,
        ensures
            agrees(r, plan::on_create_temp(self@, e)),
    {
        proof {
            use_type_invariant(&self);
        }
        match e {
            Event::Succeeded(_) => self.wait(Phase::Probe),
            _ => {
                let failure = refusal_of(e);
                self.doom(failure, Phase::Normalize)
            },
        }
    }

    fn on_probe(self, e: Event) -> (r: (Run, Vec<Note>))
        requires
            self@.phase == Phase::Probe,
        ensures
            agrees(r, plan::on_probe(self@, e)),
    {
        proof {
            use_type_invariant(&self);
        }
        match e {
            Event::Succeeded(_) => {
                let next = Run { applied: 0, ..self };
                next.wait(Phase::LeaveTemp)
            },
            Event::Rejected(_) => self.wait(Phase::CheckProbe),
            _ => {
                let failure = refusal_of(e);
                self.doom(failure, Phase::LeaveTemp)
            },
        }
    }

    fn on_check_probe(self, e: Event) -> (r: (Run, Vec<Note>))
        requires
            self@.phase == Phase::CheckProbe,
        ensures
            agrees(r, plan::on_check_probe(self@, e)),
    {
        proof {
            use_type_invariant(&self);
        }
        match e {
            Event::Flag(true) => self.wait(Phase::Count),
            Event::Flag(false) => self.doom(Failure::NotRebasing, Phase::LeaveTemp),
            _ => {
                let failure = refusal_of(e);
                self.doom(failure, Phase::AbortProbe)
            },
        }
    }

    fn on_count(self, e: Event) -> (r: (Run, Vec<Note>))
        requires
            self@.phase == Phase::Count,
        ensures
            agrees(r, plan::on_count(self@, e)),
    {
        proof {
            use_type_invariant(&self);
        }
        match e {
            Event::Succeeded(output) => match parse_commits(output.as_slice()) {
                Some(commits) => {
                    let next = Run { applied: commits.len(), ..self };
                    next.wait(Phase::AbortProbe)
                },
                None => self.doom(Failure::NotUtf8, Phase::AbortProbe),
            },
            _ => {
                let failure = refusal_of(e);
                self.doom(failure, Phase::AbortProbe)
            },
        }
    }

    fn on_restore(self, e: Event) -> (r: (Run, Vec<Note>))
        requires
            self@.phase == Phase::Restore,
        ensures
            agrees(r, plan::on_restore(self@, e)),
    {
        proof {
            use_type_invariant(&self);
        }
        let doomed = self.doomed.is_some();
        match e {
            Event::Succeeded(_) => if doomed {
                let next = Run { probed: true, ..self };
                next.wait(Phase::Normalize)
            } else {
                self.after_search()
            },
            _ => {
                let failure = refusal_of(e);
                let next = Run { probed: true, ..self };
                next.doom(failure, Phase::Normalize)
            },
        }
    }

    fn on_normalize(self, e: Event) -> (r: (Run, Vec<Note>))
        requires
            self@.phase == Phase::Normalize,
        ensures
            agrees(r, plan::on_normalize(self@, e)),
    {
        proof {
            use_type_invariant(&self);
        }
        if self.doomed.is_some() {
            return self.end_doomed();
        }
        match e {
            Event::Succeeded(_) => if self.blocked {
                Run::noted(Note::Stunted, self.wait(Phase::TipAfter))
            } else {
                self.turn_over()
            },
            _ => self.refuse(e),
        }
    }

    /// Ends the run with the failure that has been kept.
    fn end_doomed(self) -> (r: (Run, Vec<Note>))
        requires
            self@.doomed is Some,
        ensures
            agrees(r, plan::stopped(RunView { doomed: None, ..self@ }, self@.doomed->0)),
    {
        let failure = self.doomed;
        (Run { phase: Phase::Finished, failure, doomed: None, ..self }, Vec::new())
    }

    fn on_pull_detach(self, e: Event) -> (r: (Run, Vec<Note>))
        requires
            self@.phase == Phase::PullDetach,
        ensures
            agrees(r, plan::on_pull_detach(self@, e)),
    {
        if self.doomed.is_some() {
            self.end_doomed()
        } else {
            self.on_pulled(e)
        }
    }

    fn on_tip_after(self, e: Event) -> (r: (Run, Vec<Note>))
        requires
            self@.phase == Phase::TipAfter,
        ensures
            agrees(r, plan::on_tip_after(self@, e)),
    {
        proof {
            use_type_invariant(&self);
        }
        match e {
            Event::Succeeded(output) => match decode_answer(output.as_slice()) {
                Some(tip) => {
                    let name = self.branches[self.cursor].branch.clone();
                    let mut ledger = self.ledger;
                    ledger.insert(name, tip);
                    let next = Run { ledger, ..self };
                    next.wait(Phase::RecordLedger)
                },
                None => self.stop(Failure::NotUtf8),
            },
            _ => self.refuse(e),
        }
    }

    fn on_recorded(self, e: Event) -> (r: (Run, Vec<Note>))
        requires
            self@.phase == Phase::RecordLedger,
        ensures
            agrees(r, plan::on_recorded(self@, e)),
    {
        proof {
            use_type_invariant(&self);
        }
        match e {
            Event::Saved => self.turn_over(),
            _ => self.refuse(e),
        }
    }

    /// A step before the branches are known.
    fn step_setup(self, event: Event) -> (r: (Run, Vec<Note>))
        requires
            plan::sets_up(self@.phase),
        ensures
            agrees(r, plan::setup_step(self@, event)),
    {
        reveal(plan::setup_step);
        match self.phase {
            Phase::Idle => self.on_idle(event),
            Phase::Version => self.on_version(event),
            Phase::Clock => self.on_clock(event),
            Phase::SetDate => self.on_saved(event, Phase::Toplevel),
            Phase::Toplevel => self.on_toplevel(event),
            Phase::CommonDir => self.on_common_dir(event),
            Phase::DefaultBranch => self.on_default_branch(event),
            Phase::LoadLedger => self.on_load_ledger(event),
            Phase::ScratchProbe => self.on_scratch_probe(event),
            Phase::ScratchAdd => self.on_done(event, Phase::Inventory),
            _ => self.on_inventory(event),
        }
    }

    /// A step while worktrees are examined and the integration branch is
    /// pulled.
    fn step_pull(self, event: Event) -> (r: (Run, Vec<Note>))
        requires
            plan::examines(self@.phase) || plan::pulls(self@.phase),
        ensures
            agrees(r, plan::pull_step(self@, event)),
    {
        reveal(plan::pull_step);
        proof {
            use_type_invariant(&self);
        }
        match self.phase {
            Phase::CleanTree => self.on_clean_tree(event),
            Phase::CleanIndex => self.on_clean_index(event),
            Phase::PullSwitch => self.on_done(event, Phase::PullScratch),
            Phase::PullScratch => self.on_cleanup(event, Phase::PullDetach),
            Phase::PullDetach => self.on_pull_detach(event),
            _ => self.on_pulled(event),
        }
    }

    /// A step of a turn before the first try.
    fn step_opening(self, event: Event) -> (r: (Run, Vec<Note>))
        requires
            plan::opens(self@.phase),
        ensures
            agrees(r, plan::opening_step(self@, event)),
    {
        reveal(plan::opening_step);
        proof {
            use_type_invariant(&self);
        }
        match self.phase {
            Phase::TipBefore => self.on_tip_before(event),
            Phase::ClearLedger => self.on_saved(event, Phase::MergeBase),
            Phase::MergeBase => self.on_merge_base(event),
            Phase::Targets => self.on_targets(event),
            Phase::Locate => self.on_locate(event),
            Phase::CheckStale => self.on_check_stale(event),
            Phase::AbortStale => self.on_abort_stale(event),
            _ => self.on_checkout(event),
        }
    }

    /// A step of a try, outside the search for the first conflict.
    fn step_try(self, event: Event) -> (r: (Run, Vec<Note>))
        requires
            plan::tries(self@.phase),
            !plan::searches(self@.phase),
        ensures
            agrees(r, plan::try_step(self@, event)),
    {
        reveal(plan::try_step);
        match self.phase {
            Phase::Attempt => self.on_attempt(event),
            Phase::CheckAttempt => self.on_check_attempt(event),
            _ => self.on_abort_attempt(event),
        }
    }

    /// A step of the search for the first conflict.
    fn step_search(self, event: Event) -> (r: (Run, Vec<Note>))
        requires
            plan::searches(self@.phase),
        ensures
            agrees(r, plan::search_step(self@, event)),
    {
        reveal(plan::search_step);
        proof {
            use_type_invariant(&self);
        }
        match self.phase {
            Phase::CurrentBranch => self.on_current_branch(event),
            Phase::CurrentCommit => self.on_current_commit(event),
            Phase::CreateTemp => self.on_create_temp(event),
            Phase::Probe => self.on_probe(event),
            Phase::CheckProbe => self.on_check_probe(event),
            Phase::Count => self.on_count(event),
            Phase::AbortProbe => self.on_cleanup(event, Phase::LeaveTemp),
            Phase::LeaveTemp => self.on_cleanup(event, Phase::DeleteTemp),
            Phase::DeleteTemp => self.on_cleanup(event, Phase::Restore),
            _ => self.on_restore(event),
        }
    }

    /// A step at the end of a turn.
    fn step_closing(self, event: Event) -> (r: (Run, Vec<Note>))
        requires
            plan::closes(self@.phase),
        ensures
            agrees(r, plan::closing_step(self@, event)),
    {
        reveal(plan::closing_step);
        match self.phase {
            Phase::Normalize => self.on_normalize(event),
            Phase::TipAfter => self.on_tip_after(event),
            _ => self.on_recorded(event),
        }
    }

    /// Takes the answer to what the run waits for, and gives the run in its
    /// next state with the lines to report.
    pub fn step(self, event: Event) -> (r: (Run, Vec<Note>))
        ensures
            r.0@ == plan::step_of(self@, event).state,
            r.1@ == plan::step_of(self@, event).notes,
    {
        let phase = self.phase;
        if is_setup(phase) {
            self.step_setup(event)
        } else if is_pull(phase) {
            self.step_pull(event)
        } else if is_opening(phase) {
            self.step_opening(event)
        } else if is_search(phase) {
            self.step_search(event)
        } else if is_try(phase) {
            self.step_try(event)
        } else if is_closing(phase) {
            self.step_closing(event)
        } else {
            (self, Vec::new())
        }
    }
}

/// Whether the phase is one of a turn before the first try.
fn is_opening(phase: Phase) -> (r: bool)
    ensures
        r == plan::opens(phase),
{
    matches!(
        phase,
        Phase::TipBefore | Phase::ClearLedger | Phase::MergeBase | Phase::Targets | Phase::Locate
            | Phase::CheckStale | Phase::AbortStale | Phase::Checkout
    )
}

/// Whether the phase is one of a try, outside the search.
fn is_try(phase: Phase) -> (r: bool)
    ensures
        r == (plan::tries(phase) && !plan::searches(phase)),
{
    matches!(phase, Phase::Attempt | Phase::CheckAttempt | Phase::AbortAttempt)
}

/// Whether the phase is one of the end of a turn.
fn is_closing(phase: Phase) -> (r: bool)
    ensures
        r == plan::closes(phase),
{
    matches!(phase, Phase::Normalize | Phase::TipAfter | Phase::RecordLedger)
}

/// Whether the branches are not yet known in the phase.
fn is_setup(phase: Phase) -> (r: bool)
    ensures
        r == plan::sets_up(phase),
{
    matches!(
        phase,
        Phase::Idle | Phase::Version | Phase::Clock | Phase::SetDate | Phase::Toplevel
            | Phase::CommonDir | Phase::DefaultBranch | Phase::LoadLedger | Phase::ScratchProbe
            | Phase::ScratchAdd | Phase::Inventory
    )
}

/// Whether worktrees are examined or the integration branch is pulled in the
/// phase.
fn is_pull(phase: Phase) -> (r: bool)
    ensures
        r == (plan::examines(phase) || plan::pulls(phase)),
{
    matches!(
        phase,
        Phase::CleanTree | Phase::CleanIndex | Phase::PullBound | Phase::PullSwitch
            | Phase::PullScratch | Phase::PullDetach
    )
}

/// Whether the phase belongs to the search for the first conflict.
fn is_search(phase: Phase) -> (r: bool)
    ensures
        r == plan::searches(phase),
{
    matches!(
        phase,
        Phase::CurrentBranch | Phase::CurrentCommit | Phase::CreateTemp | Phase::Probe
            | Phase::CheckProbe | Phase::Count | Phase::AbortProbe | Phase::LeaveTemp
            | Phase::DeleteTemp | Phase::Restore
    )
}

} // verus!
