//! A model of the repository: what the commands that a run asks for do to
//! it, as far as the laws of a run speak of it.

use vstd::prelude::*;
use crate::branches::temp_branch;
use crate::conflicts::entries_map;
use crate::plan::{
    closes, current, examines, opens, pulls, searches, sets_up, tries, Event, Phase, RunView,
};
use crate::text::{answer_of, commits_of};

verus! {

/// What the laws know of a repository.
pub struct World {
    /// The names of the local branches.
    pub branches: Set<Seq<char>>,
    /// The commit that each branch points at.
    pub tips: Map<Seq<char>, Seq<char>>,
    /// The commits of the integration branch that each branch lacks, newest
    /// first.
    pub lacking: Map<Seq<char>, Seq<Seq<char>>>,
    /// The commits of the integration branch.
    pub integration: Set<Seq<char>>,
    /// The commit that the commits of each branch stand on.
    pub stands_on: Map<Seq<char>, Seq<char>>,
    /// The branches that a command of the run has moved.
    pub moved: Set<Seq<char>>,
    /// Whether the private worktree is on a branch.
    pub scratch_attached: bool,
    /// Whether a rebase is in progress in the worktree in which the branch at
    /// hand is rebased.
    pub rebasing: bool,
    /// What the ledger file holds.
    pub ledger_file: Map<Seq<char>, Seq<char>>,
}

/// The ledger file is read as it is; no file stands for no entry.
pub open spec fn reads_ledger(w: World, e: Event) -> bool {
    match e {
        Event::Entries(Some(entries)) => entries_map(entries@) == w.ledger_file,
        Event::Entries(None) => w.ledger_file == Map::<Seq<char>, Seq<char>>::empty(),
        _ => true,
    }
}

/// The tip of the branch at hand is answered as it is.
pub open spec fn reads_tip(w: World, s: RunView, e: Event) -> bool {
    match e {
        Event::Succeeded(output) => answer_of(output@) == Some(w.tips[current(s).branch]),
        _ => true,
    }
}

/// A question with two answers is answered by whether a rebase is in
/// progress.
pub open spec fn reads_rebasing(w: World, e: Event) -> bool {
    match e {
        Event::Flag(flag) => flag == w.rebasing,
        _ => true,
    }
}

/// Saving writes the ledger of the run to the file; a failure writes
/// nothing.
pub open spec fn saves_ledger(w: World, s: RunView, e: Event, w2: World) -> bool {
    match e {
        Event::Saved => w2 == (World { ledger_file: s.ledger, ..w }),
        _ => w2 == w,
    }
}

/// A command that succeeds puts the private worktree on a branch, or takes
/// it off; one that fails changes nothing.
pub open spec fn moves_scratch(w: World, e: Event, w2: World, attached: bool) -> bool {
    match e {
        Event::Succeeded(_) => w2 == (World { scratch_attached: attached, ..w }),
        _ => w2 == w,
    }
}

/// The two worlds differ at most in where the private worktree stands.
pub open spec fn same_but_scratch(w: World, w2: World) -> bool {
    w2 == (World { scratch_attached: w2.scratch_attached, ..w })
}

/// What the world can be after the answer `e` in a phase before the
/// branches are known: making the private worktree makes it detached, and
/// nothing else changes anything.
pub open spec fn setup_follows(w: World, s: RunView, e: Event, w2: World) -> bool {
    match s.phase {
        Phase::LoadLedger => w2 == w && reads_ledger(w, e),
        Phase::ScratchAdd => moves_scratch(w, e, w2, false),
        _ => w2 == w,
    }
}

/// What the world can be after the answer `e` while worktrees are examined
/// and the integration branch is pulled. A pull may move the integration
/// branch, and with it change its commits, what the branches lack and what
/// they stand on; it moves no other branch. A pull that brings nothing moves
/// none.
pub open spec fn pull_follows(w: World, s: RunView, e: Event, w2: World) -> bool {
    match s.phase {
        Phase::PullBound | Phase::PullScratch => match e {
            Event::Succeeded(_) => w2 == (World {
                tips: w.tips.insert(s.onto, w2.tips[s.onto]),
                lacking: w2.lacking,
                integration: w2.integration,
                stands_on: w2.stands_on,
                moved: if w2.tips[s.onto] == w.tips[s.onto] {
                    w.moved
                } else {
                    w.moved.insert(s.onto)
                },
                ..w
            }),
            _ => w2 == w,
        },
        Phase::PullSwitch => moves_scratch(w, e, w2, true),
        Phase::PullDetach => moves_scratch(w, e, w2, false),
        _ => w2 == w,
    }
}

/// What the world can be after the answer `e` in a phase of a turn before the
/// first try. Aborting a rebase that an earlier run has left ends it, and may
/// put the private worktree back on the branch that was being rebased.
pub open spec fn opening_follows(w: World, s: RunView, e: Event, w2: World) -> bool {
    match s.phase {
        Phase::TipBefore => w2 == w && reads_tip(w, s, e),
        Phase::ClearLedger => saves_ledger(w, s, e, w2),
        Phase::Targets => w2 == w && match e {
            Event::Succeeded(output) => commits_of(output@) == Some(w.lacking[current(s).branch])
                && lacks_integration(w, current(s).branch),
            _ => true,
        },
        Phase::CheckStale => w2 == w && reads_rebasing(w, e),
        Phase::AbortStale => match e {
            Event::Succeeded(_) => same_but_scratch(World { rebasing: false, ..w }, w2),
            _ => w2 == w,
        },
        Phase::Checkout => moves_scratch(w, e, w2, true),
        _ => w2 == w,
    }
}

/// What a branch lacks are commits of the integration branch.
pub open spec fn lacks_integration(w: World, name: Seq<char>) -> bool {
    forall|i: int| 0 <= i < w.lacking[name].len() ==> w.integration.contains(#[trigger] w.lacking[name][i])
}

/// What the world can be after the answer `e` to a try. A rebase that goes
/// through moves the branch at hand, which then stands on the commit that it
/// was rebased onto and lacks the commits that are newer than that one, and
/// moves no other branch. A rebase that fails moves nothing, and may stay in
/// progress. Aborting ends it.
pub open spec fn try_follows(w: World, s: RunView, e: Event, w2: World) -> bool {
    let b = current(s).branch;
    match s.phase {
        Phase::Attempt => match e {
            Event::Succeeded(_) => same_but_scratch(
                World {
                    tips: w.tips.insert(b, w2.tips[b]),
                    lacking: w.lacking.insert(b, s.targets.take(s.attempt as int)),
                    stands_on: w.stands_on.insert(b, s.targets[s.attempt as int]),
                    moved: w.moved.insert(b),
                    ..w
                },
                w2,
            ),
            Event::Rejected(_) => same_but_scratch(World { rebasing: w2.rebasing, ..w }, w2),
            _ => w2 == w,
        },
        Phase::CheckAttempt => w2 == w && reads_rebasing(w, e),
        _ => match e {
            Event::Succeeded(_) => same_but_scratch(World { rebasing: false, ..w }, w2),
            _ => w2 == w,
        },
    }
}

/// The world `w2` is `w` but for where the private worktree stands and where
/// the temporary branch points.
pub open spec fn same_but_temp(w: World, w2: World) -> bool {
    w2 == (World {
        scratch_attached: w2.scratch_attached,
        tips: w.tips.insert(temp_branch(), w2.tips[temp_branch()]),
        ..w
    })
}

/// What the world can be after the answer `e` in the search for the first
/// conflict. The temporary branch is made and deleted; the rebase of it
/// moves it and no other branch, and may stay in progress until it is
/// aborted; the private worktree may be moved.
pub open spec fn search_follows(w: World, s: RunView, e: Event, w2: World) -> bool {
    match s.phase {
        Phase::CreateTemp => match e {
            Event::Succeeded(_) => same_but_temp(
                World { branches: w.branches.insert(temp_branch()), ..w },
                w2,
            ),
            _ => w2 == w,
        },
        Phase::Probe => match e {
            Event::Succeeded(_) => same_but_temp(w, w2),
            Event::Rejected(_) => same_but_temp(World { rebasing: w2.rebasing, ..w }, w2),
            _ => w2 == w,
        },
        Phase::CheckProbe => w2 == w && reads_rebasing(w, e),
        Phase::AbortProbe => match e {
            Event::Succeeded(_) => same_but_temp(World { rebasing: false, ..w }, w2),
            _ => w2 == w,
        },
        Phase::DeleteTemp => match e {
            Event::Succeeded(_) => same_but_temp(
                World { branches: w.branches.remove(temp_branch()), ..w },
                w2,
            ),
            _ => w2 == w,
        },
        Phase::LeaveTemp | Phase::Restore => match e {
            Event::Succeeded(_) => same_but_scratch(w, w2),
            _ => w2 == w,
        },
        _ => w2 == w,
    }
}

/// What the world can be after the answer `e` at the end of a turn.
pub open spec fn closing_follows(w: World, s: RunView, e: Event, w2: World) -> bool {
    match s.phase {
        Phase::Normalize => moves_scratch(w, e, w2, false),
        Phase::TipAfter => w2 == w && reads_tip(w, s, e),
        _ => saves_ledger(w, s, e, w2),
    }
}

/// What the world can be after the request of the state `s` has been
/// answered with `e` in the world `w`.
pub open spec fn follows(w: World, s: RunView, e: Event, w2: World) -> bool {
    if sets_up(s.phase) {
        setup_follows(w, s, e, w2)
    } else if examines(s.phase) || pulls(s.phase) {
        pull_follows(w, s, e, w2)
    } else if opens(s.phase) {
        opening_follows(w, s, e, w2)
    } else if searches(s.phase) {
        search_follows(w, s, e, w2)
    } else if tries(s.phase) {
        try_follows(w, s, e, w2)
    } else if closes(s.phase) {
        closing_follows(w, s, e, w2)
    } else {
        w2 == w
    }
}

} // verus!
