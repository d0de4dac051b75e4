//! What every run leaves behind, whether it fails or not: the branches of the
//! user, no temporary branch, no rebase in progress, and the private
//! worktree on no branch, as far as the commands that put things back went
//! through.

use vstd::prelude::*;
use crate::branches::temp_branch;
use crate::plan::{
    closes, closing_step, examine_from, examines, in_turn, marked_clean, opening_step, opens, pull,
    pull_step, pulls, search_step, searches, sets_up, setup_step, step_of, tries, try_step,
    turn_from, Event, Phase, RunView,
};
use crate::world::{follows, World};

verus! {

/// The phases in which the temporary branch exists.
pub open spec fn temp_in_use(phase: Phase) -> bool {
    phase == Phase::Probe || phase == Phase::CheckProbe || phase == Phase::Count || phase
        == Phase::AbortProbe || phase == Phase::LeaveTemp || phase == Phase::DeleteTemp
}

/// The phases in which a rebase of the run may be in progress.
pub open spec fn may_rebase(phase: Phase) -> bool {
    phase == Phase::CheckAttempt || phase == Phase::AbortAttempt || phase == Phase::CheckProbe
        || phase == Phase::Count || phase == Phase::AbortProbe
}

/// The phases in which the private worktree may be on a branch.
pub open spec fn may_attach(phase: Phase) -> bool {
    phase == Phase::PullScratch || phase == Phase::PullDetach || phase == Phase::Checkout
        || tries(phase) || phase == Phase::Normalize
}

/// The phases of a turn after the worktree has been found, or made, free of
/// a rebase that an earlier run has left.
pub open spec fn past_stale(phase: Phase) -> bool {
    phase == Phase::Checkout || tries(phase) || closes(phase)
}

/// The phases before the first turn.
pub open spec fn before_turns(phase: Phase) -> bool {
    sets_up(phase) || examines(phase) || pulls(phase)
}

/// The phases in which the run waits for a command that puts things back:
/// that aborts a rebase, deletes the temporary branch, or takes the private
/// worktree off a branch.
pub open spec fn puts_back(phase: Phase) -> bool {
    phase == Phase::AbortAttempt || phase == Phase::AbortProbe || phase == Phase::DeleteTemp
        || phase == Phase::Normalize || phase == Phase::PullDetach
}

/// Whether the answer is one after which things are as the run takes them to
/// be: a command that puts things back has gone through.
pub open spec fn tidy_step(s: RunView, e: Event) -> bool {
    puts_back(s.phase) ==> e is Succeeded
}

/// What holds of the world in every state of a run, failed or not, as long
/// as the commands that put things back have gone through; `w0` is the world
/// in which the run started, which may hold a temporary branch and a rebase
/// in progress that an earlier run has left.
///
/// The branches are those of the start, but for the temporary branch. That
/// one exists while the search uses it, is gone once a search is over, and is
/// else there only if it was left there before. A rebase is in progress only
/// between a rebase that failed and its being aborted, or where one was left
/// before and the worktree has not been looked at yet. The private worktree
/// is on a branch only while the integration branch is pulled in it and from
/// the switch to the branch at hand until it is put at the tip of that
/// branch, or where it was left on one before and has not been used yet.
pub open spec fn rests(s: RunView, w: World, w0: World) -> bool {
    &&& w.branches.remove(temp_branch()) == w0.branches.remove(temp_branch())
    &&& temp_in_use(s.phase) ==> w.branches.contains(temp_branch())
    &&& !temp_in_use(s.phase) && w.branches.contains(temp_branch()) ==> w0.branches.contains(
        temp_branch(),
    )
    &&& s.phase == Phase::Restore ==> !w.branches.contains(temp_branch())
    &&& s.probed && (in_turn(s.phase) || s.phase == Phase::Finished) ==> !w.branches.contains(
        temp_branch(),
    )
    &&& before_turns(s.phase) || searches(s.phase) ==> !s.probed
    &&& !may_rebase(s.phase) && w.rebasing ==> w0.rebasing && !past_stale(s.phase)
    &&& !may_attach(s.phase) && w.scratch_attached ==> w0.scratch_attached && !closes(s.phase)
}

/// The turn that begins has seen no search; where none begins the run is
/// over and the state is otherwise what it was.
pub proof fn lemma_turn_from_probed(s: RunView, from: int)
    ensures
        ({
            let n = turn_from(s, from).state;
            &&& n.phase == Phase::TipBefore || n.phase == Phase::Finished
            &&& n.phase == Phase::TipBefore ==> !n.probed
            &&& n.phase == Phase::Finished ==> n.probed == s.probed
        }),
{
}

/// Looking up and pulling the integration branch leads to a pull, to the
/// first turn, or to the end of the run; no search has been seen.
pub proof fn lemma_pull_probed(s: RunView)
    requires
        !s.probed,
    ensures
        ({
            let n = pull(s).state;
            &&& n.phase == Phase::PullSwitch || n.phase == Phase::PullBound || n.phase
                == Phase::TipBefore || n.phase == Phase::Finished
            &&& !n.probed
        }),
{
    let t = crate::plan::index_of(s.branches, s.onto, 0);
    lemma_turn_from_probed(RunView { target: t as usize, ..s }, 0);
}

/// Examining the checked out branches leads to the next of them, or on to
/// the pull; no search has been seen.
pub proof fn lemma_examine_probed(s: RunView, from: int)
    requires
        !s.probed,
    ensures
        ({
            let n = examine_from(s, from).state;
            &&& n.phase == Phase::CleanTree || n.phase == Phase::PullSwitch || n.phase
                == Phase::PullBound || n.phase == Phase::TipBefore || n.phase == Phase::Finished
            &&& !n.probed
        }),
{
    lemma_pull_probed(s);
}

/// The steps before the branches are known change none of it.
pub proof fn lemma_setup_rests(s: RunView, w: World, w0: World, e: Event, w2: World)
    requires
        rests(s, w, w0),
        sets_up(s.phase),
        follows(w, s, e, w2),
    ensures
        rests(setup_step(s, e).state, w2, w0),
{
    reveal(setup_step);
    if s.phase == Phase::Inventory {
        match e {
            Event::Succeeded(output) => {
                match crate::branches::branches_of(output@) {
                    Ok(branches) => {
                        lemma_examine_probed(RunView { branches, ..s }, 0);
                    },
                    Err(_) => {},
                }
            },
            _ => {},
        }
    }
}

/// Examining worktrees and pulling keeps it: the private worktree is taken
/// off the integration branch whether or not the pull went through.
pub proof fn lemma_pull_rests(s: RunView, w: World, w0: World, e: Event, w2: World)
    requires
        rests(s, w, w0),
        examines(s.phase) || pulls(s.phase),
        follows(w, s, e, w2),
        tidy_step(s, e),
    ensures
        rests(pull_step(s, e).state, w2, w0),
{
    reveal(pull_step);
    match s.phase {
        Phase::CleanTree => {
            lemma_examine_probed(s, s.cursor + 1);
        },
        Phase::CleanIndex => {
            lemma_examine_probed(s, s.cursor + 1);
            lemma_examine_probed(marked_clean(s), s.cursor + 1);
        },
        Phase::PullBound | Phase::PullDetach => {
            lemma_turn_from_probed(s, 0);
        },
        _ => {},
    }
}

/// The steps of a turn before the first try keep it: a rebase that an
/// earlier run has left is found and aborted before anything is tried.
pub proof fn lemma_opening_rests(s: RunView, w: World, w0: World, e: Event, w2: World)
    requires
        rests(s, w, w0),
        opens(s.phase),
        follows(w, s, e, w2),
    ensures
        rests(opening_step(s, e).state, w2, w0),
{
    reveal(opening_step);
    lemma_turn_from_probed(s, s.cursor + 1);
}

/// The tries keep it: a rebase that failed is aborted, and after a failure
/// the private worktree is taken off the branch.
pub proof fn lemma_try_rests(s: RunView, w: World, w0: World, e: Event, w2: World)
    requires
        rests(s, w, w0),
        tries(s.phase),
        !searches(s.phase),
        follows(w, s, e, w2),
        tidy_step(s, e),
    ensures
        rests(try_step(s, e).state, w2, w0),
{
    reveal(try_step);
}

/// The search keeps it: the temporary branch is deleted and the rebase of it
/// aborted whether or not the search went through.
pub proof fn lemma_search_rests(s: RunView, w: World, w0: World, e: Event, w2: World)
    requires
        rests(s, w, w0),
        searches(s.phase),
        follows(w, s, e, w2),
        tidy_step(s, e),
    ensures
        rests(search_step(s, e).state, w2, w0),
{
    reveal(search_step);
    let t = temp_branch();
    match s.phase {
        Phase::CreateTemp => {
            assert(w.branches.insert(t).remove(t) =~= w.branches.remove(t));
        },
        Phase::DeleteTemp => {
            assert(w.branches.remove(t).remove(t) =~= w.branches.remove(t));
        },
        _ => {},
    }
}

/// The end of a turn keeps it: the private worktree is taken off the branch
/// before the run goes on or ends.
pub proof fn lemma_closing_rests(s: RunView, w: World, w0: World, e: Event, w2: World)
    requires
        rests(s, w, w0),
        closes(s.phase),
        follows(w, s, e, w2),
        tidy_step(s, e),
    ensures
        rests(closing_step(s, e).state, w2, w0),
{
    reveal(closing_step);
    lemma_turn_from_probed(s, s.cursor + 1);
}

/// Every step keeps it.
pub proof fn lemma_step_rests(s: RunView, w: World, w0: World, e: Event, w2: World)
    requires
        rests(s, w, w0),
        follows(w, s, e, w2),
        tidy_step(s, e),
    ensures
        rests(step_of(s, e).state, w2, w0),
{
    if sets_up(s.phase) {
        lemma_setup_rests(s, w, w0, e, w2);
    } else if examines(s.phase) || pulls(s.phase) {
        lemma_pull_rests(s, w, w0, e, w2);
    } else if opens(s.phase) {
        lemma_opening_rests(s, w, w0, e, w2);
    } else if searches(s.phase) {
        lemma_search_rests(s, w, w0, e, w2);
    } else if tries(s.phase) {
        lemma_try_rests(s, w, w0, e, w2);
    } else if closes(s.phase) {
        lemma_closing_rests(s, w, w0, e, w2);
    }
}

/// A failure is kept only while things are put back: the run ends with it
/// as soon as the private worktree has been asked to leave its branch.
pub open spec fn doom_pending(s: RunView) -> bool {
    s.doomed is Some ==> may_attach(s.phase) && s.phase != Phase::PullScratch && s.phase
        != Phase::Checkout
}

/// Every step keeps failures kept only while things are put back.
pub proof fn lemma_step_doom(s: RunView, e: Event)
    requires
        doom_pending(s),
    ensures
        doom_pending(step_of(s, e).state),
{
    if sets_up(s.phase) {
        reveal(setup_step);
        if s.phase == Phase::Inventory {
            match e {
                Event::Succeeded(output) => {
                    match crate::branches::branches_of(output@) {
                        Ok(branches) => {
                            lemma_examine_doom(RunView { branches, ..s }, 0);
                        },
                        Err(_) => {},
                    }
                },
                _ => {},
            }
        }
    } else if examines(s.phase) || pulls(s.phase) {
        reveal(pull_step);
        if s.doomed is None {
            lemma_examine_doom(s, s.cursor + 1);
            lemma_examine_doom(marked_clean(s), s.cursor + 1);
        }
    } else if opens(s.phase) {
        reveal(opening_step);
    } else if searches(s.phase) {
        reveal(search_step);
    } else if tries(s.phase) {
        reveal(try_step);
    } else if closes(s.phase) {
        reveal(closing_step);
    }
}

/// Examining and pulling keeps no failure where none was kept.
pub proof fn lemma_examine_doom(s: RunView, from: int)
    requires
        s.doomed is None,
    ensures
        examine_from(s, from).state.doomed is None,
{
}

/// No command makes or deletes a branch of the user's, whatever its answer.
pub proof fn lemma_branches_kept(w: World, s: RunView, e: Event, w2: World)
    requires
        follows(w, s, e, w2),
    ensures
        w2.branches.remove(temp_branch()) == w.branches.remove(temp_branch()),
{
    let t = temp_branch();
    assert(w.branches.insert(t).remove(t) =~= w.branches.remove(t));
    assert(w.branches.remove(t).remove(t) =~= w.branches.remove(t));
}

} // verus!
