//! A run that follows a run changes nothing, as long as nothing else has
//! changed.

use vstd::prelude::*;
use crate::laws::{
    at_start, eligible, fresh, keeps_ledger, law_branches_are_settled, lemma_examine_from,
    lemma_index_of, lemma_inventory_len, lemma_next_bound, lemma_opening_sound, lemma_pull_sound,
    lemma_run_holds, lemma_run_rests, lemma_setup_sound, lemma_turn_from, lost, passed_over,
    possible, settled, sound, state_after, succeeded, tidy, world_after, Moment,
};
use crate::plan::{
    current, examine_from, examines, index_of, marked_clean, opening_step, opens, pull_step, pulls,
    sets_up, setup_step, step_of, Event, Phase, RunView,
};
use crate::rest::{may_attach, tidy_step};
use crate::world::{follows, same_but_scratch, World};

verus! {

/// What it means for a step that nothing else has changed since the run
/// that ended in the state `before`: a pull brings nothing, and the branch
/// whose turn begins is one that the run before has rebased.
pub open spec fn nothing_new(s: RunView, e: Event, w: World, w2: World, before: RunView) -> bool {
    let n = step_of(s, e).state;
    &&& s.phase == Phase::PullBound || s.phase == Phase::PullScratch ==> w2 == w
    &&& n.phase == Phase::TipBefore && !lost(n) ==> !passed_over(before, current(n).branch)
}

/// Whether the answers of `history` can be given to a run in state `s` in the
/// world `w` with nothing changed since the run that ended in the state
/// `before`.
pub open spec fn repeats(s: RunView, w: World, history: Seq<Moment>, before: RunView) -> bool
    decreases history.len(),
{
    history.len() > 0 ==> follows(w, s, history[0].event, history[0].world) && nothing_new(
        s,
        history[0].event,
        w,
        history[0].world,
        before,
    ) && repeats(
        step_of(s, history[0].event).state,
        history[0].world,
        history.drop_first(),
        before,
    )
}

/// The phases that a run goes through when every branch is settled.
pub open spec fn idles(phase: Phase) -> bool {
    sets_up(phase) || examines(phase) || pulls(phase) || phase == Phase::TipBefore || phase
        == Phase::ClearLedger || phase == Phase::MergeBase || phase == Phase::Targets || phase
        == Phase::Finished
}

/// Every branch that the run that ended in the state `before` has rebased is
/// settled in the world `w`.
pub open spec fn all_settled(before: RunView, w: World) -> bool {
    forall|j: int| #[trigger]
        eligible(before, j) ==> settled(w.ledger_file, w, before.branches[j].branch)
}

/// What holds while a run repeats a run in the world `w0`, whether it fails
/// or not: the world is as it was, but that the private worktree is on the
/// integration branch while that is pulled in it; the ledger is the ledger
/// file; and the branch at hand is settled.
pub open spec fn idle(s: RunView, w: World, w0: World) -> bool {
    &&& idles(s.phase)
    &&& same_but_scratch(w0, w)
    &&& !w0.scratch_attached
    &&& !may_attach(s.phase) ==> !w.scratch_attached
    &&& s.failure is Some ==> s.phase == Phase::Finished
    &&& s.doomed is Some ==> s.phase == Phase::PullDetach
    &&& !lost(s) ==> {
        &&& sound(s)
        &&& keeps_ledger(s.phase) || s.phase == Phase::ClearLedger ==> s.ledger == w0.ledger_file
        &&& opens(s.phase) ==> settled(w0.ledger_file, w0, current(s).branch)
        &&& opens(s.phase) && s.phase != Phase::TipBefore ==> !w0.ledger_file.contains_key(
            current(s).branch,
        )
    }
}

/// A branch that the run before has rebased is settled.
pub proof fn lemma_settled_again(before: RunView, w0: World, name: Seq<char>)
    requires
        all_settled(before, w0),
        !passed_over(before, name),
    ensures
        settled(w0.ledger_file, w0, name),
{
    let j = choose|j: int| #[trigger] eligible(before, j) && before.branches[j].branch == name;
    assert(settled(w0.ledger_file, w0, before.branches[j].branch));
}

/// Examining the checked out branches and pulling goes on idling.
proof fn lemma_examine_idles(s: RunView, w: World, w0: World, from: int)
    requires
        0 <= from,
        !lost(s),
        s.branches.len() <= usize::MAX,
        w == w0,
        !w0.scratch_attached,
        s.ledger == w0.ledger_file,
        examine_from(s, from).state.phase == Phase::TipBefore && !lost(examine_from(s, from).state)
            ==> settled(w0.ledger_file, w0, current(examine_from(s, from).state).branch),
    ensures
        idle(examine_from(s, from).state, w, w0),
{
    lemma_examine_from(s, from);
    lemma_next_bound(s, from);
    lemma_index_of(s, 0);
    let t = index_of(s.branches, s.onto, 0);
    if t < s.branches.len() {
        lemma_turn_from(RunView { target: t as usize, ..s }, 0);
    }
}

/// The steps before the branches are known go on idling.
proof fn lemma_setup_idles(s: RunView, w: World, w0: World, e: Event, w2: World, before: RunView)
    requires
        idle(s, w, w0),
        s.failure is None,
        sets_up(s.phase),
        all_settled(before, w0),
        follows(w, s, e, w2),
        nothing_new(s, e, w, w2, before),
    ensures
        idle(step_of(s, e).state, w2, w0),
{
    let n = step_of(s, e).state;
    if n.phase == Phase::TipBefore && !lost(n) {
        lemma_settled_again(before, w0, current(n).branch);
    }
    lemma_setup_sound(s, e);
    reveal(setup_step);
    if s.phase == Phase::Inventory {
        match e {
            Event::Succeeded(output) => {
                match crate::branches::branches_of(output@) {
                    Ok(branches) => {
                        lemma_inventory_len(output@);
                        assert(output.len() == output@.len());
                        lemma_examine_idles(RunView { branches, ..s }, w2, w0, 0);
                    },
                    Err(_) => {},
                }
            },
            _ => {},
        }
    }
}

/// Examining worktrees and pulling goes on idling.
proof fn lemma_pull_idles(s: RunView, w: World, w0: World, e: Event, w2: World, before: RunView)
    requires
        idle(s, w, w0),
        s.failure is None,
        examines(s.phase) || pulls(s.phase),
        all_settled(before, w0),
        follows(w, s, e, w2),
        nothing_new(s, e, w, w2, before),
        tidy_step(s, e),
    ensures
        idle(step_of(s, e).state, w2, w0),
{
    let n = step_of(s, e).state;
    if n.phase == Phase::TipBefore && !lost(n) {
        lemma_settled_again(before, w0, current(n).branch);
    }
    reveal(pull_step);
    if !lost(s) {
        lemma_pull_sound(s, e);
        match s.phase {
            Phase::CleanTree => {
                if !(e is Succeeded) {
                    lemma_examine_idles(s, w2, w0, s.cursor + 1);
                }
            },
            Phase::CleanIndex => {
                if e is Succeeded {
                    lemma_examine_idles(marked_clean(s), w2, w0, s.cursor + 1);
                } else {
                    lemma_examine_idles(s, w2, w0, s.cursor + 1);
                }
            },
            Phase::PullBound | Phase::PullDetach => {
                lemma_turn_from(s, 0);
            },
            _ => {},
        }
    }
}

/// The turn of a settled branch goes on idling.
proof fn lemma_turn_idles(s: RunView, w: World, w0: World, e: Event, w2: World, before: RunView)
    requires
        idle(s, w, w0),
        s.failure is None,
        opens(s.phase),
        all_settled(before, w0),
        follows(w, s, e, w2),
        nothing_new(s, e, w, w2, before),
    ensures
        idle(step_of(s, e).state, w2, w0),
{
    let n = step_of(s, e).state;
    if n.phase == Phase::TipBefore && !lost(n) {
        lemma_settled_again(before, w0, current(n).branch);
    }
    lemma_opening_sound(s, e);
    reveal(opening_step);
    lemma_turn_from(s, s.cursor + 1);
    let b = current(s).branch;
    if s.phase == Phase::TipBefore {
        assert(s.ledger.remove(b) =~= s.ledger || s.ledger.contains_key(b));
    }
}

/// Every step of a run that repeats a run goes on idling.
pub proof fn lemma_step_idles(
    s: RunView,
    w: World,
    w0: World,
    e: Event,
    w2: World,
    before: RunView,
)
    requires
        idle(s, w, w0),
        all_settled(before, w0),
        follows(w, s, e, w2),
        nothing_new(s, e, w, w2, before),
        tidy_step(s, e),
    ensures
        idle(step_of(s, e).state, w2, w0),
{
    if s.failure is Some {
    } else if sets_up(s.phase) {
        lemma_setup_idles(s, w, w0, e, w2, before);
    } else if examines(s.phase) || pulls(s.phase) {
        lemma_pull_idles(s, w, w0, e, w2, before);
    } else if opens(s.phase) {
        lemma_turn_idles(s, w, w0, e, w2, before);
    }
}

/// A run that repeats a run goes on idling whatever the answers.
pub proof fn lemma_history_idles(
    s: RunView,
    w: World,
    w0: World,
    history: Seq<Moment>,
    before: RunView,
)
    requires
        idle(s, w, w0),
        all_settled(before, w0),
        repeats(s, w, history, before),
        tidy(s, history),
    ensures
        idle(state_after(s, history), world_after(w, history), w0),
    decreases history.len(),
{
    if history.len() > 0 {
        let first = history[0];
        let rest = history.drop_first();
        lemma_step_idles(s, w, w0, first.event, first.world, before);
        lemma_history_idles(step_of(s, first.event).state, first.world, w0, rest, before);
        if rest.len() > 0 {
            assert(rest.last() == history.last());
        }
    }
}

/// A run that follows a run changes nothing, as long as nothing else has
/// changed. The first run is any run, in either mode, that starts with the
/// private worktree on no branch and ends without failure. The second starts as the first did, in
/// the world that the first has left; nothing else has changed: every pull
/// brings nothing, and the branches whose turns begin are among those that
/// the first run has rebased. Then the second run tries no rebase, and
/// wherever it stands the world is what the first run has left, but that the
/// private worktree is on the integration branch while that is pulled in it.
/// When the second run is over, failed or not, the world is what it was: the
/// same branches at the same commits, the same ledger file, the private
/// worktree on no branch, as far as the worktree could be taken off the
/// integration branch after a pull.
pub proof fn law_repeated_run_changes_nothing(
    s0: RunView,
    w0: World,
    first: Seq<Moment>,
    second: Seq<Moment>,
)
    requires
        fresh(s0),
        at_start(w0),
        !w0.scratch_attached,
        possible(s0, w0, first),
        succeeded(state_after(s0, first)),
        repeats(s0, world_after(w0, first), second, state_after(s0, first)),
        tidy(s0, second),
    ensures
        idles(state_after(s0, second).phase),
        same_but_scratch(
            world_after(w0, first),
            world_after(world_after(w0, first), second),
        ),
        state_after(s0, second).phase == Phase::Finished ==> world_after(
            world_after(w0, first),
            second,
        ) == world_after(w0, first),
{
    let s1 = state_after(s0, first);
    let w1 = world_after(w0, first);
    lemma_run_holds(s0, w0, first);
    lemma_run_rests(s0, w0, first);
    assert forall|j: int| #[trigger] eligible(s1, j) implies settled(
        w1.ledger_file,
        w1,
        s1.branches[j].branch,
    ) by {
        law_branches_are_settled(s0, w0, first, j);
    }
    lemma_history_idles(s0, w1, w1, second, s1);
}

} // verus!
