//! What holds of every run: laws of the plan, proved over a model of what the
//! commands do to a repository.

use vstd::prelude::*;
use crate::branches::{temp_branch, Disposition};
use crate::rest::{
    lemma_branches_kept, lemma_closing_rests, lemma_opening_rests, lemma_pull_rests,
    doom_pending, lemma_search_rests, lemma_setup_rests, lemma_step_doom, lemma_step_rests,
    lemma_try_rests, may_attach,
    may_rebase, past_stale, rests, temp_in_use, tidy_step,
};
use crate::world::{follows, World};
use crate::plan::{
    closes, closing_step, current, disposition_at, examine_from, examines, in_turn, index_of,
    marked_clean, next_bound, next_eligible, opening_step, opens, pull, pull_step, pulls,
    search_step, searches, sets_up, setup_step, step_of, tries, try_step, turn_from, turn_over,
    well_formed, Event, Phase, RunView,
};

verus! {

/// Whether the branch at `j` is one that the run rebases.
pub open spec fn eligible(s: RunView, j: int) -> bool {
    0 <= j < s.branches.len() && disposition_at(s, j) == Disposition::Eligible
}

/// Two states that agree on what decides which branches are rebased.
pub open spec fn same_inventory(a: RunView, b: RunView) -> bool {
    &&& a.branches == b.branches
    &&& a.onto == b.onto
    &&& a.include_non_local == b.include_non_local
    &&& a.filter == b.filter
}

/// The search for the next branch to rebase finds the first one from `from`
/// on, if there is one.
pub proof fn lemma_next_eligible(s: RunView, from: int)
    requires
        0 <= from,
    ensures
        from <= next_eligible(s, from) || next_eligible(s, from) == s.branches.len(),
        next_eligible(s, from) <= s.branches.len(),
        next_eligible(s, from) < s.branches.len() ==> eligible(s, next_eligible(s, from)),
        forall|j: int| from <= j < next_eligible(s, from) ==> !eligible(s, j),
    decreases s.branches.len() - from,
{
    if from < s.branches.len() && disposition_at(s, from) != Disposition::Eligible {
        lemma_next_eligible(s, from + 1);
    }
}

/// The search for the next checked out branch finds the first one from
/// `from` on, if there is one.
pub proof fn lemma_next_bound(s: RunView, from: int)
    requires
        0 <= from,
    ensures
        next_bound(s.branches, from) <= s.branches.len(),
        next_bound(s.branches, from) < s.branches.len() ==> from <= next_bound(s.branches, from)
            && s.branches[next_bound(s.branches, from)].worktree is Some,
    decreases s.branches.len() - from,
{
    if from < s.branches.len() && s.branches[from].worktree is None {
        lemma_next_bound(s, from + 1);
    }
}

/// The search for a branch by name finds the first one of that name, if
/// there is one.
pub proof fn lemma_index_of(s: RunView, from: int)
    requires
        0 <= from,
    ensures
        index_of(s.branches, s.onto, from) <= s.branches.len(),
        index_of(s.branches, s.onto, from) < s.branches.len() ==> from <= index_of(
            s.branches,
            s.onto,
            from,
        ) && s.branches[index_of(s.branches, s.onto, from)].branch == s.onto,
    decreases s.branches.len() - from,
{
    if from < s.branches.len() && s.branches[from].branch != s.onto {
        lemma_index_of(s, from + 1);
    }
}

/// The turn that begins is that of the first branch from `from` on that is
/// rebased: the run then waits for its tip with nothing known of it. Where
/// there is none the run is over. Nothing else of the state changes.
pub proof fn lemma_turn_from(s: RunView, from: int)
    requires
        0 <= from,
        s.branches.len() <= usize::MAX,
    ensures
        ({
            let n = turn_from(s, from).state;
            &&& same_inventory(n, s)
            &&& n.ledger == s.ledger
            &&& n.failure == s.failure
            &&& n.metadata == s.metadata
            &&& n.target == s.target
            &&& n.phase == Phase::Finished || n.phase == Phase::TipBefore
            &&& n.phase == Phase::Finished ==> n == (RunView { phase: Phase::Finished, ..s })
                && forall|j: int| from <= j ==> !eligible(s, j)
            &&& n.phase == Phase::TipBefore ==> from <= n.cursor < s.branches.len() && eligible(
                s,
                n.cursor as int,
            ) && !n.blocked && !n.probed && forall|j: int| from <= j < n.cursor ==> !eligible(s, j)
            &&& well_formed(n)
        }),
{
    lemma_next_eligible(s, from);
}

/// Whether a state is well formed and has no more branches than can be
/// counted.
pub open spec fn sound(s: RunView) -> bool {
    well_formed(s) && s.branches.len() <= usize::MAX
}

/// A listing names no more branches than it has bytes.
pub proof fn lemma_inventory_len(output: Seq<u8>)
    ensures
        crate::branches::branches_of(output) is Ok ==> crate::branches::branches_of(
            output,
        )->Ok_0.len() <= output.len(),
{
    lemma_filled_fields(output, 0x0a);
    lemma_inventory_filled(crate::text::split_on(output, 0x0a));
}

/// How many of the fields are not empty.
pub open spec fn filled(fields: Seq<Seq<u8>>) -> nat
    decreases fields.len(),
{
    if fields.len() == 0 {
        0
    } else {
        filled(fields.drop_last()) + if fields.last().len() > 0 {
            1nat
        } else {
            0nat
        }
    }
}

/// The fields of a byte string that are not empty are no more than its
/// bytes.
pub proof fn lemma_filled_fields(s: Seq<u8>, sep: u8)
    ensures
        filled(crate::text::split_on(s, sep)) <= s.len(),
        crate::text::split_on(s, sep).len() >= 1,
    decreases s.len(),
{
    crate::text::lemma_split_on_len(s, sep);
    if s.len() == 0 {
        let one = crate::text::split_on(s, sep);
        assert(filled(one.drop_last()) == 0);
    } else {
        let t = s.drop_last();
        lemma_filled_fields(t, sep);
        crate::text::lemma_split_on_len(t, sep);
        let before = crate::text::split_on(t, sep);
        let now = crate::text::split_on(s, sep);
        if s.last() == sep {
            assert(now.drop_last() =~= before);
        } else {
            assert(now.drop_last() =~= before.drop_last());
        }
    }
}

/// A listing names no more branches than it has lines that are not empty.
pub proof fn lemma_inventory_filled(lines: Seq<Seq<u8>>)
    ensures
        crate::branches::inventory_of(lines) is Ok ==> crate::branches::inventory_of(lines)->Ok_0.len()
            <= filled(lines),
    decreases lines.len(),
{
    if lines.len() > 0 {
        lemma_inventory_filled(lines.drop_last());
    }
}

/// Examining the checked out branches, and then pulling, keeps the state
/// sound.
pub proof fn lemma_examine_from(s: RunView, from: int)
    requires
        0 <= from,
        s.branches.len() <= usize::MAX,
    ensures
        sound(examine_from(s, from).state),
        examine_from(s, from).state.branches == s.branches,
{
    lemma_next_bound(s, from);
    lemma_pull(s);
}

/// Looking up and pulling the integration branch keeps the state sound.
pub proof fn lemma_pull(s: RunView)
    requires
        s.branches.len() <= usize::MAX,
    ensures
        sound(pull(s).state),
        pull(s).state.branches == s.branches,
{
    lemma_index_of(s, 0);
    let t = index_of(s.branches, s.onto, 0);
    if t < s.branches.len() {
        lemma_turn_from(RunView { target: t as usize, ..s }, 0);
    }
}

/// The steps before the branches are known keep the state sound.
pub proof fn lemma_setup_sound(s: RunView, e: Event)
    requires
        sound(s),
        sets_up(s.phase),
    ensures
        sound(setup_step(s, e).state),
{
    reveal(setup_step);
    if s.phase == Phase::Inventory {
        match e {
            Event::Succeeded(output) => {
                match crate::branches::branches_of(output@) {
                    Ok(branches) => {
                        lemma_inventory_len(output@);
                        assert(output.len() == output@.len());
                        lemma_examine_from(RunView { branches, ..s }, 0);
                    },
                    Err(_) => {},
                }
            },
            _ => {},
        }
    }
}

/// The steps that examine worktrees and pull keep the state sound.
pub proof fn lemma_pull_sound(s: RunView, e: Event)
    requires
        sound(s),
        examines(s.phase) || pulls(s.phase),
    ensures
        sound(pull_step(s, e).state),
{
    reveal(pull_step);
    match s.phase {
        Phase::CleanTree => {
            lemma_examine_from(s, s.cursor + 1);
        },
        Phase::CleanIndex => {
            lemma_examine_from(s, s.cursor + 1);
            lemma_examine_from(marked_clean(s), s.cursor + 1);
        },
        Phase::PullBound | Phase::PullDetach => {
            lemma_turn_from(s, 0);
        },
        _ => {},
    }
}

/// The steps of a turn up to the first try keep the state sound.
pub proof fn lemma_opening_sound(s: RunView, e: Event)
    requires
        sound(s),
        opens(s.phase),
    ensures
        sound(opening_step(s, e).state),
{
    reveal(opening_step);
    if s.phase == Phase::TipBefore {
        lemma_turn_from(s, s.cursor + 1);
    } else if s.phase == Phase::Targets {
        lemma_turn_from(s, s.cursor + 1);
        match e {
            Event::Succeeded(output) => {
                assert(output.len() == output@.len());
                lemma_commits_len(output@);
            },
            _ => {},
        }
    }
}

/// A byte string has no more lines than it has bytes.
pub proof fn lemma_commits_len(output: Seq<u8>)
    ensures
        crate::text::lines_of(output).len() <= output.len(),
{
    lemma_fields_fit(output, 0x0a);
}

/// The fields of a byte string and the bytes of the last of them are, taken
/// together, no more than its bytes and one.
pub proof fn lemma_fields_fit(s: Seq<u8>, sep: u8)
    ensures
        crate::text::split_on(s, sep).len() >= 1,
        crate::text::split_on(s, sep).len() + crate::text::split_on(s, sep).last().len() <= s.len()
            + 1,
    decreases s.len(),
{
    crate::text::lemma_split_on_len(s, sep);
    if s.len() > 0 {
        lemma_fields_fit(s.drop_last(), sep);
    }
}

/// The tries of a turn, outside the search, keep the state sound.
pub proof fn lemma_tries_sound(s: RunView, e: Event)
    requires
        sound(s),
        tries(s.phase),
        !searches(s.phase),
    ensures
        sound(try_step(s, e).state),
{
    reveal(try_step);
}

/// The search for the first conflict keeps the state sound.
pub proof fn lemma_search_sound(s: RunView, e: Event)
    requires
        sound(s),
        searches(s.phase),
    ensures
        sound(search_step(s, e).state),
{
    reveal(search_step);
    if s.phase == Phase::Count {
        match e {
            Event::Succeeded(output) => {
                assert(output.len() == output@.len());
                lemma_commits_len(output@);
            },
            _ => {},
        }
    }
}

/// The end of a turn keeps the state sound.
pub proof fn lemma_closing_sound(s: RunView, e: Event)
    requires
        sound(s),
        closes(s.phase),
    ensures
        sound(closing_step(s, e).state),
{
    reveal(closing_step);
    if s.phase != Phase::TipAfter {
        lemma_turn_from(s, s.cursor + 1);
    }
}

/// Every state that a run reaches is sound.
pub proof fn lemma_step_sound(s: RunView, e: Event)
    requires
        sound(s),
    ensures
        sound(step_of(s, e).state),
{
    if sets_up(s.phase) {
        lemma_setup_sound(s, e);
    } else if examines(s.phase) || pulls(s.phase) {
        lemma_pull_sound(s, e);
    } else if opens(s.phase) {
        lemma_opening_sound(s, e);
    } else if searches(s.phase) {
        lemma_search_sound(s, e);
    } else if tries(s.phase) {
        lemma_tries_sound(s, e);
    } else if closes(s.phase) {
        lemma_closing_sound(s, e);
    }
}

/// The phases in which the ledger file holds the ledger of the run: those
/// after it has been read, but for the two in which it is being written.
pub open spec fn keeps_ledger(phase: Phase) -> bool {
    !(sets_up(phase) && phase != Phase::ScratchProbe && phase != Phase::ScratchAdd && phase
        != Phase::Inventory) && phase != Phase::ClearLedger && phase != Phase::RecordLedger
}

/// A branch is settled where the ledger records it at the commit that it
/// points to, or records nothing of it while it lacks nothing.
pub open spec fn settled(ledger: Map<Seq<char>, Seq<char>>, w: World, name: Seq<char>) -> bool {
    if ledger.contains_key(name) {
        ledger[name] == w.tips[name]
    } else {
        w.lacking[name].len() == 0
    }
}

/// Whether the turn of the branch at `j` is over and no turn of a branch of
/// the same name is going on.
pub open spec fn turned(s: RunView, j: int) -> bool {
    eligible(s, j) && if in_turn(s.phase) {
        j < s.cursor && s.branches[j].branch != current(s).branch
    } else {
        s.phase == Phase::Finished
    }
}

/// What is known of the branch at hand in each phase of its turn: the ledger
/// records nothing of it from the time its old record is dropped until its
/// new tip is recorded; no conflict has been met before the first try, and
/// one has in every try but the first; and a branch whose tries end without
/// a conflict lacks nothing.
pub open spec fn turn_facts(s: RunView, w: World) -> bool {
    let b = current(s).branch;
    match s.phase {
        Phase::TipBefore => !s.blocked,
        Phase::ClearLedger
        | Phase::MergeBase
        | Phase::Targets
        | Phase::Locate
        | Phase::CheckStale
        | Phase::AbortStale
        | Phase::Checkout => !s.ledger.contains_key(b) && !s.blocked,
        Phase::Attempt => !s.ledger.contains_key(b) && (!s.blocked ==> s.attempt == 0),
        Phase::Normalize => !s.ledger.contains_key(b) && (!s.blocked ==> w.lacking[b].len() == 0),
        Phase::TipAfter => !s.ledger.contains_key(b),
        Phase::RecordLedger => s.ledger.contains_key(b) && s.ledger[b] == w.tips[b],
        Phase::Idle
        | Phase::Version
        | Phase::Clock
        | Phase::SetDate
        | Phase::Toplevel
        | Phase::CommonDir
        | Phase::DefaultBranch
        | Phase::LoadLedger
        | Phase::ScratchProbe
        | Phase::ScratchAdd
        | Phase::Inventory
        | Phase::CleanTree
        | Phase::CleanIndex
        | Phase::PullBound
        | Phase::PullSwitch
        | Phase::PullScratch
        | Phase::PullDetach
        | Phase::Finished => true,
        _ => !s.ledger.contains_key(b) && s.blocked,
    }
}

/// None of the branches is the temporary branch.
pub open spec fn no_temp(branches: Seq<crate::branches::BranchView>) -> bool {
    forall|j: int| 0 <= j < branches.len() ==> (#[trigger] branches[j]).branch != temp_branch()
}

/// A listing stands for no branch of the name of the temporary branch.
pub proof fn lemma_inventory_no_temp(lines: Seq<Seq<u8>>)
    ensures
        crate::branches::inventory_of(lines) is Ok ==> no_temp(
            crate::branches::inventory_of(lines)->Ok_0,
        ),
    decreases lines.len(),
{
    if lines.len() > 0 {
        lemma_inventory_no_temp(lines.drop_last());
    }
}

/// The phases of a turn in which the commits that the branch lacks are
/// known.
pub open spec fn knows_targets(phase: Phase) -> bool {
    phase == Phase::Locate || phase == Phase::CheckStale || phase == Phase::AbortStale || phase
        == Phase::Checkout || tries(phase)
}

/// The branch that the private worktree is being switched to, or is on for a
/// pull, if any.
pub open spec fn switches_to(s: RunView) -> Option<int> {
    if s.phase == Phase::Checkout {
        Some(s.cursor as int)
    } else if s.phase == Phase::PullSwitch || s.phase == Phase::PullScratch || s.phase
        == Phase::PullDetach {
        Some(s.target as int)
    } else {
        None
    }
}

/// Whether the run has failed, or has met a failure that will end it.
pub open spec fn lost(s: RunView) -> bool {
    s.failure is Some || s.doomed is Some
}

/// What the map records of `name`.
pub open spec fn record(ledger: Map<Seq<char>, Seq<char>>, name: Seq<char>) -> Option<Seq<char>> {
    if ledger.contains_key(name) {
        Some(ledger[name])
    } else {
        None
    }
}

/// Whether the run rebases no branch of the name `name`: there is none, or
/// it is the integration branch, has an upstream, is checked out with changes
/// pending, or does not match the filter.
pub open spec fn passed_over(s: RunView, name: Seq<char>) -> bool {
    forall|j: int| #[trigger] eligible(s, j) ==> s.branches[j].branch != name
}

/// What holds of the state of a run that has met no failure, and of the
/// world that it runs in, beyond what holds of every run; `w0` is the world
/// in which it started.
pub open spec fn kept(s: RunView, w: World, w0: World) -> bool {
    &&& sound(s)
    &&& keeps_ledger(s.phase) ==> w.ledger_file == s.ledger
    &&& !in_turn(s.phase) && s.phase != Phase::Finished ==> w.ledger_file == w0.ledger_file
    &&& in_turn(s.phase) ==> eligible(s, s.cursor as int)
    &&& forall|name: Seq<char>| #[trigger]
        passed_over(s, name) ==> record(w.ledger_file, name) == record(w0.ledger_file, name) && (
        in_turn(s.phase) || s.phase == Phase::Finished ==> record(s.ledger, name) == record(
            w0.ledger_file,
            name,
        ))
    &&& turn_facts(s, w)
    &&& switches_to(s) is Some ==> s.branches[switches_to(s)->0].worktree is None
    &&& pulls(s.phase) ==> s.branches[s.target as int].branch == s.onto
    &&& sets_up(s.phase) ==> w.moved == Set::<Seq<char>>::empty()
    &&& no_temp(s.branches)
    &&& forall|name: Seq<char>|
        !w.moved.contains(name) && name != temp_branch() ==> #[trigger] w.tips[name]
            == w0.tips[name]
    &&& forall|name: Seq<char>| #[trigger]
        w.moved.contains(name) ==> if examines(s.phase) || pulls(s.phase) {
            name == s.onto
        } else {
            name == s.onto || w.integration.contains(w.stands_on[name])
        }
    &&& knows_targets(s.phase) ==> forall|i: int|
        0 <= i < s.targets.len() ==> w.integration.contains(#[trigger] s.targets[i])
    &&& forall|j: int| #[trigger] turned(s, j) ==> settled(s.ledger, w, s.branches[j].branch)
}

/// What holds of the state of a run that has met no failure, and of the
/// world that it runs in.
pub open spec fn steady(s: RunView, w: World, w0: World) -> bool {
    rests(s, w, w0) && kept(s, w, w0)
}

/// The ledger file records of every branch that the run does not rebase
/// what it recorded at the start.
pub open spec fn file_kept(s: RunView, w: World, w0: World) -> bool {
    forall|name: Seq<char>| #[trigger]
        passed_over(s, name) ==> record(w.ledger_file, name) == record(w0.ledger_file, name)
}

/// What holds of the state of a run that has met a failure: it has ended, or
/// is putting things back; and it has left the records of the branches that
/// it does not rebase as they were.
pub open spec fn wrecked(s: RunView, w: World, w0: World) -> bool {
    &&& s.failure is Some ==> s.phase == Phase::Finished
    &&& doom_pending(s)
    &&& file_kept(s, w, w0)
}

/// What holds of every state of a run, beyond what every run leaves behind.
pub open spec fn holds(s: RunView, w: World, w0: World) -> bool {
    if lost(s) {
        wrecked(s, w, w0)
    } else {
        steady(s, w, w0)
    }
}

/// The records of the branches that get no turn are as they were after a
/// step that changes neither the ledger file nor the branches.
pub proof fn lemma_file_kept(s: RunView, w: World, w0: World, n: RunView, w2: World)
    requires
        file_kept(s, w, w0),
        same_inventory(n, s),
        w2.ledger_file == w.ledger_file,
    ensures
        file_kept(n, w2, w0),
{
    assert forall|name: Seq<char>| #[trigger] passed_over(n, name) implies record(
        w2.ledger_file,
        name,
    ) == record(w0.ledger_file, name) by {
        assert forall|j: int| #[trigger] eligible(s, j) implies s.branches[j].branch != name by {
            assert(eligible(n, j));
        }
        assert(passed_over(s, name));
    }
}

/// A failure keeps what holds: the run ends, or goes on to put things back,
/// and the ledger file is not written any more.
pub proof fn lemma_wrecked(s: RunView, w: World, w0: World, e: Event, w2: World)
    requires
        holds(s, w, w0),
        follows(w, s, e, w2),
        lost(step_of(s, e).state),
        step_of(s, e).state.failure is Some ==> step_of(s, e).state.phase == Phase::Finished,
        w2.ledger_file == w.ledger_file,
        same_inventory(step_of(s, e).state, s) || w.ledger_file == w0.ledger_file,
    ensures
        wrecked(step_of(s, e).state, w2, w0),
{
    let n = step_of(s, e).state;
    lemma_step_doom(s, e);
    if same_inventory(n, s) {
        lemma_file_kept(s, w, w0, n, w2);
    }
}


/// The world in which a run starts: no command of the run has moved a
/// branch yet. An earlier run that was interrupted may have left a temporary
/// branch, a rebase in progress, and the private worktree on a branch.
pub open spec fn at_start(w0: World) -> bool {
    w0.moved == Set::<Seq<char>>::empty()
}

/// Examining and pulling does not undo a failure.
pub proof fn lemma_examine_lost(s: RunView, from: int)
    requires
        lost(s),
    ensures
        lost(examine_from(s, from).state),
{
}

/// A run that has met a failure does not forget it before the branches are
/// known.
pub proof fn lemma_lost_setup(s: RunView, e: Event)
    requires
        lost(s),
    ensures
        lost(setup_step(s, e).state),
{
    reveal(setup_step);
    if s.phase == Phase::Inventory {
        match e {
            Event::Succeeded(output) => {
                match crate::branches::branches_of(output@) {
                    Ok(branches) => {
                        lemma_examine_lost(RunView { branches, ..s }, 0);
                    },
                    Err(_) => {},
                }
            },
            _ => {},
        }
    }
}

/// A run that has met a failure does not forget it while worktrees are
/// examined and the integration branch is pulled.
pub proof fn lemma_lost_pull(s: RunView, e: Event)
    requires
        lost(s),
    ensures
        lost(pull_step(s, e).state),
{
    reveal(pull_step);
    lemma_examine_lost(s, s.cursor + 1);
    lemma_examine_lost(marked_clean(s), s.cursor + 1);
}

/// A run that has met a failure does not forget it in the turn of a branch.
pub proof fn lemma_lost_turn(s: RunView, e: Event)
    requires
        lost(s),
    ensures
        lost(opening_step(s, e).state),
        lost(try_step(s, e).state),
        lost(closing_step(s, e).state),
{
    reveal(opening_step);
    reveal(try_step);
    reveal(closing_step);
}

/// A run that has met a failure does not forget it in the search.
pub proof fn lemma_lost_search(s: RunView, e: Event)
    requires
        lost(s),
    ensures
        lost(search_step(s, e).state),
{
    reveal(search_step);
}

/// A run that has met a failure does not forget it: it goes on only to put
/// things back, and then ends with the failure.
pub proof fn law_failure_is_not_forgotten(s: RunView, e: Event)
    requires
        lost(s),
    ensures
        lost(step_of(s, e).state),
{
    lemma_lost_setup(s, e);
    lemma_lost_pull(s, e);
    lemma_lost_turn(s, e);
    lemma_lost_search(s, e);
}

/// What is known before the first turn: the ledger is the file, which is as
/// it was, and no branch but the integration branch has moved.
pub open spec fn not_begun(s: RunView, w: World, w0: World) -> bool {
    &&& !lost(s)
    &&& s.branches.len() <= usize::MAX
    &&& w.ledger_file == s.ledger
    &&& w.ledger_file == w0.ledger_file
    &&& no_temp(s.branches)
    &&& forall|name: Seq<char>|
        !w.moved.contains(name) && name != temp_branch() ==> #[trigger] w.tips[name]
            == w0.tips[name]
    &&& forall|name: Seq<char>| #[trigger] w.moved.contains(name) ==> name == s.onto
}

/// Examining the checked out branches and pulling keeps what holds, as long
/// as no turn has begun.
pub proof fn lemma_examine_kept(s: RunView, w: World, w0: World, from: int)
    requires
        0 <= from,
        not_begun(s, w, w0),
    ensures
        lost(examine_from(s, from).state) || kept(examine_from(s, from).state, w, w0),
{
    lemma_examine_from(s, from);
    lemma_next_bound(s, from);
    lemma_pull_kept(s, w, w0);
}

/// Looking up the integration branch keeps what holds.
pub proof fn lemma_pull_kept(s: RunView, w: World, w0: World)
    requires
        not_begun(s, w, w0),
    ensures
        lost(pull(s).state) || kept(pull(s).state, w, w0),
{
    lemma_pull(s);
    lemma_index_of(s, 0);
    let t = index_of(s.branches, s.onto, 0);
    if t < s.branches.len() {
        lemma_first_turn_kept(RunView { target: t as usize, ..s }, w, w0);
    }
}

/// Beginning the first turn keeps what holds.
pub proof fn lemma_first_turn_kept(s: RunView, w: World, w0: World)
    requires
        not_begun(s, w, w0),
    ensures
        kept(turn_from(s, 0).state, w, w0),
{
    lemma_turn_from(s, 0);
    let n = turn_from(s, 0).state;
    assert forall|j: int| #[trigger] turned(n, j) implies settled(n.ledger, w, n.branches[j].branch) by {
        assert(eligible(s, j));
    }
}

/// The end of a turn keeps what holds, where the branch whose turn it was is
/// settled.
pub proof fn lemma_turn_over_kept(s: RunView, w: World, w0: World)
    requires
        !lost(s),
        sound(s),
        in_turn(s.phase),
        eligible(s, s.cursor as int),
        w.ledger_file == s.ledger,
        settled(s.ledger, w, current(s).branch),
        forall|j: int| #[trigger] turned(s, j) ==> settled(s.ledger, w, s.branches[j].branch),
        forall|name: Seq<char>| #[trigger]
            passed_over(s, name) ==> record(w.ledger_file, name) == record(w0.ledger_file, name),
        no_temp(s.branches),
        forall|name: Seq<char>|
            !w.moved.contains(name) && name != temp_branch() ==> #[trigger] w.tips[name]
                == w0.tips[name],
        forall|name: Seq<char>| #[trigger]
            w.moved.contains(name) ==> name == s.onto || w.integration.contains(w.stands_on[name]),
    ensures
        kept(turn_from(s, s.cursor + 1).state, w, w0),
{
    lemma_turn_from(s, s.cursor + 1);
    let n = turn_from(s, s.cursor + 1).state;
    assert forall|j: int| #[trigger] turned(n, j) implies settled(n.ledger, w, n.branches[j].branch) by {
        assert(eligible(s, j));
        if j < s.cursor && s.branches[j].branch != current(s).branch {
            assert(turned(s, j));
        }
    }
    assert forall|name: Seq<char>| #[trigger] passed_over(n, name) implies passed_over(s, name) by {
        assert forall|j: int| #[trigger] eligible(s, j) implies s.branches[j].branch != name by {
            assert(eligible(n, j));
        }
    }
}

/// A step within a turn that touches neither the tip of another branch nor
/// what the ledger records of one keeps the turns that are over settled and
/// the records of the branches that get no turn as they were.
pub proof fn lemma_past_kept(s: RunView, w: World, n: RunView, w2: World, w0: World)
    requires
        in_turn(s.phase),
        in_turn(n.phase),
        same_inventory(n, s),
        n.cursor == s.cursor,
        eligible(s, s.cursor as int),
        forall|j: int| #[trigger] turned(s, j) ==> settled(s.ledger, w, s.branches[j].branch),
        forall|name: Seq<char>| #[trigger]
            passed_over(s, name) ==> record(w.ledger_file, name) == record(w0.ledger_file, name)
                && record(s.ledger, name) == record(w0.ledger_file, name),
        no_temp(s.branches),
        forall|name: Seq<char>|
            name != current(s).branch && name != temp_branch() ==> (n.ledger.contains_key(name)
                <==> s.ledger.contains_key(name)) && n.ledger[name] == s.ledger[name]
                && w2.tips[name] == w.tips[name] && w2.lacking[name] == w.lacking[name],
        forall|name: Seq<char>|
            name != current(s).branch ==> record(n.ledger, name) == record(s.ledger, name),
        w2.ledger_file == w.ledger_file || w2.ledger_file == s.ledger,
    ensures
        forall|j: int| #[trigger] turned(n, j) ==> settled(n.ledger, w2, n.branches[j].branch),
        forall|name: Seq<char>| #[trigger]
            passed_over(n, name) ==> record(w2.ledger_file, name) == record(w0.ledger_file, name)
                && record(n.ledger, name) == record(w0.ledger_file, name),
{
    assert forall|j: int| #[trigger] turned(n, j) implies settled(
        n.ledger,
        w2,
        n.branches[j].branch,
    ) by {
        assert(turned(s, j));
    }
    assert forall|name: Seq<char>| #[trigger] passed_over(n, name) implies record(
        w2.ledger_file,
        name,
    ) == record(w0.ledger_file, name) && record(n.ledger, name) == record(w0.ledger_file, name) by {
        assert forall|j: int| #[trigger] eligible(s, j) implies s.branches[j].branch != name by {
            assert(eligible(n, j));
        }
        assert(passed_over(s, name));
        assert(eligible(n, s.cursor as int));
    }
}

/// The steps before the branches are known keep what holds.
pub proof fn lemma_setup_holds(s: RunView, w: World, w0: World, e: Event, w2: World)
    requires
        holds(s, w, w0),
        sets_up(s.phase),
        follows(w, s, e, w2),
    ensures
        holds(setup_step(s, e).state, w2, w0),
{
    let n = setup_step(s, e).state;
    if lost(s) {
        lemma_lost_setup(s, e);
        reveal(setup_step);
        lemma_wrecked(s, w, w0, e, w2);
    } else {
        lemma_setup_sound(s, e);
        lemma_setup_rests(s, w, w0, e, w2);
        reveal(setup_step);
        if lost(n) {
            lemma_wrecked(s, w, w0, e, w2);
        }
        if s.phase == Phase::Inventory {
            match e {
                Event::Succeeded(output) => {
                    match crate::branches::branches_of(output@) {
                        Ok(branches) => {
                            lemma_inventory_len(output@);
                            lemma_inventory_no_temp(crate::text::split_on(output@, 0x0a));
                            assert(output.len() == output@.len());
                            lemma_examine_kept(RunView { branches, ..s }, w2, w0, 0);
                        },
                        Err(_) => {},
                    }
                },
                _ => {},
            }
        } else if !lost(n) {
            assert forall|name: Seq<char>| #[trigger] passed_over(n, name) implies record(
                w2.ledger_file,
                name,
            ) == record(w0.ledger_file, name) by {}
        }
    }
}

/// The steps that examine worktrees and pull keep what holds.
pub proof fn lemma_pull_step_holds(s: RunView, w: World, w0: World, e: Event, w2: World)
    requires
        holds(s, w, w0),
        examines(s.phase) || pulls(s.phase),
        follows(w, s, e, w2),
    ensures
        holds(pull_step(s, e).state, w2, w0),
{
    let n = pull_step(s, e).state;
    if lost(s) {
        lemma_lost_pull(s, e);
        reveal(pull_step);
        lemma_wrecked(s, w, w0, e, w2);
    } else {
        lemma_pull_sound(s, e);
        reveal(pull_step);
        if lost(n) {
            lemma_wrecked(s, w, w0, e, w2);
        } else {
            lemma_pull_rests(s, w, w0, e, w2);
            match s.phase {
                Phase::CleanTree => {
                    lemma_examine_kept(s, w, w0, s.cursor + 1);
                },
                Phase::CleanIndex => {
                    lemma_examine_kept(s, w, w0, s.cursor + 1);
                    lemma_examine_kept(marked_clean(s), w, w0, s.cursor + 1);
                },
                Phase::PullBound | Phase::PullDetach => {
                    lemma_first_turn_kept(s, w2, w0);
                },
                _ => {},
            }
        }
    }
}

/// The steps of a turn before the first try keep what holds.
pub proof fn lemma_opening_holds(s: RunView, w: World, w0: World, e: Event, w2: World)
    requires
        holds(s, w, w0),
        opens(s.phase),
        follows(w, s, e, w2),
    ensures
        holds(opening_step(s, e).state, w2, w0),
{
    if lost(s) {
        lemma_lost_turn(s, e);
        reveal(opening_step);
        lemma_wrecked(s, w, w0, e, w2);
    } else {
        lemma_opening_sound(s, e);
        lemma_opening_rests(s, w, w0, e, w2);
        reveal(opening_step);
        let n = opening_step(s, e).state;
        if lost(n) {
            lemma_wrecked(s, w, w0, e, w2);
        } else {
            if in_turn(n.phase) && n.phase != Phase::TipBefore {
                lemma_past_kept(s, w, n, w2, w0);
            } else {
                lemma_turn_over_kept(s, w, w0);
            }
        }
    }
}

/// The tries of a turn, outside the search, keep what holds.
pub proof fn lemma_try_holds(s: RunView, w: World, w0: World, e: Event, w2: World)
    requires
        holds(s, w, w0),
        tries(s.phase),
        !searches(s.phase),
        follows(w, s, e, w2),
    ensures
        holds(try_step(s, e).state, w2, w0),
{
    if lost(s) {
        lemma_lost_turn(s, e);
        reveal(try_step);
        lemma_wrecked(s, w, w0, e, w2);
    } else {
        lemma_tries_sound(s, e);
        reveal(try_step);
        let n = try_step(s, e).state;
        if lost(n) {
            lemma_wrecked(s, w, w0, e, w2);
        } else {
            lemma_try_rests(s, w, w0, e, w2);
            lemma_past_kept(s, w, n, w2, w0);
        }
    }
}

/// The search for the first conflict keeps what holds.
pub proof fn lemma_search_holds(s: RunView, w: World, w0: World, e: Event, w2: World)
    requires
        holds(s, w, w0),
        searches(s.phase),
        follows(w, s, e, w2),
    ensures
        holds(search_step(s, e).state, w2, w0),
{
    if lost(s) {
        lemma_lost_search(s, e);
        reveal(search_step);
        lemma_wrecked(s, w, w0, e, w2);
    } else {
        lemma_search_sound(s, e);
        reveal(search_step);
        let n = search_step(s, e).state;
        if lost(n) {
            lemma_wrecked(s, w, w0, e, w2);
        } else {
            lemma_search_rests(s, w, w0, e, w2);
            lemma_past_kept(s, w, n, w2, w0);
        }
    }
}

/// The end of a turn keeps what holds.
pub proof fn lemma_closing_holds(s: RunView, w: World, w0: World, e: Event, w2: World)
    requires
        holds(s, w, w0),
        closes(s.phase),
        follows(w, s, e, w2),
    ensures
        holds(closing_step(s, e).state, w2, w0),
{
    if lost(s) {
        lemma_lost_turn(s, e);
        reveal(closing_step);
        lemma_wrecked(s, w, w0, e, w2);
    } else {
        lemma_closing_sound(s, e);
        reveal(closing_step);
        let n = closing_step(s, e).state;
        if lost(n) {
            lemma_wrecked(s, w, w0, e, w2);
        } else {
            lemma_closing_rests(s, w, w0, e, w2);
            if in_turn(n.phase) && n.cursor == s.cursor && n.phase != Phase::TipBefore {
                lemma_past_kept(s, w, n, w2, w0);
            } else {
                assert forall|j: int| #[trigger] turned(s, j) implies settled(
                    s.ledger,
                    w2,
                    s.branches[j].branch,
                ) by {}
                assert forall|name: Seq<char>| #[trigger] passed_over(s, name) implies record(
                    w2.ledger_file,
                    name,
                ) == record(w0.ledger_file, name) by {
                    assert(eligible(s, s.cursor as int));
                }
                lemma_turn_over_kept(s, w2, w0);
            }
        }
    }
}

/// Every step keeps what holds, whatever the answer and whatever the world
/// that can follow it.
pub proof fn lemma_step_holds(s: RunView, w: World, w0: World, e: Event, w2: World)
    requires
        holds(s, w, w0),
        follows(w, s, e, w2),
    ensures
        holds(step_of(s, e).state, w2, w0),
{
    if sets_up(s.phase) {
        lemma_setup_holds(s, w, w0, e, w2);
    } else if examines(s.phase) || pulls(s.phase) {
        lemma_pull_step_holds(s, w, w0, e, w2);
    } else if opens(s.phase) {
        lemma_opening_holds(s, w, w0, e, w2);
    } else if searches(s.phase) {
        lemma_search_holds(s, w, w0, e, w2);
    } else if tries(s.phase) {
        lemma_try_holds(s, w, w0, e, w2);
    } else if closes(s.phase) {
        lemma_closing_holds(s, w, w0, e, w2);
    } else if lost(s) {
        lemma_wrecked(s, w, w0, e, w2);
    } else {
        lemma_file_kept(s, w, w0, s, w2);
    }
}

/// An answer, and the world after it.
pub struct Moment {
    pub event: Event,
    pub world: World,
}

/// Whether the answers of `history` can be given one after the other to a
/// run in state `s` in the world `w`, each leaving the world that goes with
/// it.
pub open spec fn possible(s: RunView, w: World, history: Seq<Moment>) -> bool
    decreases history.len(),
{
    history.len() > 0 ==> follows(w, s, history[0].event, history[0].world) && possible(
        step_of(s, history[0].event).state,
        history[0].world,
        history.drop_first(),
    )
}

/// The state of a run that was in state `s` after the answers of `history`.
pub open spec fn state_after(s: RunView, history: Seq<Moment>) -> RunView
    decreases history.len(),
{
    if history.len() == 0 {
        s
    } else {
        state_after(step_of(s, history[0].event).state, history.drop_first())
    }
}

/// The world after the answers of `history`.
pub open spec fn world_after(w: World, history: Seq<Moment>) -> World {
    if history.len() == 0 {
        w
    } else {
        history.last().world
    }
}

/// Whether the run is over and has not failed.
pub open spec fn succeeded(s: RunView) -> bool {
    s.phase == Phase::Finished && s.failure is None
}

/// Whether every command of `history` that puts things back has gone
/// through: every abort of a rebase, the deletion of the temporary branch,
/// and every request to take the private worktree off a branch.
pub open spec fn tidy(s: RunView, history: Seq<Moment>) -> bool
    decreases history.len(),
{
    history.len() > 0 ==> tidy_step(s, history[0].event) && tidy(
        step_of(s, history[0].event).state,
        history.drop_first(),
    )
}

/// What holds of a run holds after every possible history.
pub proof fn lemma_history_holds(s: RunView, w: World, w0: World, history: Seq<Moment>)
    requires
        holds(s, w, w0),
        possible(s, w, history),
    ensures
        holds(state_after(s, history), world_after(w, history), w0),
    decreases history.len(),
{
    if history.len() > 0 {
        let first = history[0];
        let rest = history.drop_first();
        lemma_step_holds(s, w, w0, first.event, first.world);
        lemma_history_holds(step_of(s, first.event).state, first.world, w0, rest);
        if rest.len() > 0 {
            assert(rest.last() == history.last());
        }
    }
}

/// What every run leaves behind holds after every possible history in which
/// the commands that put things back have gone through.
pub proof fn lemma_history_rests(s: RunView, w: World, w0: World, history: Seq<Moment>)
    requires
        rests(s, w, w0),
        possible(s, w, history),
        tidy(s, history),
    ensures
        rests(state_after(s, history), world_after(w, history), w0),
    decreases history.len(),
{
    if history.len() > 0 {
        let first = history[0];
        let rest = history.drop_first();
        lemma_step_rests(s, w, w0, first.event, first.world);
        lemma_history_rests(step_of(s, first.event).state, first.world, w0, rest);
        if rest.len() > 0 {
            assert(rest.last() == history.last());
        }
    }
}

/// The branches of the user are the same after every possible history.
pub proof fn lemma_history_branches(s: RunView, w: World, history: Seq<Moment>)
    requires
        possible(s, w, history),
    ensures
        world_after(w, history).branches.remove(temp_branch()) == w.branches.remove(temp_branch()),
    decreases history.len(),
{
    if history.len() > 0 {
        let first = history[0];
        let rest = history.drop_first();
        lemma_branches_kept(w, s, first.event, first.world);
        lemma_history_branches(step_of(s, first.event).state, first.world, rest);
        if rest.len() > 0 {
            assert(rest.last() == history.last());
        }
    }
}

/// A run that has ended keeps no failure back: it has failed, or it has met
/// no failure.
pub proof fn lemma_history_doom(s: RunView, history: Seq<Moment>)
    requires
        doom_pending(s),
    ensures
        doom_pending(state_after(s, history)),
    decreases history.len(),
{
    if history.len() > 0 {
        lemma_step_doom(s, history[0].event);
        lemma_history_doom(step_of(s, history[0].event).state, history.drop_first());
    }
}

/// Whether `s` is the state of a run that has not started.
pub open spec fn fresh(s: RunView) -> bool {
    s == crate::plan::initial(s.start_dir, s.wanted, s.slow, s.include_non_local, s.filter)
}

/// What holds of a run holds when it starts.
pub proof fn lemma_start_holds(s0: RunView, w0: World)
    requires
        fresh(s0),
        at_start(w0),
    ensures
        holds(s0, w0, w0),
        rests(s0, w0, w0),
        !lost(s0),
{
    assert forall|name: Seq<char>| #[trigger] passed_over(s0, name) implies record(
        w0.ledger_file,
        name,
    ) == record(w0.ledger_file, name) by {}
}

/// What holds of a run holds after every history that is possible for a run
/// that has moved nothing yet.
pub proof fn lemma_run_holds(s0: RunView, w0: World, history: Seq<Moment>)
    requires
        fresh(s0),
        at_start(w0),
        possible(s0, w0, history),
    ensures
        holds(state_after(s0, history), world_after(w0, history), w0),
        doom_pending(state_after(s0, history)),
{
    lemma_start_holds(s0, w0);
    lemma_history_holds(s0, w0, w0, history);
    lemma_history_doom(s0, history);
}

/// Whether the run has met no failure, or every command that was to put
/// things back has gone through.
pub open spec fn in_order(s0: RunView, history: Seq<Moment>) -> bool {
    !lost(state_after(s0, history)) || tidy(s0, history)
}

/// What every run leaves behind holds after every history that is possible
/// for a run that has moved nothing yet, whether the run fails or not,
/// as long as the commands that put things back go through.
pub proof fn lemma_run_rests(s0: RunView, w0: World, history: Seq<Moment>)
    requires
        fresh(s0),
        at_start(w0),
        possible(s0, w0, history),
        in_order(s0, history),
    ensures
        rests(state_after(s0, history), world_after(w0, history), w0),
{
    lemma_start_holds(s0, w0);
    if tidy(s0, history) {
        lemma_history_rests(s0, w0, w0, history);
    } else {
        lemma_history_holds(s0, w0, w0, history);
    }
}

/// A run makes and deletes no branch of the user's: whatever the answers,
/// whether it fails or not, and wherever it stands, the branches other than
/// the temporary branch are those that were there when it started.
pub proof fn law_branches_are_kept(s0: RunView, w0: World, history: Seq<Moment>)
    requires
        possible(s0, w0, history),
    ensures
        world_after(w0, history).branches.remove(temp_branch()) == w0.branches.remove(
            temp_branch(),
        ),
{
    lemma_history_branches(s0, w0, history);
}

/// Every run that has ended has come to rest, whether it has failed or not,
/// as long as the commands that put things back have gone through. The
/// private worktree is on no branch, unless an earlier run has left it on
/// one and this run has not used it. No rebase is in progress but one that
/// an earlier run has left in a worktree that this run has not used. And
/// there is no temporary branch but one that an earlier run has left and no
/// search of this run has deleted. So where an earlier run has left nothing,
/// the private worktree is on no branch, no rebase is in progress, and the
/// branches are those of the start.
pub proof fn law_worktrees_are_at_rest(s0: RunView, w0: World, history: Seq<Moment>)
    requires
        fresh(s0),
        at_start(w0),
        possible(s0, w0, history),
        in_order(s0, history),
        state_after(s0, history).phase == Phase::Finished,
    ensures
        ({
            let w = world_after(w0, history);
            &&& w.scratch_attached ==> w0.scratch_attached
            &&& w.rebasing ==> w0.rebasing
            &&& w.branches.contains(temp_branch()) ==> w0.branches.contains(temp_branch())
            &&& !w0.branches.contains(temp_branch()) ==> w.branches == w0.branches
        }),
{
    lemma_run_rests(s0, w0, history);
    let w = world_after(w0, history);
    let t = temp_branch();
    if !w0.branches.contains(t) {
        assert(w.branches.remove(t) =~= w.branches);
        assert(w0.branches.remove(t) =~= w0.branches);
    }
}

/// Once the search of a turn is over the temporary branch is gone and no
/// rebase is in progress, whether or not the branch was there before the
/// search and whether or not the search has met a failure, as long as the
/// abort and the deletion have gone through. The search is over when the
/// worktree is to go back where it was; from then on to the end of the turn,
/// and of the run if the turn is the last, the branch stays gone.
pub proof fn law_search_leaves_nothing(s0: RunView, w0: World, history: Seq<Moment>)
    requires
        fresh(s0),
        at_start(w0),
        possible(s0, w0, history),
        in_order(s0, history),
    ensures
        ({
            let s = state_after(s0, history);
            let w = world_after(w0, history);
            &&& s.phase == Phase::Restore ==> !w.branches.contains(temp_branch()) && !w.rebasing
            &&& s.probed && (in_turn(s.phase) || s.phase == Phase::Finished)
                ==> !w.branches.contains(temp_branch())
        }),
{
    lemma_run_rests(s0, w0, history);
}

/// Between its uses the private worktree is on no branch: it is on one only
/// while the integration branch is pulled in it and from the switch to the
/// branch at hand until the worktree is put at the tip of that branch, or
/// where an earlier run has left it on one. A rebase of the
/// run is in progress only between a rebase that failed and its being
/// aborted, and one that an earlier run has left does not outlast the look
/// at the worktree before the first try. The temporary branch is there only
/// during the search, unless an earlier run has left it. And the ledger file
/// holds the ledger of the run whenever a turn begins or ends: every change
/// of the ledger is saved before anything else is done.
pub proof fn law_run_is_orderly(s0: RunView, w0: World, history: Seq<Moment>)
    requires
        fresh(s0),
        at_start(w0),
        possible(s0, w0, history),
        in_order(s0, history),
    ensures
        ({
            let s = state_after(s0, history);
            let w = world_after(w0, history);
            &&& !may_attach(s.phase) && w.scratch_attached ==> w0.scratch_attached && !closes(
                s.phase,
            )
            &&& !may_rebase(s.phase) && w.rebasing ==> w0.rebasing && !past_stale(s.phase)
            &&& !temp_in_use(s.phase) && w.branches.contains(temp_branch())
                ==> w0.branches.contains(temp_branch())
            &&& !lost(s) && keeps_ledger(s.phase) ==> w.ledger_file == s.ledger
        }),
{
    lemma_run_rests(s0, w0, history);
    lemma_run_holds(s0, w0, history);
}

/// A run leaves what the ledger records of a branch that it does not rebase
/// as it was: of the integration branch, of a branch with an upstream, of
/// one that is checked out with changes pending, of one that does not match
/// the filter, and of one that is no branch any more. That is so of the
/// ledger file at every point of every run, failed or not, and of the ledger
/// of a run that has met no failure once the turns have begun.
pub proof fn law_other_records_are_kept(
    s0: RunView,
    w0: World,
    history: Seq<Moment>,
    name: Seq<char>,
)
    requires
        fresh(s0),
        at_start(w0),
        possible(s0, w0, history),
        passed_over(state_after(s0, history), name),
    ensures
        ({
            let s = state_after(s0, history);
            let w = world_after(w0, history);
            &&& record(w.ledger_file, name) == record(w0.ledger_file, name)
            &&& !lost(s) && (in_turn(s.phase) || s.phase == Phase::Finished) ==> record(
                s.ledger,
                name,
            ) == record(w0.ledger_file, name)
        }),
{
    lemma_run_holds(s0, w0, history);
}

/// After a run that ended without failure the ledger file holds the ledger
/// of the run, and what the ledger records of a branch that the run has
/// rebased is the commit that the branch points to.
pub proof fn law_ledger_records_tips(s0: RunView, w0: World, history: Seq<Moment>, j: int)
    requires
        fresh(s0),
        at_start(w0),
        possible(s0, w0, history),
        succeeded(state_after(s0, history)),
        eligible(state_after(s0, history), j),
    ensures
        ({
            let s = state_after(s0, history);
            let w = world_after(w0, history);
            let name = s.branches[j].branch;
            &&& w.ledger_file == s.ledger
            &&& s.ledger.contains_key(name) ==> s.ledger[name] == w.tips[name]
        }),
{
    lemma_run_holds(s0, w0, history);
    assert(turned(state_after(s0, history), j));
}

/// After a run that ended without failure every branch that the run has
/// rebased is settled: a branch of which the ledger records nothing lacks no
/// commit of the integration branch, and so stands on its tip.
pub proof fn law_branches_are_settled(s0: RunView, w0: World, history: Seq<Moment>, j: int)
    requires
        fresh(s0),
        at_start(w0),
        possible(s0, w0, history),
        succeeded(state_after(s0, history)),
        eligible(state_after(s0, history), j),
    ensures
        settled(
            state_after(s0, history).ledger,
            world_after(w0, history),
            state_after(s0, history).branches[j].branch,
        ),
{
    lemma_run_holds(s0, w0, history);
    assert(turned(state_after(s0, history), j));
}

/// The private worktree is switched to a branch only where, by the listing
/// of the branches, no worktree has that branch checked out: a branch that
/// is checked out is rebased, or pulled, where it is. So no branch is checked
/// out twice.
pub proof fn law_no_branch_is_checked_out_twice(s0: RunView, w0: World, history: Seq<Moment>)
    requires
        fresh(s0),
        at_start(w0),
        possible(s0, w0, history),
        !lost(state_after(s0, history)),
    ensures
        ({
            let s = state_after(s0, history);
            &&& s.phase == Phase::Checkout ==> s.cursor < s.branches.len() && crate::commands::args_of(
                s,
            ) == seq!["switch"@, current(s).branch] && current(s).worktree is None
            &&& s.phase == Phase::PullSwitch ==> s.target < s.branches.len() && crate::commands::args_of(
                s,
            ) == seq!["switch"@, s.onto] && s.branches[s.target as int].branch == s.onto
                && s.branches[s.target as int].worktree is None
        }),
{
    lemma_run_holds(s0, w0, history);
}

/// A run moves no branch back: a branch of the user's that no command of the
/// run has moved points where it pointed, and a branch that a rebase has
/// moved stands on a commit of the integration branch. The run is any run
/// that starts in a world in which it has moved nothing yet; it need
/// not have ended.
pub proof fn law_moved_branches_stand_on_integration(
    s0: RunView,
    w0: World,
    history: Seq<Moment>,
    name: Seq<char>,
)
    requires
        fresh(s0),
        at_start(w0),
        possible(s0, w0, history),
        !lost(state_after(s0, history)),
    ensures
        ({
            let s = state_after(s0, history);
            let w = world_after(w0, history);
            if w.moved.contains(name) {
                name == s.onto || w.integration.contains(w.stands_on[name])
            } else {
                name == temp_branch() || w.tips[name] == w0.tips[name]
            }
        }),
{
    lemma_run_holds(s0, w0, history);
}

/// Whether the turn at hand has asked for nothing yet but what leaves the
/// repository and the ledger `ledger` as they are, the branch being settled.
pub open spec fn idle_turn(s: RunView, w: World, ledger: Map<Seq<char>, Seq<char>>) -> bool {
    &&& !lost(s)
    &&& s.phase == Phase::TipBefore || s.phase == Phase::ClearLedger || s.phase == Phase::MergeBase
        || s.phase == Phase::Targets
    &&& s.ledger == ledger
    &&& w.ledger_file == ledger
    &&& settled(ledger, w, current(s).branch)
    &&& s.phase != Phase::TipBefore ==> !ledger.contains_key(current(s).branch)
}

/// The turn of a settled branch changes nothing: each of its steps leaves
/// the repository and the ledger as they are, no rebase is tried, and the
/// turn ends, passing over a branch that the ledger records at its tip and
/// finding that any other lacks nothing. So a run that follows a run changes
/// nothing, as long as nothing else has changed.
pub proof fn law_settled_turn_is_idle(
    s: RunView,
    w: World,
    ledger: Map<Seq<char>, Seq<char>>,
    e: Event,
    w2: World,
)
    requires
        sound(s),
        idle_turn(s, w, ledger),
        follows(w, s, e, w2),
    ensures
        w2 == w,
        ({
            let n = step_of(s, e).state;
            !lost(n) ==> n.ledger == ledger && (idle_turn(n, w2, ledger) || n == turn_over(s).state)
        }),
{
    reveal(opening_step);
    let b = current(s).branch;
    if s.phase == Phase::TipBefore {
        assert(ledger.remove(b) =~= ledger || ledger.contains_key(b));
    }
    if s.phase == Phase::ClearLedger {
        assert(w2 =~= w);
    }
}

/// A branch that the ledger records at the commit it points to is passed
/// over: its turn ends with the answer to the question for its tip, and no
/// command is asked for that changes anything.
pub proof fn law_blocked_branch_is_passed_over(s: RunView, w: World, e: Event, w2: World)
    requires
        sound(s),
        !lost(s),
        s.phase == Phase::TipBefore,
        s.ledger.contains_key(current(s).branch),
        s.ledger[current(s).branch] == w.tips[current(s).branch],
        follows(w, s, e, w2),
    ensures
        w2 == w,
        ({
            let n = step_of(s, e).state;
            !lost(n) ==> n == turn_over(s).state
        }),
{
    reveal(opening_step);
}

/// A rebase is only ever tried onto one of the commits of the integration
/// branch that the branch at hand lacks, and the first try is onto the newest
/// of them.
pub proof fn law_tries_are_onto_integration(s: RunView, e: Event)
    requires
        sound(s),
        !lost(s),
    ensures
        ({
            let n = step_of(s, e).state;
            n.phase == Phase::Attempt ==> n.attempt < n.targets.len() && (opens(s.phase)
                ==> n.attempt == 0) && crate::commands::args_of(n) == seq![
                "rebase"@,
                n.targets[n.attempt as int],
            ]
        }),
{
    lemma_step_sound(s, e);
    reveal(opening_step);
    reveal(setup_step);
    reveal(pull_step);
    reveal(closing_step);
    lemma_turn_from(s, s.cursor + 1);
    lemma_turn_from(s, 0);
    lemma_examine_from_phase(s, s.cursor + 1);
    if s.phase == Phase::CleanIndex {
        lemma_examine_from_phase(marked_clean(s), s.cursor + 1);
    }
    if s.phase == Phase::Inventory {
        match e {
            Event::Succeeded(output) => {
                match crate::branches::branches_of(output@) {
                    Ok(branches) => {
                        lemma_inventory_len(output@);
                        assert(output.len() == output@.len());
                        lemma_examine_from_phase(RunView { branches, ..s }, 0);
                    },
                    Err(_) => {},
                }
            },
            _ => {},
        }
    }
}

/// Examining and pulling tries no rebase.
pub proof fn lemma_examine_from_phase(s: RunView, from: int)
    requires
        s.branches.len() <= usize::MAX,
    ensures
        examine_from(s, from).state.phase != Phase::Attempt,
{
    lemma_index_of(s, 0);
    let t = index_of(s.branches, s.onto, 0);
    if t < s.branches.len() {
        lemma_turn_from(RunView { target: t as usize, ..s }, 0);
    }
}

} // verus!
