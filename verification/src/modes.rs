//! The two ways of finding the commit to rebase onto come to the same
//! commit, where conflicts behave as the faster one takes them to.

use vstd::prelude::*;
use crate::laws::{lost, sound};
use crate::plan::{
    current, opening_step, opens, search_step, searches, step_of, tries, try_step,
    Event, Phase, RunView,
};
use crate::text::commits_of;
use crate::world::{follows, World};

verus! {

/// Whether the answer `e` is what the faster way takes for granted of a
/// branch that can be rebased onto the commits from place `k` on and onto
/// none before: a rebase onto a commit goes through exactly from `k` on, the
/// integration branch does not go onto the branch without conflicts unless
/// the branch goes onto it, and as many commits apply on top of the branch as
/// there are from `k` on.
pub open spec fn as_expected(s: RunView, e: Event, k: int) -> bool {
    match s.phase {
        Phase::Attempt => if s.attempt >= k {
            e is Succeeded
        } else {
            e is Rejected
        },
        Phase::Probe => !(e is Succeeded),
        Phase::Count => match e {
            Event::Succeeded(output) => match commits_of(output@) {
                Some(commits) => commits.len() == s.targets.len() - k,
                None => true,
            },
            _ => true,
        },
        _ => true,
    }
}

/// What the branch at hand lacks once it stands where it can: the commits
/// before place `k`, all of them where there is no such place.
pub open spec fn lacking_at(targets: Seq<Seq<char>>, k: int) -> Seq<Seq<char>> {
    if k < targets.len() {
        targets.take(k)
    } else {
        targets
    }
}

/// Whether the tries of the turn at hand are on their way to place `k`: the
/// branch has not moved and no commit from `k` on has been passed, or the
/// tries are over and the branch stands at `k`.
pub open spec fn on_course(s: RunView, w: World, k: int) -> bool {
    let b = current(s).branch;
    let unmoved = w.lacking[b] == s.targets;
    &&& 0 <= k <= s.targets.len()
    &&& match s.phase {
        Phase::Locate | Phase::CheckStale | Phase::AbortStale | Phase::Checkout => unmoved
            && !s.probed,
        Phase::Attempt => unmoved && if s.slow {
            s.attempt <= k
        } else if s.probed {
            s.attempt == k
        } else {
            s.attempt == 0
        },
        Phase::CheckAttempt | Phase::AbortAttempt => unmoved && s.attempt < k && (s.slow
            || !s.probed),
        Phase::CurrentBranch
        | Phase::CurrentCommit
        | Phase::CreateTemp
        | Phase::Probe
        | Phase::CheckProbe
        | Phase::Count => unmoved && !s.slow && 0 < k,
        Phase::AbortProbe | Phase::LeaveTemp | Phase::DeleteTemp | Phase::Restore => unmoved
            && !s.slow && 0 < k && s.applied == s.targets.len() - k,
        Phase::Normalize => w.lacking[b] == lacking_at(s.targets, k),
        _ => true,
    }
}

/// The phases from the first look at the worktree to the end of the tries.
pub open spec fn in_tries(phase: Phase) -> bool {
    phase == Phase::Locate || phase == Phase::CheckStale || phase == Phase::AbortStale || phase
        == Phase::Checkout || tries(phase) || phase == Phase::Normalize
}

/// Whichever way the commit to rebase onto is looked for, the tries of a turn
/// end with the branch on the same commit: where a rebase goes through from
/// place `k` on and the search counts accordingly, every step of the tries
/// stays on course to `k`, and when the tries are over the branch lacks the
/// commits before `k` and no others. Nothing in this depends on the way.
pub proof fn law_ways_agree(s: RunView, w: World, e: Event, w2: World, k: int)
    requires
        sound(s),
        !lost(s),
        in_tries(s.phase),
        s.phase != Phase::Normalize,
        on_course(s, w, k),
        follows(w, s, e, w2),
        as_expected(s, e, k),
    ensures
        ({
            let n = step_of(s, e).state;
            !lost(n) ==> in_tries(n.phase) && on_course(n, w2, k) && n.targets == s.targets
                && current(n) == current(s)
        }),
{
    if opens(s.phase) {
        reveal(opening_step);
    } else if searches(s.phase) {
        reveal(search_step);
    } else {
        reveal(try_step);
    }
}

/// The tries begin on course to every place: when the commits that the
/// branch lacks have been listed, the branch has not moved.
pub proof fn law_tries_begin_on_course(s: RunView, w: World, e: Event, w2: World, k: int)
    requires
        sound(s),
        !lost(s),
        s.phase == Phase::Targets,
        !s.probed,
        follows(w, s, e, w2),
    ensures
        ({
            let n = step_of(s, e).state;
            !lost(n) && n.phase == Phase::Locate && 0 <= k <= n.targets.len() ==> on_course(
                n,
                w2,
                k,
            )
        }),
{
    reveal(opening_step);
}

} // verus!
