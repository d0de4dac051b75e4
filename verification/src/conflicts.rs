//! The conflict ledger: which branches a conflict has blocked, and at which
//! commit each of them stood when it was blocked.

use vstd::prelude::*;

verus! {

/// The map that a list of `(branch, commit)` pairs stands for. A later pair
/// replaces an earlier one with the same branch.
pub open spec fn entries_map(entries: Seq<(String, String)>) -> Map<Seq<char>, Seq<char>>
    decreases entries.len(),
{
    if entries.len() == 0 {
        Map::empty()
    } else {
        entries_map(entries.drop_last()).insert(entries.last().0@, entries.last().1@)
    }
}

/// No branch occurs twice in the list.
pub open spec fn distinct_branches(entries: Seq<(String, String)>) -> bool {
    forall|i: int, j: int|
        0 <= i < j < entries.len() ==> (#[trigger] entries[i]).0@ != (#[trigger] entries[j]).0@
}

/// The map holds exactly the branches of the list.
pub proof fn lemma_entries_map_dom(entries: Seq<(String, String)>)
    ensures
        forall|name: Seq<char>|
            entries_map(entries).contains_key(name) <==> exists|i: int|
                0 <= i < entries.len() && (#[trigger] entries[i]).0@ == name,
        entries_map(entries).dom().finite(),
    decreases entries.len(),
{
    if entries.len() > 0 {
        let head = entries.drop_last();
        lemma_entries_map_dom(head);
        assert forall|name: Seq<char>|
            entries_map(entries).contains_key(name) <==> exists|i: int|
                0 <= i < entries.len() && (#[trigger] entries[i]).0@ == name by {
            if entries_map(entries).contains_key(name) {
                if name == entries.last().0@ {
                    assert(entries[entries.len() - 1].0@ == name);
                } else {
                    let i = choose|i: int| 0 <= i < head.len() && (#[trigger] head[i]).0@ == name;
                    assert(entries[i].0@ == name);
                }
            }
            if exists|i: int| 0 <= i < entries.len() && (#[trigger] entries[i]).0@ == name {
                let i = choose|i: int| 0 <= i < entries.len() && (#[trigger] entries[i]).0@ == name;
                if i < entries.len() - 1 {
                    assert(head[i].0@ == name);
                }
            }
        }
    }
}

/// In a list without repeated branches every pair is an entry of the map.
pub proof fn lemma_entries_map_at(entries: Seq<(String, String)>, i: int)
    requires
        distinct_branches(entries),
        0 <= i < entries.len(),
    ensures
        entries_map(entries).contains_key(entries[i].0@),
        entries_map(entries)[entries[i].0@] == entries[i].1@,
    decreases entries.len(),
{
    let head = entries.drop_last();
    if i < entries.len() - 1 {
        assert(distinct_branches(head)) by {
            assert forall|a: int, b: int| 0 <= a < b < head.len() implies (#[trigger] head[a]).0@ != (
            #[trigger] head[b]).0@ by {
                assert(head[a] == entries[a] && head[b] == entries[b]);
            }
        }
        lemma_entries_map_at(head, i);
        assert(head[i] == entries[i]);
        assert(entries[i].0@ != entries[entries.len() - 1].0@);
    }
}

/// Taking the pair at `i` out of a list without repeated branches takes its
/// branch out of the map.
pub proof fn lemma_entries_map_remove(entries: Seq<(String, String)>, i: int)
    requires
        distinct_branches(entries),
        0 <= i < entries.len(),
    ensures
        distinct_branches(entries.remove(i)),
        entries_map(entries.remove(i)) == entries_map(entries).remove(entries[i].0@),
    decreases entries.len(),
{
    let rest = entries.remove(i);
    assert(distinct_branches(rest)) by {
        assert forall|a: int, b: int| 0 <= a < b < rest.len() implies (#[trigger] rest[a]).0@ != (
        #[trigger] rest[b]).0@ by {
            let a0 = if a < i { a } else { a + 1 };
            let b0 = if b < i { b } else { b + 1 };
            assert(rest[a] == entries[a0] && rest[b] == entries[b0]);
        }
    }
    let head = entries.drop_last();
    if i == entries.len() - 1 {
        assert(rest =~= head);
        lemma_entries_map_dom(head);
        assert(!entries_map(head).contains_key(entries[i].0@)) by {
            if entries_map(head).contains_key(entries[i].0@) {
                let k = choose|k: int| 0 <= k < head.len() && (#[trigger] head[k]).0@ == entries[i].0@;
                assert(entries[k].0@ == entries[i].0@);
            }
        }
        assert(entries_map(rest) =~= entries_map(entries).remove(entries[i].0@));
    } else {
        assert(distinct_branches(head)) by {
            assert forall|a: int, b: int| 0 <= a < b < head.len() implies (#[trigger] head[a]).0@ != (
            #[trigger] head[b]).0@ by {
                assert(head[a] == entries[a] && head[b] == entries[b]);
            }
        }
        lemma_entries_map_remove(head, i);
        assert(head[i] == entries[i]);
        assert(rest.drop_last() =~= head.remove(i));
        assert(rest.last() == entries.last());
        assert(entries[i].0@ != entries[entries.len() - 1].0@);
        assert(entries_map(rest) =~= entries_map(entries).remove(entries[i].0@));
    }
}

/// Replacing the commit of the pair at `i` replaces the entry of its branch.
pub proof fn lemma_entries_map_update(entries: Seq<(String, String)>, i: int, pair: (String, String))
    requires
        distinct_branches(entries),
        0 <= i < entries.len(),
        pair.0@ == entries[i].0@,
    ensures
        distinct_branches(entries.update(i, pair)),
        entries_map(entries.update(i, pair)) == entries_map(entries).insert(pair.0@, pair.1@),
    decreases entries.len(),
{
    let next = entries.update(i, pair);
    assert(distinct_branches(next)) by {
        assert forall|a: int, b: int| 0 <= a < b < next.len() implies (#[trigger] next[a]).0@ != (
        #[trigger] next[b]).0@ by {
            assert(next[a].0@ == entries[a].0@ && next[b].0@ == entries[b].0@);
        }
    }
    let head = entries.drop_last();
    if i == entries.len() - 1 {
        assert(next.drop_last() =~= head);
        assert(entries_map(next) =~= entries_map(entries).insert(pair.0@, pair.1@));
    } else {
        assert(distinct_branches(head)) by {
            assert forall|a: int, b: int| 0 <= a < b < head.len() implies (#[trigger] head[a]).0@ != (
            #[trigger] head[b]).0@ by {
                assert(head[a] == entries[a] && head[b] == entries[b]);
            }
        }
        lemma_entries_map_update(head, i, pair);
        assert(next.drop_last() =~= head.update(i, pair));
        assert(next.last() == entries.last());
        assert(entries[i].0@ != entries[entries.len() - 1].0@);
        assert(entries_map(next) =~= entries_map(entries).insert(pair.0@, pair.1@));
    }
}

/// The branches that a conflict has blocked, each with the commit that it
/// pointed to when the rebase stopped.
pub struct Conflicts {
    entries: Vec<(String, String)>,
}

impl View for Conflicts {
    type V = Map<Seq<char>, Seq<char>>;

    closed spec fn view(&self) -> Map<Seq<char>, Seq<char>> {
        entries_map(self.entries@)
    }
}

impl Conflicts {
    #[verifier::type_invariant]
    spec fn well_formed(self) -> bool {
        distinct_branches(self.entries@)
    }

    /// A ledger without entries.
    pub fn new() -> (r: Self)
        ensures
            r@ == Map::<Seq<char>, Seq<char>>::empty(),
    {
        Conflicts { entries: Vec::new() }
    }

    /// Moves the list out, leaving an empty one.
    fn take_entries(&mut self) -> (r: Vec<(String, String)>)
        ensures
            r == old(self).entries,
            final(self).entries@.len() == 0,
    {
        let mut entries: Vec<(String, String)> = Vec::new();
        std::mem::swap(&mut self.entries, &mut entries);
        entries
    }

    /// Where `branch` stands in the list, if it is recorded.
    fn position(&self, branch: &String) -> (r: Option<usize>)
        ensures
            r is Some <==> self@.contains_key(branch@),
            r is Some ==> r->0 < self.entries@.len() && self.entries@[r->0 as int].0@ == branch@,
    {
        let mut i: usize = 0;
        while i < self.entries.len()
            invariant
                i <= self.entries@.len(),
                forall|k: int| 0 <= k < i ==> (#[trigger] self.entries@[k]).0@ != branch@,
            decreases self.entries@.len() - i,
        {
            if self.entries[i].0 == *branch {
                proof {
                    lemma_entries_map_dom(self.entries@);
                }
                return Some(i);
            }
            i += 1;
        }
        proof {
            lemma_entries_map_dom(self.entries@);
        }
        None
    }

    /// The commit recorded for `branch`, if it is blocked.
    pub fn get(&self, branch: &str) -> (r: Option<String>)
        ensures
            r is Some <==> self@.contains_key(branch@),
            r is Some ==> r->0@ == self@[branch@],
    {
        let name = branch.to_owned();
        match self.position(&name) {
            Some(i) => {
                proof {
                    use_type_invariant(self);
                    lemma_entries_map_at(self.entries@, i as int);
                }
                Some(self.entries[i].1.clone())
            },
            None => None,
        }
    }

    /// Whether the ledger records exactly `commit` for `branch`.
    pub fn blocks(&self, branch: &str, commit: &str) -> (r: bool)
        ensures
            r == (self@.contains_key(branch@) && self@[branch@] == commit@),
    {
        match self.get(branch) {
            Some(recorded) => recorded == commit.to_owned(),
            None => false,
        }
    }

    /// Records `commit` for `branch`, and returns what was recorded before.
    pub fn insert(&mut self, branch: String, commit: String) -> (r: Option<String>)
        ensures
            final(self)@ == old(self)@.insert(branch@, commit@),
            r is Some <==> old(self)@.contains_key(branch@),
            r is Some ==> r->0@ == old(self)@[branch@],
    {
        proof {
            use_type_invariant(&*self);
        }
        match self.position(&branch) {
            Some(i) => {
                let before = self.entries[i].1.clone();
                proof {
                    lemma_entries_map_at(self.entries@, i as int);
                    lemma_entries_map_update(self.entries@, i as int, (branch, commit));
                }
                let mut entries = self.take_entries();
                entries.set(i, (branch, commit));
                self.entries = entries;
                Some(before)
            },
            None => {
                proof {
                    lemma_entries_map_dom(self.entries@);
                    assert(self.entries@.push((branch, commit)).drop_last() =~= self.entries@);
                }
                let mut entries = self.take_entries();
                entries.push((branch, commit));
                self.entries = entries;
                None
            },
        }
    }

    /// Forgets `branch`, and returns what was recorded for it.
    pub fn remove(&mut self, branch: &str) -> (r: Option<String>)
        ensures
            final(self)@ == old(self)@.remove(branch@),
            r is Some <==> old(self)@.contains_key(branch@),
            r is Some ==> r->0@ == old(self)@[branch@],
    {
        proof {
            use_type_invariant(&*self);
        }
        let name = branch.to_owned();
        match self.position(&name) {
            Some(i) => {
                proof {
                    lemma_entries_map_at(self.entries@, i as int);
                    lemma_entries_map_remove(self.entries@, i as int);
                }
                let mut entries = self.take_entries();
                let pair = entries.remove(i);
                self.entries = entries;
                Some(pair.1)
            },
            None => {
                assert(self@.remove(branch@) =~= self@);
                None
            },
        }
    }

    /// How many branches are recorded.
    pub fn len(&self) -> (r: usize)
        ensures
            r == self@.len(),
    {
        proof {
            use_type_invariant(self);
            lemma_entries_map_len(self.entries@);
        }
        self.entries.len()
    }

    /// Whether no branch is recorded.
    pub fn is_empty(&self) -> (r: bool)
        ensures
            r == (self@.len() == 0),
    {
        self.len() == 0
    }

    /// The recorded pairs, each branch once, for writing the ledger out.
    pub fn entries(&self) -> (r: Vec<(String, String)>)
        ensures
            distinct_branches(r@),
            entries_map(r@) == self@,
    {
        proof {
            use_type_invariant(self);
        }
        let mut out: Vec<(String, String)> = Vec::new();
        let mut i: usize = 0;
        while i < self.entries.len()
            invariant
                i <= self.entries@.len(),
                out@.len() == i,
                forall|k: int|
                    0 <= k < i ==> (#[trigger] out@[k]).0@ == self.entries@[k].0@ && out@[k].1@
                        == self.entries@[k].1@,
            decreases self.entries@.len() - i,
        {
            let pair = &self.entries[i];
            out.push((pair.0.clone(), pair.1.clone()));
            i += 1;
        }
        proof {
            lemma_entries_map_same(out@, self.entries@);
        }
        out
    }

    /// The ledger that a list of pairs stands for; a later pair replaces an
    /// earlier one with the same branch.
    pub fn from_entries(entries: Vec<(String, String)>) -> (r: Self)
        ensures
            r@ == entries_map(entries@),
    {
        let mut ledger = Conflicts::new();
        let mut i: usize = 0;
        while i < entries.len()
            invariant
                i <= entries@.len(),
                ledger@ == entries_map(entries@.take(i as int)),
            decreases entries@.len() - i,
        {
            let pair = &entries[i];
            proof {
                assert(entries@.take(i as int + 1).drop_last() =~= entries@.take(i as int));
            }
            ledger.insert(pair.0.clone(), pair.1.clone());
            i += 1;
        }
        assert(entries@.take(i as int) =~= entries@);
        ledger
    }
}

/// A list without repeated branches has as many pairs as its map has entries.
pub proof fn lemma_entries_map_len(entries: Seq<(String, String)>)
    requires
        distinct_branches(entries),
    ensures
        entries_map(entries).dom().finite(),
        entries_map(entries).len() == entries.len(),
    decreases entries.len(),
{
    lemma_entries_map_dom(entries);
    if entries.len() > 0 {
        let head = entries.drop_last();
        assert(distinct_branches(head)) by {
            assert forall|a: int, b: int| 0 <= a < b < head.len() implies (#[trigger] head[a]).0@ != (
            #[trigger] head[b]).0@ by {
                assert(head[a] == entries[a] && head[b] == entries[b]);
            }
        }
        lemma_entries_map_len(head);
        lemma_entries_map_dom(head);
        assert(!entries_map(head).contains_key(entries.last().0@)) by {
            if entries_map(head).contains_key(entries.last().0@) {
                let k = choose|k: int|
                    0 <= k < head.len() && (#[trigger] head[k]).0@ == entries.last().0@;
                assert(entries[k].0@ == entries[entries.len() - 1].0@);
            }
        }
    }
}

/// Two lists that hold the same texts pair by pair stand for the same map.
pub proof fn lemma_entries_map_same(a: Seq<(String, String)>, b: Seq<(String, String)>)
    requires
        a.len() == b.len(),
        forall|k: int| 0 <= k < a.len() ==> (#[trigger] a[k]).0@ == b[k].0@ && a[k].1@ == b[k].1@,
    ensures
        entries_map(a) == entries_map(b),
        distinct_branches(b) ==> distinct_branches(a),
    decreases a.len(),
{
    if a.len() > 0 {
        assert(a.drop_last().len() == b.drop_last().len());
        assert forall|k: int| 0 <= k < a.drop_last().len() implies (#[trigger] a.drop_last()[k]).0@
            == b.drop_last()[k].0@ && a.drop_last()[k].1@ == b.drop_last()[k].1@ by {
            assert(a.drop_last()[k] == a[k]);
        }
        lemma_entries_map_same(a.drop_last(), b.drop_last());
        assert(a[a.len() - 1].0@ == b[a.len() - 1].0@);
    }
    if distinct_branches(b) {
        assert forall|i: int, j: int| 0 <= i < j < a.len() implies (#[trigger] a[i]).0@ != (
        #[trigger] a[j]).0@ by {
            assert(a[i].0@ == b[i].0@ && a[j].0@ == b[j].0@);
        }
    }
}

} // verus!
