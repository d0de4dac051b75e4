//! Descriptions of commit graphs, from which repositories are built to try
//! the library on.

use vstd::prelude::*;
use crate::text::optional_view;

verus! {

/// What a commit does to one file: the new contents, or `None` to delete it.
pub type Change = (String, Option<String>);

/// The map from file name to change that a list of changes stands for. A
/// later change of a file replaces an earlier one.
pub open spec fn change_map(list: Seq<Change>) -> Map<Seq<char>, Option<Seq<char>>>
    decreases list.len(),
{
    if list.len() == 0 {
        Map::empty()
    } else {
        change_map(list.drop_last()).insert(list.last().0@, optional_view(list.last().1))
    }
}

/// The changes of `list` to files other than `file`, in their order.
pub open spec fn changes_without(list: Seq<Change>, file: Seq<char>) -> Seq<Change>
    decreases list.len(),
{
    if list.len() == 0 {
        Seq::empty()
    } else if list.last().0@ == file {
        changes_without(list.drop_last(), file)
    } else {
        changes_without(list.drop_last(), file).push(list.last())
    }
}

/// Leaving the changes of a file out of the list takes the file out of the map.
pub proof fn lemma_changes_without(list: Seq<Change>, file: Seq<char>)
    ensures
        change_map(changes_without(list, file)) == change_map(list).remove(file),
        forall|i: int|
            0 <= i < changes_without(list, file).len() ==> (#[trigger] changes_without(
                list,
                file,
            )[i]).0@ != file,
    decreases list.len(),
{
    if list.len() == 0 {
        assert(change_map(list).remove(file) =~= Map::empty());
    } else {
        let head = list.drop_last();
        lemma_changes_without(head, file);
        if list.last().0@ == file {
            assert(change_map(list).remove(file) =~= change_map(head).remove(file));
        } else {
            let kept = changes_without(head, file).push(list.last());
            assert(kept.drop_last() =~= changes_without(head, file));
            assert(change_map(kept) =~= change_map(list).remove(file));
        }
    }
}

/// No file occurs twice in the list.
pub open spec fn distinct_files(list: Seq<Change>) -> bool {
    forall|i: int, j: int| 0 <= i < j < list.len() ==> (#[trigger] list[i]).0@ != (#[trigger] list[j]).0@
}

/// Leaving the changes of a file out of a list in which no file occurs twice
/// leaves such a list, of changes of the list.
pub proof fn lemma_changes_without_distinct(list: Seq<Change>, file: Seq<char>)
    requires
        distinct_files(list),
    ensures
        distinct_files(changes_without(list, file)),
        forall|k: int|
            0 <= k < changes_without(list, file).len() ==> list.contains(
                #[trigger] changes_without(list, file)[k],
            ),
    decreases list.len(),
{
    if list.len() > 0 {
        let head = list.drop_last();
        assert(distinct_files(head)) by {
            assert forall|i: int, j: int| 0 <= i < j < head.len() implies (#[trigger] head[i]).0@ != (
            #[trigger] head[j]).0@ by {
                assert(head[i] == list[i] && head[j] == list[j]);
            }
        }
        lemma_changes_without_distinct(head, file);
        let kept = changes_without(list, file);
        let before = changes_without(head, file);
        assert forall|k: int| 0 <= k < kept.len() implies list.contains(#[trigger] kept[k]) by {
            if k < before.len() {
                assert(kept[k] == before[k]);
                let m = choose|m: int| 0 <= m < head.len() && head[m] == before[k];
                assert(list[m] == kept[k]);
            } else {
                assert(kept[k] == list[list.len() - 1]);
            }
        }
        assert forall|i: int, j: int| 0 <= i < j < kept.len() implies (#[trigger] kept[i]).0@ != (
        #[trigger] kept[j]).0@ by {
            if j == before.len() {
                assert(kept[i] == before[i]);
                let m = choose|m: int| 0 <= m < head.len() && head[m] == before[i];
                assert(list[m] == kept[i]);
                assert(kept[j] == list[list.len() - 1]);
            } else {
                assert(kept[i] == before[i] && kept[j] == before[j]);
            }
        }
    }
}

/// A commit to make, with the commits to make on top of it. No file occurs
/// twice among its changes.
pub struct CommitDescription {
    message: String,
    changes: Vec<Change>,
    branches: Vec<String>,
    children: Vec<CommitDescription>,
    id: Option<i32>,
    merge_parents: Vec<i32>,
}

impl CommitDescription {
    #[verifier::type_invariant]
    spec fn each_file_once(self) -> bool {
        distinct_files(self.changes@)
    }

    /// The commit message.
    pub closed spec fn message_view(&self) -> Seq<char> {
        self.message@
    }

    /// The change that the commit makes to each file that it touches.
    pub closed spec fn changes_view(&self) -> Map<Seq<char>, Option<Seq<char>>> {
        change_map(self.changes@)
    }

    /// The names of the branches that point at the commit.
    pub closed spec fn branches_view(&self) -> Seq<Seq<char>> {
        self.branches@.map_values(|name: String| name@)
    }

    /// The commits on top of this one.
    pub closed spec fn children_view(&self) -> Seq<CommitDescription> {
        self.children@
    }

    /// The number by which merge commits name this commit as a parent.
    pub closed spec fn id_view(&self) -> Option<i32> {
        self.id
    }

    /// The numbers of the additional parents of a merge commit.
    pub closed spec fn merge_parents_view(&self) -> Seq<i32> {
        self.merge_parents@
    }

    /// Sets the commit message.
    pub fn message(self, m: &str) -> (r: Self)
        ensures
            r.message_view() == m@,
            r.changes_view() == self.changes_view(),
            r.branches_view() == self.branches_view(),
            r.children_view() == self.children_view(),
            r.id_view() == self.id_view(),
            r.merge_parents_view() == self.merge_parents_view(),
    {
        proof {
            use_type_invariant(&self);
        }
        CommitDescription { message: m.to_owned(), ..self }
    }

    /// Puts a change of `filename` in place of any that the commit holds.
    fn change(self, filename: &str, change: Option<String>) -> (r: Self)
        ensures
            r.message_view() == self.message_view(),
            r.changes_view() == self.changes_view().insert(filename@, optional_view(change)),
            r.branches_view() == self.branches_view(),
            r.children_view() == self.children_view(),
            r.id_view() == self.id_view(),
            r.merge_parents_view() == self.merge_parents_view(),
    {
        proof {
            use_type_invariant(&self);
        }
        let name = filename.to_owned();
        let next = self;
        let mut kept: Vec<Change> = Vec::new();
        let mut i: usize = 0;
        let ghost before = next.changes@;
        while i < next.changes.len()
            invariant
                i <= next.changes@.len(),
                next.changes@ == before,
                name@ == filename@,
                kept@.len() <= i,
                kept@.len() == changes_without(before.take(i as int), filename@).len(),
                forall|k: int|
                    0 <= k < kept@.len() ==> (#[trigger] kept@[k]).0@ == changes_without(
                        before.take(i as int),
                        filename@,
                    )[k].0@ && optional_view(kept@[k].1) == optional_view(
                        changes_without(before.take(i as int), filename@)[k].1,
                    ),
            decreases next.changes@.len() - i,
        {
            let pair = &next.changes[i];
            proof {
                assert(before.take(i as int + 1).drop_last() =~= before.take(i as int));
                assert(before.take(i as int + 1).last() == *pair);
            }
            if pair.0 != name {
                let contents = match &pair.1 {
                    Some(text) => Some(text.clone()),
                    None => None,
                };
                kept.push((pair.0.clone(), contents));
            }
            i += 1;
        }
        proof {
            assert(before.take(i as int) =~= before);
            lemma_changes_without(before, filename@);
            lemma_change_map_same(kept@, changes_without(before, filename@));
            assert(kept@.push((name, change)).drop_last() =~= kept@);
            assert(change_map(before).remove(filename@).insert(filename@, optional_view(change))
                =~= change_map(before).insert(filename@, optional_view(change)));
            lemma_changes_without_distinct(before, filename@);
            let without = changes_without(before, filename@);
            let all = kept@.push((name, change));
            assert forall|a: int, b: int| 0 <= a < b < all.len() implies (#[trigger] all[a]).0@ != (
            #[trigger] all[b]).0@ by {
                assert(kept@[a].0@ == without[a].0@);
                if b < kept@.len() {
                    assert(kept@[b].0@ == without[b].0@);
                }
            }
        }
        kept.push((name, change));
        CommitDescription { changes: kept, ..next }
    }

    /// Makes the commit write `contents` to the file `filename`.
    pub fn write(self, filename: &str, contents: &str) -> (r: Self)
        ensures
            r.message_view() == self.message_view(),
            r.changes_view() == self.changes_view().insert(filename@, Some(contents@)),
            r.branches_view() == self.branches_view(),
            r.children_view() == self.children_view(),
            r.id_view() == self.id_view(),
            r.merge_parents_view() == self.merge_parents_view(),
    {
        self.change(filename, Some(contents.to_owned()))
    }

    /// Makes the commit delete the file `filename`.
    pub fn delete(self, filename: &str) -> (r: Self)
        ensures
            r.message_view() == self.message_view(),
            r.changes_view() == self.changes_view().insert(filename@, None),
            r.branches_view() == self.branches_view(),
            r.children_view() == self.children_view(),
            r.id_view() == self.id_view(),
            r.merge_parents_view() == self.merge_parents_view(),
    {
        self.change(filename, None)
    }

    /// Makes one more branch point at the commit.
    pub fn branch(self, branch_name: &str) -> (r: Self)
        ensures
            r.message_view() == self.message_view(),
            r.changes_view() == self.changes_view(),
            r.branches_view() == self.branches_view().push(branch_name@),
            r.children_view() == self.children_view(),
            r.id_view() == self.id_view(),
            r.merge_parents_view() == self.merge_parents_view(),
    {
        proof {
            use_type_invariant(&self);
        }
        let ghost before = self.branches@;
        let mut branches = self.branches;
        branches.push(branch_name.to_owned());
        assert(branches@.map_values(|name: String| name@) =~= before.map_values(
            |name: String| name@,
        ).push(branch_name@));
        CommitDescription { branches, ..self }
    }

    /// Puts one more commit on top of this one.
    pub fn child(self, commit: CommitDescription) -> (r: Self)
        ensures
            r.message_view() == self.message_view(),
            r.changes_view() == self.changes_view(),
            r.branches_view() == self.branches_view(),
            r.children_view() == self.children_view().push(commit),
            r.id_view() == self.id_view(),
            r.merge_parents_view() == self.merge_parents_view(),
    {
        proof {
            use_type_invariant(&self);
        }
        let mut children = self.children;
        children.push(commit);
        CommitDescription { children, ..self }
    }

    /// Gives the commit a number, by which a merge commit can name it.
    pub fn id(self, id: i32) -> (r: Self)
        ensures
            r.message_view() == self.message_view(),
            r.changes_view() == self.changes_view(),
            r.branches_view() == self.branches_view(),
            r.children_view() == self.children_view(),
            r.id_view() == Some(id),
            r.merge_parents_view() == self.merge_parents_view(),
    {
        proof {
            use_type_invariant(&self);
        }
        CommitDescription { id: Some(id), ..self }
    }

    /// Makes the commit a merge with the commit numbered `parent_id` as one
    /// more parent.
    pub fn merge_parent(self, parent_id: i32) -> (r: Self)
        ensures
            r.message_view() == self.message_view(),
            r.changes_view() == self.changes_view(),
            r.branches_view() == self.branches_view(),
            r.children_view() == self.children_view(),
            r.id_view() == self.id_view(),
            r.merge_parents_view() == self.merge_parents_view().push(parent_id),
    {
        proof {
            use_type_invariant(&self);
        }
        let mut merge_parents = self.merge_parents;
        merge_parents.push(parent_id);
        CommitDescription { merge_parents, ..self }
    }

    /// The commit message.
    pub fn get_message(&self) -> (r: &String)
        ensures
            r@ == self.message_view(),
    {
        &self.message
    }

    /// The changes, each file once, in the order in which they were last
    /// asked for.
    pub fn get_changes(&self) -> (r: &Vec<Change>)
        ensures
            change_map(r@) == self.changes_view(),
            distinct_files(r@),
    {
        proof {
            use_type_invariant(self);
        }
        &self.changes
    }

    /// The names of the branches that point at the commit.
    pub fn get_branch_names(&self) -> (r: &Vec<String>)
        ensures
            r@.map_values(|name: String| name@) == self.branches_view(),
    {
        &self.branches
    }

    /// The commits on top of this one.
    pub fn get_children(&self) -> (r: &Vec<CommitDescription>)
        ensures
            r@ == self.children_view(),
    {
        &self.children
    }

    /// The number of the commit, if it has one.
    pub fn get_id(&self) -> (r: Option<i32>)
        ensures
            r == self.id_view(),
    {
        self.id
    }

    /// The numbers of the additional parents.
    pub fn get_merge_parents(&self) -> (r: &Vec<i32>)
        ensures
            r@ == self.merge_parents_view(),
    {
        &self.merge_parents
    }
}

impl Default for CommitDescription {
    fn default() -> (r: Self)
        ensures
            r.message_view() == Seq::<char>::empty(),
            r.changes_view() == Map::<Seq<char>, Option<Seq<char>>>::empty(),
            r.branches_view() == Seq::<Seq<char>>::empty(),
            r.children_view() == Seq::<CommitDescription>::empty(),
            r.id_view() == None::<i32>,
            r.merge_parents_view() == Seq::<i32>::empty(),
    {
        let r = CommitDescription {
            message: String::new(),
            changes: Vec::new(),
            branches: Vec::new(),
            children: Vec::new(),
            id: None,
            merge_parents: Vec::new(),
        };
        assert(r.branches@.map_values(|name: String| name@) =~= Seq::<Seq<char>>::empty());
        r
    }
}

/// A commit with the message `message` that changes nothing, has no branch,
/// no child and no number.
pub fn commit(message: &str) -> (r: CommitDescription)
    ensures
        r.message_view() == message@,
        r.changes_view() == Map::<Seq<char>, Option<Seq<char>>>::empty(),
        r.branches_view() == Seq::<Seq<char>>::empty(),
        r.children_view() == Seq::<CommitDescription>::empty(),
        r.id_view() == None::<i32>,
        r.merge_parents_view() == Seq::<i32>::empty(),
{
    CommitDescription::default().message(message)
}

/// The parents of a commit as arguments: each behind the flag that marks a
/// parent.
pub open spec fn parent_args(parents: Seq<Seq<char>>) -> Seq<Seq<char>>
    decreases parents.len(),
{
    if parents.len() == 0 {
        Seq::empty()
    } else {
        parent_args(parents.drop_last()).push("-p"@).push(parents.last())
    }
}

/// The arguments that make a commit of the tree `tree` with the message
/// `message`, on top of `parent` if there is one, with the commits of
/// `merge_parents` as further parents.
pub open spec fn commit_tree_args_of(
    message: Seq<char>,
    parent: Option<Seq<char>>,
    merge_parents: Seq<Seq<char>>,
    tree: Seq<char>,
) -> Seq<Seq<char>> {
    seq!["commit-tree"@, "-m"@, message] + match parent {
        Some(parent) => seq!["-p"@, parent],
        None => Seq::empty(),
    } + parent_args(merge_parents) + seq![tree]
}

/// The arguments that make a commit.
pub fn commit_tree_args(
    message: &str,
    parent: Option<&str>,
    merge_parents: &Vec<String>,
    tree: &str,
) -> (r: Vec<String>)
    ensures
        crate::text::texts(r@) == commit_tree_args_of(
            message@,
            match parent {
                Some(parent) => Some(parent@),
                None => None,
            },
            crate::text::texts(merge_parents@),
            tree@,
        ),
{
    let mut args: Vec<String> = Vec::new();
    args.push("commit-tree".to_owned());
    args.push("-m".to_owned());
    args.push(message.to_owned());
    match parent {
        Some(parent) => {
            args.push("-p".to_owned());
            args.push(parent.to_owned());
        },
        None => {},
    }
    let ghost head = crate::text::texts(args@);
    assert(head =~= seq!["commit-tree"@, "-m"@, message@] + match parent {
        Some(parent) => seq!["-p"@, parent@],
        None => Seq::empty(),
    });
    let ghost all = crate::text::texts(merge_parents@);
    let mut i: usize = 0;
    assert(all.take(0) =~= Seq::<Seq<char>>::empty());
    while i < merge_parents.len()
        invariant
            i <= merge_parents@.len(),
            all == crate::text::texts(merge_parents@),
            crate::text::texts(args@) == head + parent_args(all.take(i as int)),
        decreases merge_parents@.len() - i,
    {
        let ghost before = crate::text::texts(args@);
        args.push("-p".to_owned());
        args.push(merge_parents[i].clone());
        proof {
            assert(all.take(i as int + 1).drop_last() =~= all.take(i as int));
            assert(all.take(i as int + 1).last() == merge_parents@[i as int]@);
            assert(crate::text::texts(args@) =~= before.push("-p"@).push(merge_parents@[i as int]@));
            assert(before.push("-p"@).push(merge_parents@[i as int]@) =~= head + parent_args(
                all.take(i as int + 1),
            ));
        }
        i += 1;
    }
    assert(all.take(i as int) =~= all);
    let ghost before = crate::text::texts(args@);
    args.push(tree.to_owned());
    assert(crate::text::texts(args@) =~= before + seq![tree@]);
    args
}

/// Two lists that hold the same texts change by change stand for the same map.
pub proof fn lemma_change_map_same(a: Seq<Change>, b: Seq<Change>)
    requires
        a.len() == b.len(),
        forall|k: int|
            0 <= k < a.len() ==> (#[trigger] a[k]).0@ == b[k].0@ && optional_view(a[k].1)
                == optional_view(b[k].1),
    ensures
        change_map(a) == change_map(b),
    decreases a.len(),
{
    if a.len() > 0 {
        assert forall|k: int| 0 <= k < a.drop_last().len() implies (#[trigger] a.drop_last()[k]).0@
            == b.drop_last()[k].0@ && optional_view(a.drop_last()[k].1) == optional_view(
            b.drop_last()[k].1,
        ) by {
            assert(a.drop_last()[k] == a[k]);
        }
        lemma_change_map_same(a.drop_last(), b.drop_last());
        assert(a[a.len() - 1].0@ == b[a.len() - 1].0@);
    }
}

} // verus!
