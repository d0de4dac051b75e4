//! The inventory of local branches.

use vstd::prelude::*;
use crate::failure::Failure;
use vstd::utf8::encode_utf8;
use crate::glob::{glob_match, glob_matches};
use crate::text::{decode, split_fields, split_on, text_of};

verus! {

/// Where a branch is checked out.
#[derive(Debug)]
pub struct WorktreeInfo {
    /// The root of the worktree.
    pub path: String,
    /// Whether both the working tree and the staging area match the tip.
    /// Untracked files do not count.
    pub clean: bool,
}

/// A local branch.
#[derive(Debug)]
pub struct BranchInfo {
    /// The short name of the branch.
    pub branch: String,
    /// The short name of its upstream, if it has one.
    pub upstream: Option<String>,
    /// The worktree that has it checked out, if one has.
    pub worktree: Option<WorktreeInfo>,
}

/// A `WorktreeInfo` as a mathematical value.
pub struct WorktreeView {
    pub path: Seq<char>,
    pub clean: bool,
}

/// A `BranchInfo` as a mathematical value.
pub struct BranchView {
    pub branch: Seq<char>,
    pub upstream: Option<Seq<char>>,
    pub worktree: Option<WorktreeView>,
}

impl View for WorktreeInfo {
    type V = WorktreeView;

    open spec fn view(&self) -> WorktreeView {
        WorktreeView { path: self.path@, clean: self.clean }
    }
}

impl View for BranchInfo {
    type V = BranchView;

    open spec fn view(&self) -> BranchView {
        BranchView {
            branch: self.branch@,
            upstream: match self.upstream {
                Some(name) => Some(name@),
                None => None,
            },
            worktree: match self.worktree {
                Some(tree) => Some(tree@),
                None => None,
            },
        }
    }
}

/// The branches that a vector of records holds.
pub open spec fn branch_views(v: Seq<BranchInfo>) -> Seq<BranchView> {
    v.map_values(|b: BranchInfo| b@)
}

/// The name of the branch that the search for the first conflict makes and
/// deletes again. It is never a branch of the user's.
pub open spec fn temp_branch() -> Seq<char> {
    "autorebase_tmp_safe_to_delete"@
}

/// The name of the temporary branch.
pub fn temp_branch_name() -> (r: String)
    ensures
        r@ == temp_branch(),
{
    "autorebase_tmp_safe_to_delete".to_owned()
}

/// An optional field: empty stands for none.
pub open spec fn optional_text(field: Seq<u8>) -> Option<Option<Seq<char>>> {
    if field.len() == 0 {
        Some(None)
    } else {
        match text_of(field) {
            Some(text) => Some(Some(text)),
            None => None,
        }
    }
}

/// The record that one line of the branch listing stands for: the name, the
/// upstream and the worktree path, with a zero byte between them. A worktree
/// counts as not clean until it has been examined.
pub open spec fn record_of(line: Seq<u8>) -> Result<BranchView, Failure> {
    let fields = split_on(line, 0);
    if fields.len() != 3 {
        Err(Failure::FieldCount(fields.len() as usize))
    } else {
        match (text_of(fields[0]), optional_text(fields[1]), optional_text(fields[2])) {
            (Some(branch), Some(upstream), Some(path)) => Ok(
                BranchView {
                    branch,
                    upstream,
                    worktree: match path {
                        Some(path) => Some(WorktreeView { path, clean: false }),
                        None => None,
                    },
                },
            ),
            _ => Err(Failure::NotUtf8),
        }
    }
}

/// The branches that the lines of a listing stand for. Empty lines stand for
/// nothing, the temporary branch is left out, and the first line that cannot
/// be read decides the error.
pub open spec fn inventory_of(lines: Seq<Seq<u8>>) -> Result<Seq<BranchView>, Failure>
    decreases lines.len(),
{
    if lines.len() == 0 {
        Ok(Seq::empty())
    } else {
        match inventory_of(lines.drop_last()) {
            Err(failure) => Err(failure),
            Ok(before) => if lines.last().len() == 0 {
                Ok(before)
            } else {
                match record_of(lines.last()) {
                    Err(failure) => Err(failure),
                    Ok(record) => if record.branch == temp_branch() {
                        Ok(before)
                    } else {
                        Ok(before.push(record))
                    },
                }
            },
        }
    }
}

/// The branches that the answer to the branch listing stands for: one record
/// per line feed-separated line.
pub open spec fn branches_of(output: Seq<u8>) -> Result<Seq<BranchView>, Failure> {
    inventory_of(split_on(output, 0x0a))
}

/// Reads a field that may be empty.
fn parse_optional(field: &Vec<u8>) -> (r: Option<Option<String>>)
    ensures
        match (r, optional_text(field@)) {
            (Some(Some(text)), Some(Some(expected))) => text@ == expected,
            (Some(None), Some(None)) => true,
            (None, None) => true,
            _ => false,
        },
{
    if field.len() == 0 {
        Some(None)
    } else {
        match decode(field.as_slice()) {
            Some(text) => Some(Some(text)),
            None => None,
        }
    }
}

/// Reads one line of the branch listing.
pub fn parse_record(line: &[u8]) -> (r: Result<BranchInfo, Failure>)
    ensures
        match (r, record_of(line@)) {
            (Ok(record), Ok(expected)) => record@ == expected,
            (Err(failure), Err(expected)) => failure == expected,
            _ => false,
        },
{
    let fields = split_fields(line, 0);
    proof {
        crate::text::lemma_split_on_len(line@, 0);
    }
    if fields.len() != 3 {
        return Err(Failure::FieldCount(fields.len()));
    }
    assert(crate::text::byte_rows(fields@)[0] == fields@[0]@);
    assert(crate::text::byte_rows(fields@)[1] == fields@[1]@);
    assert(crate::text::byte_rows(fields@)[2] == fields@[2]@);
    let branch = match decode(fields[0].as_slice()) {
        Some(branch) => branch,
        None => {
            return Err(Failure::NotUtf8);
        },
    };
    let upstream = match parse_optional(&fields[1]) {
        Some(upstream) => upstream,
        None => {
            return Err(Failure::NotUtf8);
        },
    };
    let worktree = match parse_optional(&fields[2]) {
        Some(Some(path)) => Some(WorktreeInfo { path, clean: false }),
        Some(None) => None,
        None => {
            return Err(Failure::NotUtf8);
        },
    };
    Ok(BranchInfo { branch, upstream, worktree })
}

/// Reads the answer to the branch listing.
pub fn parse_branches(output: &[u8]) -> (r: Result<Vec<BranchInfo>, Failure>)
    ensures
        match (r, branches_of(output@)) {
            (Ok(branches), Ok(expected)) => branch_views(branches@) == expected,
            (Err(failure), Err(expected)) => failure == expected,
            _ => false,
        },
{
    let lines = split_fields(output, 0x0a);
    let temp = temp_branch_name();
    let mut branches: Vec<BranchInfo> = Vec::new();
    let mut i: usize = 0;
    let ghost all = crate::text::byte_rows(lines@);
    assert(all.take(0) =~= Seq::<Seq<u8>>::empty());
    assert(branch_views(branches@) =~= Seq::<BranchView>::empty());
    while i < lines.len()
        invariant
            i <= lines@.len(),
            all == crate::text::byte_rows(lines@),
            all == split_on(output@, 0x0a),
            temp@ == temp_branch(),
            inventory_of(all.take(i as int)) == Ok::<Seq<BranchView>, Failure>(
                branch_views(branches@),
            ),
        decreases lines@.len() - i,
    {
        let line = &lines[i];
        proof {
            assert(all.take(i as int + 1).drop_last() =~= all.take(i as int));
            assert(all.take(i as int + 1).last() == line@);
        }
        if line.len() != 0 {
            match parse_record(line.as_slice()) {
                Err(failure) => {
                    proof {
                        lemma_inventory_error(all, i as int);
                    }
                    return Err(failure);
                },
                Ok(record) => {
                    if record.branch != temp {
                        let ghost before = branch_views(branches@);
                        branches.push(record);
                        assert(branch_views(branches@) =~= before.push(record@));
                    }
                },
            }
        }
        i += 1;
    }
    assert(all.take(i as int) =~= all);
    Ok(branches)
}

/// What a run does with a branch.
#[derive(Clone, Copy, PartialEq, Eq, Structural, Debug)]
pub enum Disposition {
    /// It is the integration branch, onto which the others are rebased.
    Target,
    /// It is left alone because it has an upstream.
    HasUpstream,
    /// It is left alone because it is checked out with changes pending.
    Dirty,
    /// It is left alone because its name does not match the filter.
    Filtered,
    /// It is rebased.
    Eligible,
}

/// What a run onto `onto` does with `branch`. Branches with an upstream are
/// rebased only where `include_non_local` says so, and where there is a
/// filter only the names that match it, as UTF-8 bytes, are.
pub open spec fn disposition_of(
    branch: BranchView,
    onto: Seq<char>,
    include_non_local: bool,
    filter: Option<Seq<char>>,
) -> Disposition {
    if branch.branch == onto {
        Disposition::Target
    } else if !include_non_local && branch.upstream is Some {
        Disposition::HasUpstream
    } else if branch.worktree is Some && !branch.worktree->0.clean {
        Disposition::Dirty
    } else if filter is Some && !glob_matches(encode_utf8(filter->0), encode_utf8(branch.branch)) {
        Disposition::Filtered
    } else {
        Disposition::Eligible
    }
}

/// Decides what a run does with a branch.
pub fn classify(
    branch: &BranchInfo,
    onto: &String,
    include_non_local: bool,
    filter: &Option<String>,
) -> (r: Disposition)
    ensures
        r == disposition_of(
            branch@,
            onto@,
            include_non_local,
            match filter {
                Some(pattern) => Some(pattern@),
                None => None,
            },
        ),
{
    if branch.branch == *onto {
        return Disposition::Target;
    }
    if !include_non_local && branch.upstream.is_some() {
        return Disposition::HasUpstream;
    }
    match &branch.worktree {
        Some(tree) => {
            if !tree.clean {
                return Disposition::Dirty;
            }
        },
        None => {},
    }
    match filter {
        Some(pattern) => {
            if !glob_match(pattern.as_str(), branch.branch.as_str()) {
                return Disposition::Filtered;
            }
        },
        None => {},
    }
    Disposition::Eligible
}

/// Once a prefix of the lines cannot be read, neither can the whole, and the
/// error is the same.
pub proof fn lemma_inventory_error(lines: Seq<Seq<u8>>, i: int)
    requires
        0 <= i < lines.len(),
        inventory_of(lines.take(i + 1)) is Err,
    ensures
        inventory_of(lines) == inventory_of(lines.take(i + 1)),
    decreases lines.len() - i,
{
    if i + 1 < lines.len() {
        assert(lines.take(i + 2).drop_last() =~= lines.take(i + 1));
        lemma_inventory_error(lines, i + 1);
    } else {
        assert(lines.take(i + 1) =~= lines);
    }
}

} // verus!
