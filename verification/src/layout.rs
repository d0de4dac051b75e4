//! Where things are kept: the scratch worktree, the conflict ledger, and the
//! marks that a rebase in progress leaves.

use vstd::prelude::*;
use vstd::string::{StrSliceExecFns, StringExecFns};
use crate::text::{decode, split_fields, split_on, text_of};
use crate::trim::{trimmed, TrimAsciiWhitespace};
use crate::version::starts_with;

verus! {

/// `dir` with `tail` behind it; `tail` starts with its own separator.
pub fn extended(dir: &String, tail: &str) -> (r: String)
    ensures
        r@ == dir@ + tail@,
{
    let mut path = dir.clone();
    path.append(tail);
    path
}

/// The private worktree of a repository whose shared metadata directory is
/// `metadata`.
pub open spec fn scratch_of(metadata: Seq<char>) -> Seq<char> {
    metadata + "/autorebase/autorebase_worktree"@
}

/// The ledger file of a repository whose shared metadata directory is
/// `metadata`.
pub open spec fn ledger_of(metadata: Seq<char>) -> Seq<char> {
    metadata + "/autorebase/conflicts.toml"@
}

/// The metadata directory of the linked worktree named `name`.
pub open spec fn linked_of(metadata: Seq<char>, name: Seq<char>) -> Seq<char> {
    metadata + "/worktrees/"@ + name
}

/// The two directories of which one exists while a rebase is in progress in
/// the worktree whose metadata directory is `gitdir`.
pub open spec fn sentinels_of(gitdir: Seq<char>) -> Seq<Seq<char>> {
    seq![gitdir + "/rebase-apply"@, gitdir + "/rebase-merge"@]
}

/// A path as the program answered it, made absolute: a path that does not
/// start at the root is taken from `dir`.
pub open spec fn absolute_of(dir: Seq<char>, path: Seq<char>) -> Seq<char> {
    if path.len() > 0 && path[0] == '/' {
        path
    } else {
        dir + "/"@ + path
    }
}

/// The words that the link file of a worktree starts with, `gitdir: ` as
/// bytes.
pub open spec fn link_prefix() -> Seq<u8> {
    seq![0x67u8, 0x69, 0x74, 0x64, 0x69, 0x72, 0x3a, 0x20]
}

/// The name of the linked worktree whose link file holds `content`: the last
/// component of the path behind the opening words. `None` where the words are
/// missing or the name is empty or not text.
pub open spec fn link_name_of(content: Seq<u8>) -> Option<Seq<char>> {
    let line = trimmed(content);
    if !starts_with(line, link_prefix()) {
        None
    } else {
        let name = split_on(line.subrange(link_prefix().len() as int, line.len() as int), 0x2f)
            .last();
        if name.len() == 0 {
            None
        } else {
            text_of(name)
        }
    }
}

/// The private worktree.
pub fn scratch_path(metadata: &String) -> (r: String)
    ensures
        r@ == scratch_of(metadata@),
{
    extended(metadata, "/autorebase/autorebase_worktree")
}

/// The ledger file.
pub fn ledger_path(metadata: &String) -> (r: String)
    ensures
        r@ == ledger_of(metadata@),
{
    extended(metadata, "/autorebase/conflicts.toml")
}

/// The metadata directory of a linked worktree.
pub fn linked_gitdir(metadata: &String, name: &String) -> (r: String)
    ensures
        r@ == linked_of(metadata@, name@),
{
    let mut path = extended(metadata, "/worktrees/");
    path.append(name.as_str());
    path
}

/// The directories that show a rebase in progress.
pub fn sentinel_paths(gitdir: &String) -> (r: Vec<String>)
    ensures
        crate::text::texts(r@) == sentinels_of(gitdir@),
{
    let mut paths: Vec<String> = Vec::new();
    paths.push(extended(gitdir, "/rebase-apply"));
    paths.push(extended(gitdir, "/rebase-merge"));
    assert(crate::text::texts(paths@) =~= sentinels_of(gitdir@));
    paths
}

/// Makes an answered path absolute.
pub fn absolute_path(dir: &String, path: String) -> (r: String)
    ensures
        r@ == absolute_of(dir@, path@),
{
    if !path.as_str().is_empty() && path.as_str().get_char(0) == '/' {
        path
    } else {
        let mut joined = extended(dir, "/");
        joined.append(path.as_str());
        joined
    }
}

/// Reads the name of a linked worktree from its link file.
pub fn link_name(content: &[u8]) -> (r: Option<String>)
    ensures
        r is Some <==> link_name_of(content@) is Some,
        r is Some ==> r->0@ == link_name_of(content@)->0,
{
    let line = content.trim_ascii_whitespace();
    let prefix: [u8; 8] = [0x67, 0x69, 0x74, 0x64, 0x69, 0x72, 0x3a, 0x20];
    assert(prefix@ =~= link_prefix());
    if line.len() < 8 {
        return None;
    }
    let mut k: usize = 0;
    while k < 8
        invariant
            k <= 8 <= line@.len(),
            prefix@ == link_prefix(),
            line@ == trimmed(content@),
            forall|j: int| 0 <= j < k ==> line@[j] == #[trigger] prefix@[j],
        decreases 8 - k,
    {
        if line[k] != prefix[k] {
            proof {
                assert(line@.subrange(0, 8)[k as int] == line@[k as int]);
            }
            return None;
        }
        k += 1;
    }
    assert(line@.subrange(0, 8) =~= link_prefix());
    let fields = split_fields(vstd::slice::slice_subrange(line, 8, line.len()), 0x2f);
    proof {
        crate::text::lemma_split_on_len(line@.subrange(8, line@.len() as int), 0x2f);
    }
    let name = &fields[fields.len() - 1];
    assert(crate::text::byte_rows(fields@).last() == name@);
    if name.len() == 0 {
        None
    } else {
        decode(name.as_slice())
    }
}

} // verus!
