//! The commit graph of a repository, read from listings of its commits, to
//! hold a repository against what it should be. The graph is a list of
//! commits in which no commit occurs twice.

use vstd::prelude::*;
use vstd::utf8::{decode_utf8, valid_utf8};
use crate::failure::Failure;
use crate::text::{all_text, byte_rows, lines_of, split_fields, split_lines, split_on, texts, utf8_text};
use crate::trim::{is_ascii_space, is_space, trimmed, TrimAsciiWhitespace};
use crate::version::starts_with;

verus! {

/// What is known of a commit.
#[derive(Debug, PartialEq, Eq)]
pub struct CommitInfo {
    /// The hashes of its parents, in their order.
    pub parents: Vec<String>,
    /// The names that point at it, each once, in the order in which the
    /// listing first gives them.
    pub refs: Vec<String>,
}

/// A `CommitInfo` as a mathematical value.
pub struct CommitView {
    pub parents: Seq<Seq<char>>,
    pub refs: Seq<Seq<char>>,
}

impl View for CommitInfo {
    type V = CommitView;

    open spec fn view(&self) -> CommitView {
        CommitView { parents: texts(self.parents@), refs: texts(self.refs@) }
    }
}

/// A commit with what is known of it.
pub type Node = (Seq<char>, CommitView);

/// The graph that a list of commits stands for.
pub open spec fn graph_view(graph: Seq<(String, CommitInfo)>) -> Seq<Node> {
    graph.map_values(|node: (String, CommitInfo)| (node.0@, node.1@))
}

/// The words of `s`: what stands between ASCII whitespace.
pub open spec fn words_of(s: Seq<u8>) -> Seq<Seq<u8>>
    decreases s.len(),
{
    if s.len() == 0 {
        Seq::empty()
    } else if is_ascii_space(s.last()) {
        words_of(s.drop_last())
    } else if s.len() >= 2 && !is_ascii_space(s[s.len() - 2]) {
        let before = words_of(s.drop_last());
        before.update(before.len() - 1, before.last().push(s.last()))
    } else {
        words_of(s.drop_last()).push(seq![s.last()])
    }
}

/// The words that a name may start with when the worktree is on it, `HEAD -> `
/// as bytes.
pub open spec fn head_arrow() -> Seq<u8> {
    seq![0x48u8, 0x45, 0x41, 0x44, 0x20, 0x2d, 0x3e, 0x20]
}

/// The name of the worktree's own place, `HEAD` as bytes.
pub open spec fn head_name() -> Seq<u8> {
    seq![0x48u8, 0x45, 0x41, 0x44]
}

/// `s` without the opening words, however often they are repeated.
pub open spec fn without_arrows(s: Seq<u8>) -> Seq<u8>
    decreases s.len(),
{
    if starts_with(s, head_arrow()) {
        without_arrows(s.subrange(head_arrow().len() as int, s.len() as int))
    } else {
        s
    }
}

/// The name that a field of a listing of names gives: the field without the
/// ASCII whitespace around it and without the opening words.
pub open spec fn name_of(field: Seq<u8>) -> Seq<u8> {
    without_arrows(trimmed(field))
}

/// The names among the fields behind the first, up to the field at `upto`:
/// each name once, where it is first given, and not the worktree's own place.
pub open spec fn names_of(fields: Seq<Seq<u8>>, upto: int) -> Seq<Seq<u8>>
    decreases upto,
{
    if upto <= 1 {
        Seq::empty()
    } else if name_of(fields[upto - 1]) == head_name() || names_of(fields, upto - 1).contains(
        name_of(fields[upto - 1]),
    ) {
        names_of(fields, upto - 1)
    } else {
        names_of(fields, upto - 1).push(name_of(fields[upto - 1]))
    }
}

/// Nothing occurs twice in the sequence.
pub open spec fn distinct<A>(list: Seq<A>) -> bool {
    forall|i: int, j: int| 0 <= i < j < list.len() ==> list[i] != list[j]
}

/// No commit occurs twice in the graph, and no name twice among the names of
/// a commit.
pub open spec fn well_formed(graph: Seq<Node>) -> bool {
    &&& forall|i: int, j: int| 0 <= i < j < graph.len() ==> graph[i].0 != graph[j].0
    &&& forall|i: int| 0 <= i < graph.len() ==> distinct((#[trigger] graph[i]).1.refs)
}

/// The names of a line are given once each.
pub proof fn lemma_names_distinct(fields: Seq<Seq<u8>>, upto: int)
    ensures
        distinct(names_of(fields, upto)),
    decreases upto,
{
    if upto > 1 {
        lemma_names_distinct(fields, upto - 1);
    }
}

/// Byte strings that differ encode texts that differ.
pub proof fn lemma_decoded_distinct(rows: Seq<Seq<u8>>)
    requires
        all_text(rows),
        distinct(rows),
    ensures
        distinct(decoded(rows)),
{
    assert forall|i: int, j: int| 0 <= i < j < rows.len() implies decoded(rows)[i] != decoded(
        rows,
    )[j] by {
        vstd::utf8::decode_utf8_encode_utf8(rows[i]);
        vstd::utf8::decode_utf8_encode_utf8(rows[j]);
    }
}

/// The place of a commit is the first at which it stands.
pub proof fn lemma_place_of(graph: Seq<Node>, commit: Seq<char>, from: int)
    requires
        0 <= from,
    ensures
        from <= place_of(graph, commit, from) || place_of(graph, commit, from) == graph.len(),
        place_of(graph, commit, from) <= graph.len(),
        place_of(graph, commit, from) < graph.len() ==> graph[place_of(graph, commit, from)].0
            == commit,
        forall|k: int| from <= k < place_of(graph, commit, from) ==> (#[trigger] graph[k]).0 != commit,
    decreases graph.len() - from,
{
    if from < graph.len() && graph[from].0 != commit {
        lemma_place_of(graph, commit, from + 1);
    }
}

/// Setting the parents or the names of a commit keeps the graph well formed.
pub proof fn lemma_set_well_formed(graph: Seq<Node>, commit: Seq<char>, list: Seq<Seq<char>>)
    requires
        well_formed(graph),
        distinct(list),
    ensures
        well_formed(with_parents(graph, commit, list)),
        well_formed(with_refs(graph, commit, list)),
{
    lemma_place_of(graph, commit, 0);
    assert(distinct(Seq::<Seq<char>>::empty()));
}

/// The graph stays well formed line by line.
pub proof fn lemma_parents_well_formed(graph: Seq<Node>, lines: Seq<Seq<u8>>, upto: int)
    requires
        well_formed(graph),
    ensures
        parents_into(graph, lines, upto) is Ok ==> well_formed(
            parents_into(graph, lines, upto)->Ok_0,
        ),
    decreases upto,
{
    if upto > 0 {
        lemma_parents_well_formed(graph, lines, upto - 1);
        match parents_into(graph, lines, upto - 1) {
            Ok(before) => {
                let words = words_of(lines[upto - 1]);
                lemma_place_of(before, decode_utf8(words[0]), 0);
            },
            Err(_) => {},
        }
    }
}

/// The graph stays well formed line by line.
pub proof fn lemma_refs_well_formed(graph: Seq<Node>, lines: Seq<Seq<u8>>, upto: int)
    requires
        well_formed(graph),
    ensures
        refs_into(graph, lines, upto) is Ok ==> well_formed(refs_into(graph, lines, upto)->Ok_0),
    decreases upto,
{
    if upto > 0 {
        lemma_refs_well_formed(graph, lines, upto - 1);
        match refs_into(graph, lines, upto - 1) {
            Ok(before) => {
                let fields = split_on(lines[upto - 1], 0x2c);
                let names = names_of(fields, fields.len() as int);
                lemma_names_distinct(fields, fields.len() as int);
                if valid_utf8(fields[0]) && all_text(names) {
                    lemma_decoded_distinct(names);
                    lemma_set_well_formed(before, decode_utf8(fields[0]), decoded(names));
                }
            },
            Err(_) => {},
        }
    }
}

/// The graph that two listings stand for names no commit twice, and no name
/// twice for a commit.
pub proof fn law_graph_is_well_formed(parents: Seq<u8>, refs: Seq<u8>)
    ensures
        graph_of(parents, refs) is Ok ==> well_formed(graph_of(parents, refs)->Ok_0),
{
    let first = lines_of(parents);
    lemma_parents_well_formed(Seq::empty(), first, first.len() as int);
    match parents_into(Seq::empty(), first, first.len() as int) {
        Ok(graph) => {
            lemma_refs_well_formed(graph, lines_of(refs), lines_of(refs).len() as int);
        },
        Err(_) => {},
    }
}

/// Where the commit `commit` stands in the graph from `from` on, or the
/// length of the graph where it does not.
pub open spec fn place_of(graph: Seq<Node>, commit: Seq<char>, from: int) -> int
    decreases graph.len() - from,
{
    if from < 0 || from >= graph.len() {
        graph.len() as int
    } else if graph[from].0 == commit {
        from
    } else {
        place_of(graph, commit, from + 1)
    }
}

/// The graph with the parents of `commit` set; a commit that is new comes
/// last, with no names.
pub open spec fn with_parents(graph: Seq<Node>, commit: Seq<char>, parents: Seq<Seq<char>>) -> Seq<Node> {
    let at = place_of(graph, commit, 0);
    if at < graph.len() {
        graph.update(at, (commit, CommitView { parents, refs: graph[at].1.refs }))
    } else {
        graph.push((commit, CommitView { parents, refs: Seq::empty() }))
    }
}

/// The graph with the names of `commit` set; a commit that is new comes
/// last, with no parents.
pub open spec fn with_refs(graph: Seq<Node>, commit: Seq<char>, refs: Seq<Seq<char>>) -> Seq<Node> {
    let at = place_of(graph, commit, 0);
    if at < graph.len() {
        graph.update(at, (commit, CommitView { parents: graph[at].1.parents, refs }))
    } else {
        graph.push((commit, CommitView { parents: Seq::empty(), refs }))
    }
}

/// The texts that byte strings encode.
pub open spec fn decoded(rows: Seq<Seq<u8>>) -> Seq<Seq<char>> {
    rows.map_values(|row: Seq<u8>| decode_utf8(row))
}

/// The graph after the first `upto` lines of a listing of commits with their
/// parents: the first word of a line is a commit, the others are its parents.
/// A line without words, or one that is not text, is a failure.
pub open spec fn parents_into(graph: Seq<Node>, lines: Seq<Seq<u8>>, upto: int) -> Result<Seq<Node>, Failure>
    decreases upto,
{
    if upto <= 0 {
        Ok(graph)
    } else {
        match parents_into(graph, lines, upto - 1) {
            Err(failure) => Err(failure),
            Ok(before) => {
                let words = words_of(lines[upto - 1]);
                if words.len() == 0 {
                    Err(Failure::BadListing)
                } else if !all_text(words) {
                    Err(Failure::NotUtf8)
                } else {
                    Ok(with_parents(before, decode_utf8(words[0]), decoded(words.skip(1))))
                }
            },
        }
    }
}

/// The graph after the first `upto` lines of a listing of commits with the
/// names that point at them: a line holds a commit and then, each behind a
/// comma, the names.
pub open spec fn refs_into(graph: Seq<Node>, lines: Seq<Seq<u8>>, upto: int) -> Result<Seq<Node>, Failure>
    decreases upto,
{
    if upto <= 0 {
        Ok(graph)
    } else {
        match refs_into(graph, lines, upto - 1) {
            Err(failure) => Err(failure),
            Ok(before) => {
                let fields = split_on(lines[upto - 1], 0x2c);
                let names = names_of(fields, fields.len() as int);
                if !valid_utf8(fields[0]) || !all_text(names) {
                    Err(Failure::NotUtf8)
                } else {
                    Ok(with_refs(before, decode_utf8(fields[0]), decoded(names)))
                }
            },
        }
    }
}

/// The graph that the two listings stand for: the commits in the order in
/// which the listings first name them, each with its parents from the first
/// listing and its names from the second.
pub open spec fn graph_of(parents: Seq<u8>, refs: Seq<u8>) -> Result<Seq<Node>, Failure> {
    match parents_into(Seq::empty(), lines_of(parents), lines_of(parents).len() as int) {
        Err(failure) => Err(failure),
        Ok(graph) => refs_into(graph, lines_of(refs), lines_of(refs).len() as int),
    }
}

/// Cuts `line` into its words.
pub fn split_words(line: &[u8]) -> (r: Vec<Vec<u8>>)
    ensures
        byte_rows(r@) == words_of(line@),
{
    let mut done: Vec<Vec<u8>> = Vec::new();
    let mut word: Vec<u8> = Vec::new();
    let mut i: usize = 0;
    assert(line@.take(0) =~= Seq::<u8>::empty());
    assert(byte_rows(done@) =~= Seq::<Seq<u8>>::empty());
    while i < line.len()
        invariant
            i <= line@.len(),
            word@.len() > 0 <==> i > 0 && !is_ascii_space(line@[i - 1]),
            words_of(line@.take(i as int)) == if word@.len() > 0 {
                byte_rows(done@).push(word@)
            } else {
                byte_rows(done@)
            },
        decreases line@.len() - i,
    {
        let b = line[i];
        proof {
            let now = line@.take(i as int + 1);
            assert(now.drop_last() =~= line@.take(i as int));
            assert(now.last() == b);
            if i > 0 {
                assert(now[now.len() - 2] == line@[i - 1]);
            }
        }
        let ghost before = byte_rows(done@);
        let ghost current = word@;
        if is_space(b) {
            if word.len() > 0 {
                done.push(word);
                word = Vec::new();
                assert(byte_rows(done@) =~= before.push(current));
            }
        } else {
            word.push(b);
            proof {
                if current.len() > 0 {
                    assert(before.push(current).update(before.len() as int, current.push(b))
                        =~= before.push(word@));
                } else {
                    assert(word@ =~= seq![b]);
                }
            }
        }
        i += 1;
    }
    assert(line@.take(i as int) =~= line@);
    if word.len() > 0 {
        let ghost before = byte_rows(done@);
        done.push(word);
        assert(byte_rows(done@) =~= before.push(word@));
    }
    done
}

/// Reads byte strings as texts; `None` where one of them is not text.
pub fn decode_all(rows: &Vec<Vec<u8>>) -> (r: Option<Vec<String>>)
    ensures
        r is Some <==> all_text(byte_rows(rows@)),
        r is Some ==> texts(r->0@) == decoded(byte_rows(rows@)),
{
    let ghost wanted = byte_rows(rows@);
    let mut out: Vec<String> = Vec::new();
    let mut i: usize = 0;
    while i < rows.len()
        invariant
            i <= rows@.len(),
            wanted == byte_rows(rows@),
            out@.len() == i,
            forall|k: int| 0 <= k < i ==> valid_utf8(#[trigger] wanted[k]),
            forall|k: int| 0 <= k < i ==> (#[trigger] out@[k])@ == decode_utf8(wanted[k]),
        decreases rows@.len() - i,
    {
        assert(wanted[i as int] == rows@[i as int]@);
        match utf8_text(rows[i].as_slice()) {
            Some(text) => {
                out.push(text);
            },
            None => {
                return None;
            },
        }
        i += 1;
    }
    assert(texts(out@) =~= decoded(wanted));
    Some(out)
}

/// Whether what is left of `line` from `from` on starts with the opening
/// words.
fn has_arrow(line: &[u8], from: usize) -> (r: bool)
    requires
        from <= line@.len(),
    ensures
        r == starts_with(line@.subrange(from as int, line@.len() as int), head_arrow()),
{
    let arrow: [u8; 8] = [0x48, 0x45, 0x41, 0x44, 0x20, 0x2d, 0x3e, 0x20];
    assert(arrow@ =~= head_arrow());
    let n = line.len();
    let ghost rest = line@.subrange(from as int, n as int);
    if n - from < 8 {
        return false;
    }
    let mut k: usize = 0;
    while k < 8
        invariant
            k <= 8,
            from + 8 <= n,
            n == line@.len(),
            arrow@ == head_arrow(),
            rest == line@.subrange(from as int, n as int),
            forall|j: int| 0 <= j < k ==> line@[from + j] == #[trigger] arrow@[j],
        decreases 8 - k,
    {
        if line[from + k] != arrow[k] {
            proof {
                assert(rest.subrange(0, 8)[k as int] == line@[from + k]);
            }
            return false;
        }
        k += 1;
    }
    proof {
        assert(rest.subrange(0, 8) =~= head_arrow()) by {
            assert forall|j: int| 0 <= j < 8 implies rest.subrange(0, 8)[j] == head_arrow()[j] by {
                assert(line@[from + j] == arrow@[j]);
            }
        }
    }
    true
}

/// The field without the whitespace around it and without the opening words.
fn field_name(field: &[u8]) -> (r: Vec<u8>)
    ensures
        r@ == name_of(field@),
{
    let inner = field.trim_ascii_whitespace();
    let n = inner.len();
    let mut from: usize = 0;
    assert(inner@.subrange(0, n as int) =~= inner@);
    while has_arrow(inner, from)
        invariant
            from <= n,
            n == inner@.len(),
            without_arrows(inner@) == without_arrows(inner@.subrange(from as int, n as int)),
        decreases n - from,
    {
        proof {
            let rest = inner@.subrange(from as int, n as int);
            assert(rest.subrange(8, rest.len() as int) =~= inner@.subrange(from + 8, n as int));
        }
        from += 8;
    }
    let name = vstd::slice::slice_subrange(inner, from, n);
    vstd::slice::slice_to_vec(name)
}

/// Whether the two byte strings are the same.
fn same_bytes(a: &Vec<u8>, b: &Vec<u8>) -> (r: bool)
    ensures
        r == (a@ == b@),
{
    if a.len() != b.len() {
        return false;
    }
    let mut i: usize = 0;
    while i < a.len()
        invariant
            i <= a@.len(),
            a@.len() == b@.len(),
            forall|k: int| 0 <= k < i ==> a@[k] == b@[k],
        decreases a@.len() - i,
    {
        if a[i] != b[i] {
            return false;
        }
        i += 1;
    }
    assert(a@ =~= b@);
    true
}

/// Whether `name` is among `names`.
fn is_listed(names: &Vec<Vec<u8>>, name: &Vec<u8>) -> (r: bool)
    ensures
        r == byte_rows(names@).contains(name@),
{
    let mut i: usize = 0;
    while i < names.len()
        invariant
            i <= names@.len(),
            forall|k: int| 0 <= k < i ==> byte_rows(names@)[k] != name@,
        decreases names@.len() - i,
    {
        assert(byte_rows(names@)[i as int] == names@[i as int]@);
        if same_bytes(&names[i], name) {
            return true;
        }
        i += 1;
    }
    false
}

/// Whether `name` is the name of the worktree's own place.
fn is_head(name: &Vec<u8>) -> (r: bool)
    ensures
        r == (name@ == head_name()),
{
    let r = name.len() == 4 && name[0] == 0x48 && name[1] == 0x45 && name[2] == 0x41 && name[3]
        == 0x44;
    proof {
        if r {
            assert(name@ =~= head_name());
        }
    }
    r
}

/// Where `commit` stands in the graph.
fn find_commit(graph: &Vec<(String, CommitInfo)>, commit: &String) -> (r: usize)
    ensures
        r == place_of(graph_view(graph@), commit@, 0),
        r <= graph@.len(),
{
    let mut i: usize = 0;
    while i < graph.len() && graph[i].0 != *commit
        invariant
            i <= graph@.len(),
            place_of(graph_view(graph@), commit@, 0) == place_of(
                graph_view(graph@),
                commit@,
                i as int,
            ),
        decreases graph@.len() - i,
    {
        i += 1;
    }
    i
}

/// Reads the graph of a repository from a listing of its commits with their
/// parents and a listing of its commits with the names that point at them.
pub fn get_repo_graph(parents: &[u8], refs: &[u8]) -> (r: Result<Vec<(String, CommitInfo)>, Failure>)
    ensures
        match (r, graph_of(parents@, refs@)) {
            (Ok(graph), Ok(expected)) => graph_view(graph@) == expected && well_formed(expected),
            (Err(failure), Err(expected)) => failure == expected,
            _ => false,
        },
{
    proof {
        law_graph_is_well_formed(parents@, refs@);
    }
    let mut graph: Vec<(String, CommitInfo)> = Vec::new();
    let lines = split_lines(parents);
    let ghost rows = byte_rows(lines@);
    let mut i: usize = 0;
    assert(graph_view(graph@) =~= Seq::<Node>::empty());
    while i < lines.len()
        invariant
            i <= lines@.len(),
            rows == byte_rows(lines@),
            rows == lines_of(parents@),
            parents_into(Seq::empty(), rows, i as int) == Ok::<Seq<Node>, Failure>(
                graph_view(graph@),
            ),
        decreases lines@.len() - i,
    {
        assert(rows[i as int] == lines@[i as int]@);
        let words = split_words(lines[i].as_slice());
        if words.len() == 0 {
            proof {
                lemma_parents_failure(Seq::empty(), rows, i as int + 1, rows.len() as int);
            }
            return Err(Failure::BadListing);
        }
        let mut texts = match decode_all(&words) {
            Some(texts) => texts,
            None => {
                proof {
                    lemma_parents_failure(Seq::empty(), rows, i as int + 1, rows.len() as int);
                }
                return Err(Failure::NotUtf8);
            },
        };
        let ghost all = crate::text::texts(texts@);
        assert(texts@.len() == all.len());
        assert(all[0] == texts@[0]@);
        assert(all[0] == decode_utf8(words_of(rows[i as int])[0]));
        let commit = texts.remove(0);
        assert(commit@ == all[0]);
        assert(crate::text::texts(texts@) =~= all.skip(1));
        assert(decoded(words_of(rows[i as int])).skip(1) =~= decoded(
            words_of(rows[i as int]).skip(1),
        ));
        let at = find_commit(&graph, &commit);
        let ghost before = graph_view(graph@);
        let ghost was = graph@;
        if at < graph.len() {
            let old = graph.remove(at);
            let info = CommitInfo { parents: texts, refs: old.1.refs };
            let ghost node = (commit, info);
            graph.insert(at, (commit, info));
            assert(graph@ =~= was.update(at as int, node));
            assert(graph_view(graph@) =~= with_parents(before, node.0@, all.skip(1)));
        } else {
            let ghost name = commit@;
            graph.push((commit, CommitInfo { parents: texts, refs: Vec::new() }));
            assert(crate::text::texts(Seq::<String>::empty()) =~= Seq::<Seq<char>>::empty());
            assert(graph_view(graph@) =~= with_parents(before, name, all.skip(1)));
        }
        i += 1;
    }
    let lines = split_lines(refs);
    let ghost first = graph_view(graph@);
    let ghost rows = byte_rows(lines@);
    let mut i: usize = 0;
    while i < lines.len()
        invariant
            i <= lines@.len(),
            rows == byte_rows(lines@),
            rows == lines_of(refs@),
            graph_of(parents@, refs@) == refs_into(first, rows, rows.len() as int),
            refs_into(first, rows, i as int) == Ok::<Seq<Node>, Failure>(graph_view(graph@)),
        decreases lines@.len() - i,
    {
        assert(rows[i as int] == lines@[i as int]@);
        let fields = split_fields(lines[i].as_slice(), 0x2c);
        proof {
            crate::text::lemma_split_on_len(rows[i as int], 0x2c);
        }
        let ghost cut = byte_rows(fields@);
        let mut names: Vec<Vec<u8>> = Vec::new();
        let mut k: usize = 1;
        assert(byte_rows(names@) =~= names_of(cut, 1));
        while k < fields.len()
            invariant
                1 <= k <= fields@.len(),
                cut == byte_rows(fields@),
                byte_rows(names@) == names_of(cut, k as int),
            decreases fields@.len() - k,
        {
            assert(cut[k as int] == fields@[k as int]@);
            let name = field_name(fields[k].as_slice());
            let ghost so_far = byte_rows(names@);
            if !is_head(&name) && !is_listed(&names, &name) {
                names.push(name);
                assert(byte_rows(names@) =~= so_far.push(name@));
            }
            k += 1;
        }
        assert(cut[0] == fields@[0]@);
        let commit = match utf8_text(fields[0].as_slice()) {
            Some(commit) => commit,
            None => {
                proof {
                    lemma_refs_failure(first, rows, i as int + 1, rows.len() as int);
                }
                return Err(Failure::NotUtf8);
            },
        };
        let refs_texts = match decode_all(&names) {
            Some(texts) => texts,
            None => {
                proof {
                    lemma_refs_failure(first, rows, i as int + 1, rows.len() as int);
                }
                return Err(Failure::NotUtf8);
            },
        };
        let at = find_commit(&graph, &commit);
        let ghost before = graph_view(graph@);
        let ghost was = graph@;
        let ghost listed = crate::text::texts(refs_texts@);
        if at < graph.len() {
            let old = graph.remove(at);
            let info = CommitInfo { parents: old.1.parents, refs: refs_texts };
            let ghost node = (commit, info);
            graph.insert(at, (commit, info));
            assert(graph@ =~= was.update(at as int, node));
            assert(graph_view(graph@) =~= with_refs(before, node.0@, listed));
        } else {
            let ghost name = commit@;
            graph.push((commit, CommitInfo { parents: Vec::new(), refs: refs_texts }));
            assert(crate::text::texts(Seq::<String>::empty()) =~= Seq::<Seq<char>>::empty());
            assert(graph_view(graph@) =~= with_refs(before, name, listed));
        }
        i += 1;
    }
    Ok(graph)
}

/// Once a line of the first listing cannot be read, the failure stays.
pub proof fn lemma_parents_failure(graph: Seq<Node>, lines: Seq<Seq<u8>>, at: int, upto: int)
    requires
        0 <= at <= upto,
        parents_into(graph, lines, at) is Err,
    ensures
        parents_into(graph, lines, upto) == parents_into(graph, lines, at),
    decreases upto - at,
{
    if at < upto {
        lemma_parents_failure(graph, lines, at, upto - 1);
    }
}

/// Once a line of the second listing cannot be read, the failure stays.
pub proof fn lemma_refs_failure(graph: Seq<Node>, lines: Seq<Seq<u8>>, at: int, upto: int)
    requires
        0 <= at <= upto,
        refs_into(graph, lines, at) is Err,
    ensures
        refs_into(graph, lines, upto) == refs_into(graph, lines, at),
    decreases upto - at,
{
    if at < upto {
        lemma_refs_failure(graph, lines, at, upto - 1);
    }
}

} // verus!
