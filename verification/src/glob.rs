//! Matching of branch names against patterns with `*` wildcards.

use vstd::prelude::*;
use vstd::string::StringSliceAdditionalSpecFns;
use itertools::Itertools;

verus! {

/// The wildcard byte, `*`.
pub const STAR: u8 = 0x2a;

/// Whether `text` matches `pattern`: a `*` in the pattern stands for any
/// bytes, none included, and every other byte stands for itself. A wildcard
/// either stands for nothing, or takes the first byte of the text and stays.
pub open spec fn glob_matches(pattern: Seq<u8>, text: Seq<u8>) -> bool
    decreases pattern.len(), text.len(),
{
    if pattern.len() == 0 {
        text.len() == 0
    } else if pattern[0] == STAR {
        glob_matches(pattern.drop_first(), text) || (text.len() > 0 && glob_matches(
            pattern,
            text.drop_first(),
        ))
    } else {
        text.len() > 0 && text[0] == pattern[0] && glob_matches(
            pattern.drop_first(),
            text.drop_first(),
        )
    }
}

/// A pattern that starts with a wildcard matches a text as soon as the rest
/// of the pattern matches what is left of the text from some place on.
pub proof fn lemma_star_skips(pattern: Seq<u8>, text: Seq<u8>, k: int)
    requires
        pattern.len() > 0,
        pattern[0] == STAR,
        0 <= k <= text.len(),
        glob_matches(pattern.drop_first(), text.subrange(k, text.len() as int)),
    ensures
        glob_matches(pattern, text),
    decreases k,
{
    if k == 0 {
        assert(text.subrange(0, text.len() as int) =~= text);
    } else {
        let later = text.drop_first();
        assert(later.subrange(k - 1, later.len() as int) =~= text.subrange(k, text.len() as int));
        lemma_star_skips(pattern, later, k - 1);
    }
}

/// Where a pattern that starts with a wildcard matches a text, the rest of
/// the pattern matches what is left of the text from some place on; the
/// result is such a place.
pub proof fn lemma_star_place(pattern: Seq<u8>, text: Seq<u8>) -> (k: int)
    requires
        pattern.len() > 0,
        pattern[0] == STAR,
        glob_matches(pattern, text),
    ensures
        0 <= k <= text.len(),
        glob_matches(pattern.drop_first(), text.subrange(k, text.len() as int)),
    decreases text.len(),
{
    if glob_matches(pattern.drop_first(), text) {
        assert(text.subrange(0, text.len() as int) =~= text);
        0
    } else {
        let later = text.drop_first();
        let place = lemma_star_place(pattern, later);
        assert(later.subrange(place, later.len() as int) =~= text.subrange(place + 1, text.len() as int));
        place + 1
    }
}

/// No byte of `pattern` from `from` up to `to` is the wildcard.
pub open spec fn star_free(pattern: Seq<u8>, from: int, to: int) -> bool {
    forall|j: int| from <= j < to ==> #[trigger] pattern[j] != STAR
}

/// The bytes of `pattern` from `from` up to `to` stand in `text` at `at`.
pub open spec fn occurs_at(text: Seq<u8>, at: int, pattern: Seq<u8>, from: int, to: int) -> bool {
    &&& 0 <= at
    &&& at + (to - from) <= text.len()
    &&& forall|j: int| 0 <= j < to - from ==> #[trigger] text[at + j] == pattern[from + j]
}

/// The ranges of `pattern` between its wildcards: the first starts at the
/// start, each ends at a wildcard or at the end, and the next starts behind
/// that wildcard.
pub open spec fn parts_of(pattern: Seq<u8>, parts: Seq<(usize, usize)>) -> bool {
    &&& parts.len() >= 1
    &&& parts[0].0 == 0
    &&& parts.last().1 == pattern.len()
    &&& forall|i: int|
        0 <= i < parts.len() ==> (#[trigger] parts[i]).0 <= parts[i].1 <= pattern.len()
            && star_free(pattern, parts[i].0 as int, parts[i].1 as int)
    &&& forall|i: int|
        0 <= i < parts.len() - 1 ==> pattern[(#[trigger] parts[i]).1 as int] == STAR && parts[i
            + 1].0 == parts[i].1 + 1
}

/// A pattern that starts without wildcards matches a text exactly when the
/// text starts with those bytes and the rest of the pattern matches the rest
/// of the text.
pub proof fn lemma_literal_prefix(pattern: Seq<u8>, text: Seq<u8>, n: int)
    requires
        0 <= n <= pattern.len(),
        star_free(pattern, 0, n),
    ensures
        glob_matches(pattern, text) <==> occurs_at(text, 0, pattern, 0, n) && glob_matches(
            pattern.subrange(n, pattern.len() as int),
            text.subrange(n, text.len() as int),
        ),
    decreases n,
{
    if n == 0 {
        assert(pattern.subrange(0, pattern.len() as int) =~= pattern);
        assert(text.subrange(0, text.len() as int) =~= text);
    } else {
        assert(pattern[0] != STAR);
        let shorter = pattern.drop_first();
        let later = text.drop_first();
        if text.len() > 0 {
            assert forall|j: int| 0 <= j < n - 1 implies #[trigger] shorter[j] != STAR by {
                assert(shorter[j] == pattern[j + 1]);
            }
            lemma_literal_prefix(shorter, later, n - 1);
            assert(shorter.subrange(n - 1, shorter.len() as int) =~= pattern.subrange(
                n,
                pattern.len() as int,
            ));
            if text.len() >= n {
                assert(later.subrange(n - 1, later.len() as int) =~= text.subrange(
                    n,
                    text.len() as int,
                ));
            }
            if occurs_at(text, 0, pattern, 0, n) {
                assert(text[0int + 0] == pattern[0int + 0]);
                assert forall|j: int| 0 <= j < n - 1 implies #[trigger] later[0 + j] == shorter[0 + j] by {
                    assert(text[0 + (j + 1)] == pattern[0 + (j + 1)]);
                }
            }
            if text[0] == pattern[0] && occurs_at(later, 0, shorter, 0, n - 1) {
                assert forall|j: int| 0 <= j < n implies #[trigger] text[0 + j] == pattern[0 + j] by {
                    if j > 0 {
                        assert(later[0 + (j - 1)] == shorter[0 + (j - 1)]);
                    }
                }
            }
        }
    }
}

/// A pattern without wildcards matches itself and nothing else.
pub proof fn lemma_literal(pattern: Seq<u8>, text: Seq<u8>)
    requires
        star_free(pattern, 0, pattern.len() as int),
    ensures
        glob_matches(pattern, text) <==> text == pattern,
{
    let n = pattern.len() as int;
    lemma_literal_prefix(pattern, text, n);
    assert(pattern.subrange(n, n) =~= Seq::<u8>::empty());
    if text == pattern {
        assert(text.subrange(n, text.len() as int) =~= Seq::<u8>::empty());
    }
    if occurs_at(text, 0, pattern, 0, n) && glob_matches(
        pattern.subrange(n, n),
        text.subrange(n, text.len() as int),
    ) {
        assert(text.subrange(n, text.len() as int).len() == 0);
        assert forall|j: int| 0 <= j < n implies text[j] == pattern[j] by {
            assert(text[0 + j] == pattern[0 + j]);
        }
        assert(text =~= pattern);
    }
}

/// A pattern that starts with a wildcard matches a text as soon as it matches
/// what is left of the text from some place on.
pub proof fn lemma_star_absorbs(pattern: Seq<u8>, text: Seq<u8>, from: int)
    requires
        pattern.len() > 0,
        pattern[0] == STAR,
        0 <= from <= text.len(),
        glob_matches(pattern, text.subrange(from, text.len() as int)),
    ensures
        glob_matches(pattern, text),
{
    let rest = text.subrange(from, text.len() as int);
    let k = lemma_star_place(pattern, rest);
    assert(rest.subrange(k, rest.len() as int) =~= text.subrange(from + k, text.len() as int));
    lemma_star_skips(pattern, text, from + k);
}

/// Behind a wildcard, a part that another wildcard follows may be taken where
/// it first occurs: the pattern `*`, part, rest matches exactly when the part
/// occurs and the rest, from the wildcard on, matches what follows its first
/// occurrence.
pub proof fn lemma_first_occurrence(pattern: Seq<u8>, text: Seq<u8>, end: int, first: int)
    requires
        1 <= end < pattern.len(),
        pattern[0] == STAR,
        pattern[end] == STAR,
        star_free(pattern, 1, end),
        occurs_at(text, first, pattern, 1, end),
        forall|k: int| 0 <= k < first ==> !occurs_at(text, k, pattern, 1, end),
    ensures
        glob_matches(pattern, text) <==> glob_matches(
            pattern.subrange(end, pattern.len() as int),
            text.subrange(first + end - 1, text.len() as int),
        ),
{
    let shorter = pattern.drop_first();
    let rest = pattern.subrange(end, pattern.len() as int);
    let n = end - 1;
    assert(rest[0] == STAR);
    assert forall|j: int| 0 <= j < n implies #[trigger] shorter[j] != STAR by {
        assert(shorter[j] == pattern[j + 1]);
    }
    assert(shorter.subrange(n, shorter.len() as int) =~= rest);
    if glob_matches(pattern, text) {
        let k = lemma_star_place(pattern, text);
        let tk = text.subrange(k, text.len() as int);
        lemma_literal_prefix(shorter, tk, n);
        assert(occurs_at(text, k, pattern, 1, end)) by {
            assert forall|j: int| 0 <= j < n implies #[trigger] text[k + j] == pattern[1 + j] by {
                assert(tk[0 + j] == shorter[0 + j]);
            }
        }
        assert(k >= first);
        let after = text.subrange(first + n, text.len() as int);
        assert(tk.subrange(n, tk.len() as int) =~= after.subrange(k - first, after.len() as int));
        lemma_star_absorbs(rest, after, k - first);
    }
    if glob_matches(rest, text.subrange(first + n, text.len() as int)) {
        let tf = text.subrange(first, text.len() as int);
        lemma_literal_prefix(shorter, tf, n);
        assert(occurs_at(tf, 0, shorter, 0, n)) by {
            assert forall|j: int| 0 <= j < n implies #[trigger] tf[0 + j] == shorter[0 + j] by {
                assert(text[first + j] == pattern[1 + j]);
            }
        }
        assert(tf.subrange(n, tf.len() as int) =~= text.subrange(first + n, text.len() as int));
        assert(glob_matches(shorter, tf));
        lemma_star_skips(pattern, text, first);
    }
}

/// Behind a wildcard, a part that no wildcard follows must end the text, and
/// where it occurs nowhere the pattern does not match.
pub proof fn lemma_last_part(pattern: Seq<u8>, text: Seq<u8>)
    requires
        pattern.len() >= 1,
        pattern[0] == STAR,
        star_free(pattern, 1, pattern.len() as int),
    ensures
        glob_matches(pattern, text) <==> occurs_at(
            text,
            text.len() - (pattern.len() - 1),
            pattern,
            1,
            pattern.len() as int,
        ),
{
    let shorter = pattern.drop_first();
    let n = shorter.len() as int;
    let at = text.len() - n;
    assert forall|j: int| 0 <= j < n implies #[trigger] shorter[j] != STAR by {
        assert(shorter[j] == pattern[j + 1]);
    }
    if glob_matches(pattern, text) {
        let k = lemma_star_place(pattern, text);
        let tk = text.subrange(k, text.len() as int);
        lemma_literal(shorter, tk);
        assert(k == at);
        assert forall|j: int| 0 <= j < n implies #[trigger] text[at + j] == pattern[1 + j] by {
            assert(tk[j] == shorter[j]);
        }
    }
    if occurs_at(text, at, pattern, 1, pattern.len() as int) {
        let ta = text.subrange(at, text.len() as int);
        assert(ta =~= shorter) by {
            assert forall|j: int| 0 <= j < n implies ta[j] == shorter[j] by {
                assert(text[at + j] == pattern[1 + j]);
            }
        }
        lemma_literal(shorter, ta);
        lemma_star_skips(pattern, text, at);
    }
}

/// Without an occurrence of the part behind a wildcard the pattern does not
/// match.
pub proof fn lemma_no_occurrence(pattern: Seq<u8>, text: Seq<u8>, end: int)
    requires
        1 <= end <= pattern.len(),
        pattern[0] == STAR,
        star_free(pattern, 1, end),
        forall|k: int| 0 <= k <= text.len() ==> !occurs_at(text, k, pattern, 1, end),
    ensures
        !glob_matches(pattern, text),
{
    let shorter = pattern.drop_first();
    let n = end - 1;
    assert forall|j: int| 0 <= j < n implies #[trigger] shorter[j] != STAR by {
        assert(shorter[j] == pattern[j + 1]);
    }
    if glob_matches(pattern, text) {
        let k = lemma_star_place(pattern, text);
        let tk = text.subrange(k, text.len() as int);
        lemma_literal_prefix(shorter, tk, n);
        assert(occurs_at(text, k, pattern, 1, end)) by {
            assert forall|j: int| 0 <= j < n implies #[trigger] text[k + j] == pattern[1 + j] by {
                assert(tk[0 + j] == shorter[0 + j]);
            }
        }
    }
}

/// Cuts `pattern` at its wildcards.
fn split_parts(pattern: &[u8]) -> (parts: Vec<(usize, usize)>)
    ensures
        parts_of(pattern@, parts@),
{
    let mut parts: Vec<(usize, usize)> = Vec::new();
    let mut start: usize = 0;
    let mut i: usize = 0;
    while i < pattern.len()
        invariant
            start <= i <= pattern@.len(),
            star_free(pattern@, start as int, i as int),
            parts@.len() == 0 ==> start == 0,
            parts@.len() > 0 ==> parts@[0].0 == 0 && start == parts@.last().1 + 1,
            forall|k: int|
                0 <= k < parts@.len() ==> (#[trigger] parts@[k]).0 <= parts@[k].1 < pattern@.len()
                    && star_free(pattern@, parts@[k].0 as int, parts@[k].1 as int)
                    && pattern@[parts@[k].1 as int] == STAR,
            forall|k: int| 0 <= k < parts@.len() - 1 ==> parts@[k + 1].0 == (#[trigger] parts@[k]).1 + 1,
        decreases pattern@.len() - i,
    {
        if pattern[i] == STAR {
            parts.push((start, i));
            start = i + 1;
        }
        i += 1;
    }
    parts.push((start, i));
    parts
}

/// Each part with its place among the parts: whether it is the first, whether
/// it is the last, and its range.
///
/// Trusted: itertools' `with_position` marks the first item it hands out as
/// first and the one after which the iterator is exhausted as last, and hands
/// the items out unchanged and in order.
#[verifier::external_body]
fn with_positions(parts: &Vec<(usize, usize)>) -> (placed: Vec<(bool, bool, usize, usize)>)
    ensures
        placed@.len() == parts@.len(),
        forall|i: int|
            0 <= i < placed@.len() ==> #[trigger] placed@[i] == (
                i == 0,
                i == placed@.len() - 1,
                parts@[i].0,
                parts@[i].1,
            ),
{
    parts.iter().with_position().map(|(at, part)| (at.is_first, at.is_last, part.0, part.1)).collect()
}

/// Whether the bytes of `pattern` from `from` up to `to` stand in `text` at
/// `at`.
fn part_at(text: &[u8], at: usize, pattern: &[u8], from: usize, to: usize) -> (r: bool)
    requires
        from <= to <= pattern@.len(),
    ensures
        r == occurs_at(text@, at as int, pattern@, from as int, to as int),
{
    let n = to - from;
    if at > text.len() || text.len() - at < n {
        return false;
    }
    proof {
        assert(pattern.len() == pattern@.len());
    }
    let mut j: usize = 0;
    while j < n
        invariant
            j <= n,
            n == to - from,
            to <= pattern@.len() <= usize::MAX,
            at + n <= text@.len() <= usize::MAX,
            forall|k: int| 0 <= k < j ==> #[trigger] text@[at + k] == pattern@[from + k],
        decreases n - j,
    {
        if text[at + j] != pattern[from + j] {
            return false;
        }
        j += 1;
    }
    true
}

/// The first place from `start` on at which the bytes of `pattern` from
/// `from` up to `to` stand in `text`.
fn find_part(text: &[u8], start: usize, pattern: &[u8], from: usize, to: usize) -> (r: Option<usize>)
    requires
        from <= to <= pattern@.len(),
        start <= text@.len(),
    ensures
        match r {
            Some(at) => start <= at && occurs_at(text@, at as int, pattern@, from as int, to as int)
                && forall|k: int|
                start <= k < at ==> !occurs_at(text@, k, pattern@, from as int, to as int),
            None => forall|k: int|
                start <= k <= text@.len() ==> !occurs_at(text@, k, pattern@, from as int, to as int),
        },
{
    let mut at: usize = start;
    loop
        invariant
            start <= at <= text@.len(),
            from <= to <= pattern@.len(),
            forall|k: int| start <= k < at ==> !occurs_at(text@, k, pattern@, from as int, to as int),
        decreases text@.len() - at,
    {
        if part_at(text, at, pattern, from, to) {
            return Some(at);
        }
        if at == text.len() {
            return None;
        }
        at += 1;
    }
}

/// What is left of `pattern` from `from` on.
pub open spec fn pattern_from(pattern: Seq<u8>, from: int) -> Seq<u8> {
    pattern.subrange(from, pattern.len() as int)
}

/// A part between two wildcards, taken at its first occurrence `at` from
/// `index` on, leaves the pattern from the second wildcard on to match the
/// text behind the occurrence.
pub proof fn lemma_middle_part(
    pattern: Seq<u8>,
    text: Seq<u8>,
    index: int,
    from: int,
    to: int,
    at: int,
)
    requires
        1 <= from <= to < pattern.len(),
        pattern[from - 1] == STAR,
        pattern[to] == STAR,
        star_free(pattern, from, to),
        0 <= index <= at,
        occurs_at(text, at, pattern, from, to),
        forall|k: int| index <= k < at ==> !occurs_at(text, k, pattern, from, to),
    ensures
        glob_matches(pattern_from(pattern, from - 1), pattern_from(text, index)) <==> glob_matches(
            pattern_from(pattern, to),
            pattern_from(text, at + (to - from)),
        ),
{
    let tail = pattern_from(pattern, from - 1);
    let rest = pattern_from(text, index);
    let end = to - from + 1;
    let found = at - index;
    assert forall|j: int| 1 <= j < end implies #[trigger] tail[j] != STAR by {
        assert(tail[j] == pattern[from - 1 + j]);
    }
    assert(occurs_at(rest, found, tail, 1, end)) by {
        assert forall|j: int| 0 <= j < end - 1 implies #[trigger] rest[found + j] == tail[1 + j] by {
            assert(text[at + j] == pattern[from + j]);
        }
    }
    assert forall|k: int| 0 <= k < found implies !occurs_at(rest, k, tail, 1, end) by {
        if occurs_at(rest, k, tail, 1, end) {
            assert forall|j: int| 0 <= j < to - from implies #[trigger] text[index + k + j]
                == pattern[from + j] by {
                assert(rest[k + j] == tail[1 + j]);
            }
            assert(occurs_at(text, index + k, pattern, from, to));
        }
    }
    lemma_first_occurrence(tail, rest, end, found);
    assert(tail.subrange(end, tail.len() as int) =~= pattern_from(pattern, to));
    assert(rest.subrange(found + end - 1, rest.len() as int) =~= pattern_from(
        text,
        at + (to - from),
    ));
}

/// A part behind a wildcard that occurs nowhere from `index` on keeps the
/// pattern from matching.
pub proof fn lemma_missing_part(pattern: Seq<u8>, text: Seq<u8>, index: int, from: int, to: int)
    requires
        1 <= from <= to <= pattern.len(),
        pattern[from - 1] == STAR,
        star_free(pattern, from, to),
        0 <= index <= text.len(),
        forall|k: int| index <= k <= text.len() ==> !occurs_at(text, k, pattern, from, to),
    ensures
        !glob_matches(pattern_from(pattern, from - 1), pattern_from(text, index)),
{
    let tail = pattern_from(pattern, from - 1);
    let rest = pattern_from(text, index);
    let end = to - from + 1;
    assert forall|j: int| 1 <= j < end implies #[trigger] tail[j] != STAR by {
        assert(tail[j] == pattern[from - 1 + j]);
    }
    assert forall|k: int| 0 <= k <= rest.len() implies !occurs_at(rest, k, tail, 1, end) by {
        if occurs_at(rest, k, tail, 1, end) {
            assert forall|j: int| 0 <= j < to - from implies #[trigger] text[index + k + j]
                == pattern[from + j] by {
                assert(rest[k + j] == tail[1 + j]);
            }
            assert(occurs_at(text, index + k, pattern, from, to));
        }
    }
    lemma_no_occurrence(tail, rest, end);
}

/// The part behind the last wildcard must end the text, behind `index`.
pub proof fn lemma_final_part(pattern: Seq<u8>, text: Seq<u8>, index: int, from: int)
    requires
        1 <= from <= pattern.len(),
        pattern[from - 1] == STAR,
        star_free(pattern, from, pattern.len() as int),
        0 <= index <= text.len(),
    ensures
        glob_matches(pattern_from(pattern, from - 1), pattern_from(text, index)) <==> text.len()
            - index >= pattern.len() - from && occurs_at(
            text,
            text.len() - (pattern.len() - from),
            pattern,
            from,
            pattern.len() as int,
        ),
{
    let tail = pattern_from(pattern, from - 1);
    let rest = pattern_from(text, index);
    let n = pattern.len() - from;
    assert forall|j: int| 1 <= j < tail.len() implies #[trigger] tail[j] != STAR by {
        assert(tail[j] == pattern[from - 1 + j]);
    }
    lemma_last_part(tail, rest);
    let at = rest.len() - n;
    if occurs_at(rest, at, tail, 1, tail.len() as int) {
        assert forall|j: int| 0 <= j < n implies #[trigger] text[text.len() - n + j] == pattern[from
            + j] by {
            assert(rest[at + j] == tail[1 + j]);
        }
    }
    if at >= 0 && occurs_at(text, text.len() - n, pattern, from, pattern.len() as int) {
        assert forall|j: int| 0 <= j < tail.len() - 1 implies #[trigger] rest[at + j] == tail[1
            + j] by {
            assert(text[text.len() - n + j] == pattern[from + j]);
        }
    }
}

/// What one part of a pattern settles.
enum Verdict {
    /// Whether the text matches.
    Decided(bool),
    /// The part was found; the text behind it starts here.
    Behind(usize),
}

/// Where the pattern that is still to match starts when the part at `from`
/// is looked at: at the part if it is the first, else at the wildcard before
/// it.
pub open spec fn pending_from(first: bool, from: int) -> int {
    if first {
        0
    } else {
        from - 1
    }
}

/// Matches one part of the pattern, the bytes from `from` up to `to`, against
/// the text from `index` on.
fn match_part(
    pattern: &[u8],
    text: &[u8],
    index: usize,
    first: bool,
    last: bool,
    from: usize,
    to: usize,
) -> (v: Verdict)
    requires
        from <= to <= pattern@.len(),
        star_free(pattern@, from as int, to as int),
        index <= text@.len(),
        first ==> from == 0 && index == 0,
        !first ==> from >= 1 && pattern@[from - 1] == STAR,
        last ==> to == pattern@.len(),
        !last ==> to < pattern@.len() && pattern@[to as int] == STAR,
    ensures
        match v {
            Verdict::Decided(b) => b == glob_matches(
                pattern_from(pattern@, pending_from(first, from as int)),
                pattern_from(text@, index as int),
            ),
            Verdict::Behind(next) => !last && next <= text@.len() && (glob_matches(
                pattern_from(pattern@, pending_from(first, from as int)),
                pattern_from(text@, index as int),
            ) <==> glob_matches(pattern_from(pattern@, to as int), pattern_from(text@, next as int))),
        },
{
    if first {
        assert(pattern_from(pattern@, 0) =~= pattern@);
        assert(pattern_from(text@, 0) =~= text@);
    }
    if first && last {
        proof {
            lemma_literal(pattern@, text@);
            if text@ == pattern@ {
                assert(occurs_at(text@, 0, pattern@, 0, to as int));
            }
            if occurs_at(text@, 0, pattern@, 0, to as int) && text@.len() == to {
                assert forall|j: int| 0 <= j < to implies text@[j] == pattern@[j] by {
                    assert(text@[0 + j] == pattern@[0 + j]);
                }
                assert(text@ =~= pattern@);
            }
        }
        Verdict::Decided(part_at(text, 0, pattern, from, to) && text.len() == to)
    } else if first {
        proof {
            lemma_literal_prefix(pattern@, text@, to as int);
        }
        if part_at(text, 0, pattern, from, to) {
            Verdict::Behind(to)
        } else {
            Verdict::Decided(false)
        }
    } else if last {
        proof {
            lemma_final_part(pattern@, text@, index as int, from as int);
        }
        let n = to - from;
        if text.len() - index < n {
            Verdict::Decided(false)
        } else {
            Verdict::Decided(part_at(text, text.len() - n, pattern, from, to))
        }
    } else {
        match find_part(text, index, pattern, from, to) {
            Some(at) => {
                proof {
                    lemma_middle_part(
                        pattern@,
                        text@,
                        index as int,
                        from as int,
                        to as int,
                        at as int,
                    );
                }
                proof {
                    assert(text.len() == text@.len());
                }
                Verdict::Behind(at + (to - from))
            },
            None => {
                proof {
                    lemma_missing_part(pattern@, text@, index as int, from as int, to as int);
                }
                Verdict::Decided(false)
            },
        }
    }
}

/// Whether the bytes of `text` match the bytes of `pattern`.
pub fn glob_match_bytes(pattern: &[u8], text: &[u8]) -> (r: bool)
    ensures
        r == glob_matches(pattern@, text@),
{
    if pattern.len() == 0 {
        return text.len() == 0;
    }
    let parts = split_parts(pattern);
    let placed = with_positions(&parts);
    let mut index: usize = 0;
    let mut i: usize = 0;
    let ghost mut pos: int = 0;
    assert(pattern_from(pattern@, 0) =~= pattern@);
    assert(pattern_from(text@, 0) =~= text@);
    while i < placed.len()
        invariant
            i < placed@.len(),
            placed@.len() == parts@.len(),
            parts_of(pattern@, parts@),
            forall|k: int|
                0 <= k < placed@.len() ==> #[trigger] placed@[k] == (
                    k == 0,
                    k == placed@.len() - 1,
                    parts@[k].0,
                    parts@[k].1,
                ),
            index <= text@.len(),
            i == 0 ==> index == 0 && pos == 0,
            i > 0 ==> pos == parts@[i - 1].1,
            glob_matches(pattern@, text@) <==> glob_matches(
                pattern_from(pattern@, pos),
                pattern_from(text@, index as int),
            ),
        decreases placed@.len() - i,
    {
        let (first, last, from, to) = placed[i];
        proof {
            assert(placed@[i as int] == (
                i == 0,
                i == placed@.len() - 1,
                parts@[i as int].0,
                parts@[i as int].1,
            ));
            assert(parts@[i as int].0 <= parts@[i as int].1);
            if i > 0 {
                assert(parts@[i as int - 1].1 + 1 == parts@[i as int].0);
                assert(pattern@[parts@[i as int - 1].1 as int] == STAR);
            }
            if i < parts@.len() - 1 {
                assert(pattern@[parts@[i as int].1 as int] == STAR);
            }
        }
        match match_part(pattern, text, index, first, last, from, to) {
            Verdict::Decided(b) => {
                return b;
            },
            Verdict::Behind(next) => {
                index = next;
            },
        }
        proof {
            pos = to as int;
        }
        i += 1;
    }
    true
}

/// Whether `string` matches the pattern `pattern`, in which `*` stands for
/// any text. Both are compared as their UTF-8 bytes.
pub fn glob_match(pattern: &str, string: &str) -> (r: bool)
    ensures
        r == glob_matches(pattern.spec_bytes(), string.spec_bytes()),
{
    glob_match_bytes(pattern.as_bytes(), string.as_bytes())
}

} // verus!
