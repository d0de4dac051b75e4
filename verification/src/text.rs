//! Reading the byte output of commands: fields, lines and UTF-8 text.

use vstd::prelude::*;
use vstd::utf8::{decode_utf8, valid_utf8};
use crate::trim::{trimmed, TrimAsciiWhitespace};

verus! {

/// The byte strings that a vector of byte vectors holds.
pub open spec fn byte_rows(v: Seq<Vec<u8>>) -> Seq<Seq<u8>> {
    v.map_values(|row: Vec<u8>| row@)
}

/// The texts that a vector of strings holds.
pub open spec fn texts(v: Seq<String>) -> Seq<Seq<char>> {
    v.map_values(|text: String| text@)
}

/// What an optional string holds.
pub open spec fn optional_view(text: Option<String>) -> Option<Seq<char>> {
    match text {
        Some(text) => Some(text@),
        None => None,
    }
}

/// The fields of `s` between occurrences of `sep`. A separator starts a new
/// field and any other byte extends the last one, so there is always at least
/// one field and `n` separators give `n + 1` fields.
pub open spec fn split_on(s: Seq<u8>, sep: u8) -> Seq<Seq<u8>>
    decreases s.len(),
{
    if s.len() == 0 {
        seq![Seq::empty()]
    } else {
        let before = split_on(s.drop_last(), sep);
        if s.last() == sep {
            before.push(Seq::empty())
        } else {
            before.update(before.len() - 1, before.last().push(s.last()))
        }
    }
}

/// A line without the carriage return that may end it.
pub open spec fn without_cr(line: Seq<u8>) -> Seq<u8> {
    if line.len() > 0 && line.last() == 0x0d {
        line.drop_last()
    } else {
        line
    }
}

/// The lines of `s`: it is cut at every line feed, a carriage return just
/// before a line feed goes with it, and the end of the input ends the last
/// line only if something follows the last line feed.
pub open spec fn lines_of(s: Seq<u8>) -> Seq<Seq<u8>> {
    let fields = split_on(s, 0x0a);
    Seq::new(
        if fields.last().len() == 0 {
            (fields.len() - 1) as nat
        } else {
            fields.len()
        },
        |i: int|
            if i < fields.len() - 1 {
                without_cr(fields[i])
            } else {
                fields[i]
            },
    )
}

/// The text that `bytes` encode, if they are UTF-8.
pub open spec fn text_of(bytes: Seq<u8>) -> Option<Seq<char>> {
    if valid_utf8(bytes) {
        Some(decode_utf8(bytes))
    } else {
        None
    }
}

/// The text of an answer that is one value framed by whitespace.
pub open spec fn answer_of(output: Seq<u8>) -> Option<Seq<char>> {
    text_of(trimmed(output))
}

/// Whether every line is UTF-8.
pub open spec fn all_text(lines: Seq<Seq<u8>>) -> bool {
    forall|i: int| 0 <= i < lines.len() ==> valid_utf8(#[trigger] lines[i])
}

/// The commits that a listing names, one on each line, or `None` where a
/// line is not text.
pub open spec fn commits_of(output: Seq<u8>) -> Option<Seq<Seq<char>>> {
    if all_text(lines_of(output)) {
        Some(lines_of(output).map_values(|line: Seq<u8>| decode_utf8(line)))
    } else {
        None
    }
}

/// There is always a field, and the number of fields is bounded by the length.
pub proof fn lemma_split_on_len(s: Seq<u8>, sep: u8)
    ensures
        1 <= split_on(s, sep).len() <= s.len() + 1,
    decreases s.len(),
{
    if s.len() > 0 {
        lemma_split_on_len(s.drop_last(), sep);
    }
}

/// No field holds the separator, and the fields written one after the other
/// with the separator between them are the input.
pub proof fn lemma_split_on_fields(s: Seq<u8>, sep: u8)
    ensures
        forall|i: int, j: int|
            0 <= i < split_on(s, sep).len() && 0 <= j < split_on(s, sep)[i].len() ==> (
            #[trigger] split_on(s, sep)[i][j]) != sep,
        joined(split_on(s, sep), sep) == s,
    decreases s.len(),
{
    lemma_split_on_len(s, sep);
    if s.len() == 0 {
        assert(joined(split_on(s, sep), sep) =~= s);
    } else {
        let t = s.drop_last();
        lemma_split_on_fields(t, sep);
        lemma_split_on_len(t, sep);
        let before = split_on(t, sep);
        let now = split_on(s, sep);
        assert(s =~= t.push(s.last()));
        if s.last() == sep {
            assert(now.drop_last() =~= before);
            assert(joined(now, sep) =~= joined(before, sep).push(sep) + now.last());
            assert(joined(now, sep) =~= s);
        } else {
            if before.len() == 1 {
                assert(joined(before, sep) == before[0]);
                assert(joined(now, sep) == now[0]);
                assert(joined(now, sep) =~= s);
            } else {
                assert(now.drop_last() =~= before.drop_last());
                let head = joined(before.drop_last(), sep).push(sep);
                assert(joined(before, sep) == head + before.last());
                assert(joined(now, sep) == head + now.last());
                assert(head + before.last().push(s.last()) =~= (head + before.last()).push(
                    s.last(),
                ));
            }
        }
    }
}

/// The fields written one after the other with `sep` between them.
pub open spec fn joined(fields: Seq<Seq<u8>>, sep: u8) -> Seq<u8>
    decreases fields.len(),
{
    if fields.len() == 0 {
        Seq::empty()
    } else if fields.len() == 1 {
        fields[0]
    } else {
        joined(fields.drop_last(), sep).push(sep) + fields.last()
    }
}

/// Cuts `bytes` at every `sep`.
pub fn split_fields(bytes: &[u8], sep: u8) -> (r: Vec<Vec<u8>>)
    ensures
        byte_rows(r@) == split_on(bytes@, sep),
{
    let mut done: Vec<Vec<u8>> = Vec::new();
    let mut field: Vec<u8> = Vec::new();
    let mut i: usize = 0;
    assert(bytes@.take(0) =~= Seq::<u8>::empty());
    assert(byte_rows(done@).push(field@) =~= seq![Seq::<u8>::empty()]);
    while i < bytes.len()
        invariant
            i <= bytes@.len(),
            byte_rows(done@).push(field@) == split_on(bytes@.take(i as int), sep),
        decreases bytes@.len() - i,
    {
        let b = bytes[i];
        proof {
            let now = bytes@.take(i as int + 1);
            assert(now.drop_last() =~= bytes@.take(i as int));
            assert(now.last() == b);
        }
        let ghost before = byte_rows(done@);
        let ghost current = field@;
        if b == sep {
            done.push(field);
            field = Vec::new();
            assert(byte_rows(done@) =~= before.push(current));
            assert(byte_rows(done@).push(field@) =~= before.push(current).push(Seq::empty()));
        } else {
            field.push(b);
            assert(byte_rows(done@).push(field@) =~= before.push(current).update(
                before.len() as int,
                current.push(b),
            ));
        }
        i += 1;
    }
    assert(bytes@.take(i as int) =~= bytes@);
    let ghost before = byte_rows(done@);
    done.push(field);
    assert(byte_rows(done@) =~= before.push(field@));
    done
}

/// The text that `bytes` encode, or `None` where they are not UTF-8.
///
/// Trusted: `std::str::from_utf8` accepts exactly the well-formed UTF-8 byte
/// strings, and the string it gives has those bytes as its encoding.
#[verifier::external_body]
pub(crate) fn utf8_text(bytes: &[u8]) -> (r: Option<String>)
    ensures
        r is Some <==> valid_utf8(bytes@),
        r is Some ==> r->0@ == decode_utf8(bytes@),
{
    std::str::from_utf8(bytes).ok().map(|s| s.to_owned())
}

/// The character that writes the digit `d`.
pub open spec fn digit_char(d: int) -> char {
    if d == 0 {
        '0'
    } else if d == 1 {
        '1'
    } else if d == 2 {
        '2'
    } else if d == 3 {
        '3'
    } else if d == 4 {
        '4'
    } else if d == 5 {
        '5'
    } else if d == 6 {
        '6'
    } else if d == 7 {
        '7'
    } else if d == 8 {
        '8'
    } else {
        '9'
    }
}

/// The number `n` written in decimal digits, without leading zeros.
pub open spec fn decimal(n: nat) -> Seq<char>
    decreases n,
{
    if n < 10 {
        seq![digit_char(n as int)]
    } else {
        decimal(n / 10).push(digit_char((n % 10) as int))
    }
}

/// A number written in decimal digits.
///
/// Trusted: the `to_string` of an unsigned integer writes it in decimal
/// digits, without sign and without leading zeros.
#[verifier::external_body]
pub(crate) fn decimal_text(n: u64) -> (r: String)
    ensures
        r@ == decimal(n as nat),
{
    n.to_string()
}

/// Reads bytes as text.
pub fn decode(bytes: &[u8]) -> (r: Option<String>)
    ensures
        r is Some <==> text_of(bytes@) is Some,
        r is Some ==> r->0@ == text_of(bytes@)->0,
{
    utf8_text(bytes)
}

/// Reads the answer of a command that prints one value: the output without
/// the whitespace around it, as text.
pub fn decode_answer(output: &[u8]) -> (r: Option<String>)
    ensures
        r is Some <==> answer_of(output@) is Some,
        r is Some ==> r->0@ == answer_of(output@)->0,
{
    utf8_text(output.trim_ascii_whitespace())
}

/// Reads a listing of commits, one on each line.
pub fn parse_commits(output: &[u8]) -> (r: Option<Vec<String>>)
    ensures
        r is Some <==> commits_of(output@) is Some,
        r is Some ==> texts(r->0@) == commits_of(output@)->0,
{
    let lines = split_lines(output);
    let ghost rows = byte_rows(lines@);
    let mut commits: Vec<String> = Vec::new();
    let mut i: usize = 0;
    while i < lines.len()
        invariant
            i <= lines@.len(),
            rows == byte_rows(lines@),
            rows == lines_of(output@),
            commits@.len() == i,
            forall|k: int| 0 <= k < i ==> valid_utf8(#[trigger] rows[k]),
            forall|k: int| 0 <= k < i ==> (#[trigger] commits@[k])@ == decode_utf8(rows[k]),
        decreases lines@.len() - i,
    {
        assert(rows[i as int] == lines@[i as int]@);
        match utf8_text(lines[i].as_slice()) {
            Some(commit) => {
                commits.push(commit);
            },
            None => {
                return None;
            },
        }
        i += 1;
    }
    assert(texts(commits@) =~= rows.map_values(|line: Seq<u8>| decode_utf8(line)));
    Some(commits)
}

/// Cuts `bytes` into lines.
pub fn split_lines(bytes: &[u8]) -> (r: Vec<Vec<u8>>)
    ensures
        byte_rows(r@) == lines_of(bytes@),
{
    let mut fields = split_fields(bytes, 0x0a);
    proof {
        lemma_split_on_len(bytes@, 0x0a);
    }
    let ghost all = byte_rows(fields@);
    let n = fields.len();
    let mut lines: Vec<Vec<u8>> = Vec::new();
    let keep = if fields[n - 1].len() == 0 {
        n - 1
    } else {
        n
    };
    let mut i: usize = 0;
    while i < keep
        invariant
            i <= keep <= n,
            n == fields.len(),
            all == byte_rows(fields@),
            all == split_on(bytes@, 0x0a),
            keep == if all.last().len() == 0 {
                (n - 1) as nat
            } else {
                n as nat
            },
            byte_rows(lines@) == lines_of(bytes@).take(i as int),
        decreases keep - i,
    {
        let field = &fields[i];
        let m = field.len();
        let ghost before = byte_rows(lines@);
        assert(all[i as int] == field@);
        let line = if i < n - 1 && m > 0 && field[m - 1] == 0x0d {
            let mut line: Vec<u8> = Vec::new();
            let mut j: usize = 0;
            while j < m - 1
                invariant
                    j <= m - 1,
                    m == field@.len(),
                    line@ == field@.take(j as int),
                decreases m - j,
            {
                line.push(field[j]);
                assert(line@ =~= field@.take(j as int + 1));
                j += 1;
            }
            assert(line@ =~= field@.drop_last());
            line
        } else {
            field.clone()
        };
        assert(line@ == lines_of(bytes@)[i as int]);
        lines.push(line);
        assert(byte_rows(lines@) =~= before.push(line@));
        assert(byte_rows(lines@) =~= lines_of(bytes@).take(i as int + 1));
        i += 1;
    }
    assert(lines_of(bytes@).take(keep as int) =~= lines_of(bytes@));
    lines
}

} // verus!
