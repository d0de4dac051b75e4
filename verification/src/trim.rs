//! Trimming of ASCII whitespace from byte strings.

use vstd::prelude::*;
use vstd::slice::slice_subrange;

verus! {

/// The bytes that count as ASCII whitespace: space, tab, line feed, form feed
/// and carriage return.
pub open spec fn is_ascii_space(b: u8) -> bool {
    b == 0x20 || b == 0x09 || b == 0x0a || b == 0x0c || b == 0x0d
}

/// How many whitespace bytes `s` starts with.
pub open spec fn leading_spaces(s: Seq<u8>) -> nat
    decreases s.len(),
{
    if s.len() > 0 && is_ascii_space(s[0]) {
        1 + leading_spaces(s.drop_first())
    } else {
        0
    }
}

/// How many whitespace bytes `s` ends with.
pub open spec fn trailing_spaces(s: Seq<u8>) -> nat
    decreases s.len(),
{
    if s.len() > 0 && is_ascii_space(s.last()) {
        1 + trailing_spaces(s.drop_last())
    } else {
        0
    }
}

/// `s` without its leading and trailing whitespace.
pub open spec fn trimmed(s: Seq<u8>) -> Seq<u8> {
    if leading_spaces(s) == s.len() {
        Seq::empty()
    } else {
        s.subrange(leading_spaces(s) as int, s.len() - trailing_spaces(s))
    }
}

/// `leading_spaces(s)` is the index of the first byte that is not whitespace.
pub proof fn lemma_leading_spaces(s: Seq<u8>, k: int)
    requires
        0 <= k <= s.len(),
        forall|i: int| 0 <= i < k ==> is_ascii_space(#[trigger] s[i]),
        k < s.len() ==> !is_ascii_space(s[k]),
    ensures
        leading_spaces(s) == k,
    decreases s.len(),
{
    if k > 0 {
        let t = s.drop_first();
        assert forall|i: int| 0 <= i < k - 1 implies is_ascii_space(#[trigger] t[i]) by {
            assert(t[i] == s[i + 1]);
        }
        lemma_leading_spaces(t, k - 1);
    }
}

/// `trailing_spaces(s)` counts the bytes after the last one that is not
/// whitespace.
pub proof fn lemma_trailing_spaces(s: Seq<u8>, k: int)
    requires
        0 <= k <= s.len(),
        forall|i: int| k <= i < s.len() ==> is_ascii_space(#[trigger] s[i]),
        k > 0 ==> !is_ascii_space(s[k - 1]),
    ensures
        trailing_spaces(s) == s.len() - k,
    decreases s.len(),
{
    if k < s.len() {
        let t = s.drop_last();
        assert forall|i: int| k <= i < t.len() implies is_ascii_space(#[trigger] t[i]) by {
            assert(t[i] == s[i]);
        }
        lemma_trailing_spaces(t, k);
    }
}

/// What is left of a byte string has whitespace at neither end, an input of
/// whitespace alone, and no other, leaves nothing, and trimming what is left
/// changes nothing.
pub proof fn law_trimmed_is_tight(s: Seq<u8>)
    ensures
        trimmed(s).len() > 0 ==> !is_ascii_space(trimmed(s)[0]) && !is_ascii_space(
            trimmed(s).last(),
        ),
        trimmed(s).len() == 0 <==> forall|i: int| 0 <= i < s.len() ==> is_ascii_space(#[trigger] s[i]),
        trimmed(trimmed(s)) == trimmed(s),
{
    lemma_leading_is_first(s);
    lemma_trailing_is_last(s);
    let a = leading_spaces(s) as int;
    let b = s.len() - trailing_spaces(s);
    if a < s.len() {
        assert(a < b) by {
            if b <= a {
                assert(is_ascii_space(s[a]));
            }
        }
        let t = trimmed(s);
        assert(t[0] == s[a]);
        assert(t.last() == s[b - 1]);
        lemma_leading_spaces(t, 0);
        lemma_trailing_spaces(t, t.len() as int);
        assert(t.subrange(0, t.len() as int) =~= t);
    } else {
        lemma_leading_spaces(Seq::<u8>::empty(), 0);
    }
}

/// The bytes before index `leading_spaces(s)` are whitespace and the byte at
/// it, if there is one, is not.
pub proof fn lemma_leading_is_first(s: Seq<u8>)
    ensures
        leading_spaces(s) <= s.len(),
        forall|i: int| 0 <= i < leading_spaces(s) ==> is_ascii_space(#[trigger] s[i]),
        leading_spaces(s) < s.len() ==> !is_ascii_space(s[leading_spaces(s) as int]),
    decreases s.len(),
{
    if s.len() > 0 && is_ascii_space(s[0]) {
        let t = s.drop_first();
        lemma_leading_is_first(t);
        assert forall|i: int| 0 <= i < leading_spaces(s) implies is_ascii_space(#[trigger] s[i]) by {
            if i > 0 {
                assert(s[i] == t[i - 1]);
            }
        }
        if leading_spaces(s) < s.len() {
            assert(s[leading_spaces(s) as int] == t[leading_spaces(t) as int]);
        }
    }
}

/// The bytes from index `s.len() - trailing_spaces(s)` on are whitespace and
/// the byte before it, if there is one, is not.
pub proof fn lemma_trailing_is_last(s: Seq<u8>)
    ensures
        trailing_spaces(s) <= s.len(),
        forall|i: int| s.len() - trailing_spaces(s) <= i < s.len() ==> is_ascii_space(#[trigger] s[i]),
        trailing_spaces(s) < s.len() ==> !is_ascii_space(s[s.len() - trailing_spaces(s) - 1]),
    decreases s.len(),
{
    if s.len() > 0 && is_ascii_space(s.last()) {
        let t = s.drop_last();
        lemma_trailing_is_last(t);
        assert forall|i: int| s.len() - trailing_spaces(s) <= i < s.len() implies is_ascii_space(
            #[trigger] s[i],
        ) by {
            if i < s.len() - 1 {
                assert(s[i] == t[i]);
            }
        }
        if trailing_spaces(s) < s.len() {
            assert(s[s.len() - trailing_spaces(s) - 1] == t[t.len() - trailing_spaces(t) - 1]);
        }
    }
}

/// Whether `b` is ASCII whitespace.
pub fn is_space(b: u8) -> (r: bool)
    ensures
        r == is_ascii_space(b),
{
    b == 0x20 || b == 0x09 || b == 0x0a || b == 0x0c || b == 0x0d
}

/// Byte strings from which ASCII whitespace can be trimmed.
pub trait TrimAsciiWhitespace {
    /// The bytes that the value stands for.
    spec fn bytes(&self) -> Seq<u8>;

    /// The value without the ASCII whitespace at its start and at its end.
    fn trim_ascii_whitespace(&self) -> (r: &[u8])
        ensures
            r@ == trimmed(self.bytes()),
    ;
}

impl TrimAsciiWhitespace for [u8] {
    open spec fn bytes(&self) -> Seq<u8> {
        self@
    }

    fn trim_ascii_whitespace(&self) -> (r: &[u8]) {
        let n = self.len();
        let mut from: usize = 0;
        while from < n && is_space(self[from])
            invariant
                n == self@.len(),
                from <= n,
                forall|i: int| 0 <= i < from ==> is_ascii_space(#[trigger] self@[i]),
            decreases n - from,
        {
            from += 1;
        }
        proof {
            lemma_leading_spaces(self@, from as int);
        }
        if from == n {
            return slice_subrange(self, 0, 0);
        }
        let mut to: usize = n;
        while to > from && is_space(self[to - 1])
            invariant
                n == self@.len(),
                from <= to <= n,
                from < n,
                !is_ascii_space(self@[from as int]),
                forall|i: int| to <= i < n ==> is_ascii_space(#[trigger] self@[i]),
            decreases to,
        {
            to -= 1;
        }
        proof {
            lemma_trailing_spaces(self@, to as int);
        }
        slice_subrange(self, from, to)
    }
}

} // verus!
