//! The version of the version-control program, and whether it is new enough.

use vstd::prelude::*;
use vstd::utf8::valid_utf8;
use crate::failure::Failure;
use crate::text::{split_fields, split_on, utf8_text};
use crate::trim::{trimmed, TrimAsciiWhitespace};

verus! {

/// The words that the version answer starts with, `git version ` as bytes.
pub open spec fn version_prefix() -> Seq<u8> {
    seq![0x67u8, 0x69, 0x74, 0x20, 0x76, 0x65, 0x72, 0x73, 0x69, 0x6f, 0x6e, 0x20]
}

/// Whether `b` is a decimal digit.
pub open spec fn is_digit(b: u8) -> bool {
    0x30 <= b <= 0x39
}

/// Whether `s` holds decimal digits only.
pub open spec fn all_digits(s: Seq<u8>) -> bool {
    forall|i: int| 0 <= i < s.len() ==> is_digit(#[trigger] s[i])
}

/// The number that the decimal digits `s` write.
pub open spec fn digits_value(s: Seq<u8>) -> int
    decreases s.len(),
{
    if s.len() == 0 {
        0
    } else {
        10 * digits_value(s.drop_last()) + (s.last() - 0x30)
    }
}

/// The number that `field` writes as a 32-bit integer: an optional sign and
/// then at least one digit, with a value in range.
pub open spec fn number_of(field: Seq<u8>) -> Option<int> {
    let negative = field.len() > 0 && field[0] == 0x2d;
    let signed = field.len() > 0 && (field[0] == 0x2d || field[0] == 0x2b);
    let digits = if signed {
        field.drop_first()
    } else {
        field
    };
    let value = if negative {
        -digits_value(digits)
    } else {
        digits_value(digits)
    };
    if digits.len() > 0 && all_digits(digits) && i32::MIN <= value <= i32::MAX {
        Some(value)
    } else {
        None
    }
}

/// A component of the version: the number that the field writes, or -1 where
/// it writes none.
pub open spec fn component_of(field: Seq<u8>) -> i32 {
    match number_of(field) {
        Some(value) => value as i32,
        None => -1i32,
    }
}

/// Whether `s` starts with `prefix`.
pub open spec fn starts_with(s: Seq<u8>, prefix: Seq<u8>) -> bool {
    prefix.len() <= s.len() && s.subrange(0, prefix.len() as int) == prefix
}

/// The version that the answer to the version question states: behind the
/// opening words, the components between dots.
pub open spec fn version_of(output: Seq<u8>) -> Result<Seq<i32>, Failure> {
    let answer = trimmed(output);
    if !valid_utf8(answer) {
        Err(Failure::NotUtf8)
    } else if !starts_with(answer, version_prefix()) {
        Err(Failure::BadVersion)
    } else {
        Ok(
            split_on(answer.subrange(version_prefix().len() as int, answer.len() as int), 0x2e)
                .map_values(|field: Seq<u8>| component_of(field)),
        )
    }
}

/// Whether `a` comes before `b` when the two are compared component by
/// component, a version that runs out first coming first.
pub open spec fn comes_before(a: Seq<i32>, b: Seq<i32>) -> bool
    decreases a.len(),
{
    if b.len() == 0 {
        false
    } else if a.len() == 0 {
        true
    } else if a[0] != b[0] {
        a[0] < b[0]
    } else {
        comes_before(a.drop_first(), b.drop_first())
    }
}

/// The oldest version that has the `switch` command, 2.23.
pub open spec fn minimum_version() -> Seq<i32> {
    seq![2i32, 23i32]
}

/// Whether the version is new enough.
pub open spec fn supported(version: Seq<i32>) -> bool {
    !comes_before(version, minimum_version())
}

/// Only the first two components decide whether a version is new enough.
pub proof fn law_two_components_decide(version: Seq<i32>)
    ensures
        supported(version) <==> version.len() >= 1 && (version[0] > 2 || (version[0] == 2
            && version.len() >= 2 && version[1] >= 23)),
{
    reveal_with_fuel(comes_before, 4);
    let m = minimum_version();
    assert(m.drop_first() =~= seq![23i32]);
    assert(m.drop_first().drop_first() =~= Seq::<i32>::empty());
    if version.len() >= 1 && version[0] == 2 {
        let rest = version.drop_first();
        if rest.len() >= 1 {
            assert(rest[0] == version[1]);
            if rest[0] == 23 {
                assert(!comes_before(rest.drop_first(), m.drop_first().drop_first()));
            }
        }
    }
}

/// A further digit makes the number no smaller.
proof fn lemma_digits_grow(s: Seq<u8>)
    requires
        all_digits(s),
    ensures
        digits_value(s) >= 0,
        s.len() > 0 ==> digits_value(s) >= digits_value(s.drop_last()),
    decreases s.len(),
{
    if s.len() > 0 {
        assert(all_digits(s.drop_last())) by {
            assert forall|i: int| 0 <= i < s.drop_last().len() implies is_digit(
                #[trigger] s.drop_last()[i],
            ) by {
                assert(s.drop_last()[i] == s[i]);
            }
        }
        lemma_digits_grow(s.drop_last());
        assert(is_digit(s[s.len() - 1]));
    }
}

/// Reads one component of a version.
pub fn parse_component(field: &[u8]) -> (r: i32)
    ensures
        r == component_of(field@),
{
    let n = field.len();
    let negative = n > 0 && field[0] == 0x2d;
    let start: usize = if n > 0 && (field[0] == 0x2d || field[0] == 0x2b) {
        1
    } else {
        0
    };
    let ghost digits = field@.subrange(start as int, n as int);
    assert(digits =~= if start == 1 {
        field@.drop_first()
    } else {
        field@
    });
    if start == n {
        return -1;
    }
    let mut value: i64 = 0;
    let mut too_big = false;
    let mut i: usize = start;
    assert(digits.take(0) =~= Seq::<u8>::empty());
    while i < n
        invariant
            start <= i <= n,
            n == field@.len(),
            digits == field@.subrange(start as int, n as int),
            digits.len() > 0,
            negative == (field@.len() > 0 && field@[0] == 0x2d),
            digits == if field@.len() > 0 && (field@[0] == 0x2d || field@[0] == 0x2b) {
                field@.drop_first()
            } else {
                field@
            },
            all_digits(digits.take(i - start)),
            0 <= value <= 0x8000_0000,
            !too_big ==> value == digits_value(digits.take(i - start)),
            too_big ==> digits_value(digits.take(i - start)) > 0x8000_0000,
        decreases n - i,
    {
        let b = field[i];
        let ghost before = digits.take(i - start);
        let ghost now = digits.take(i - start + 1);
        proof {
            assert(now.drop_last() =~= before);
            assert(now.last() == b);
        }
        if b < 0x30 || b > 0x39 {
            proof {
                assert(digits[i - start] == b);
                assert(!all_digits(digits));
            }
            return -1;
        }
        proof {
            assert forall|k: int| 0 <= k < now.len() implies is_digit(#[trigger] now[k]) by {
                if k < now.len() - 1 {
                    assert(now[k] == before[k]);
                }
            }
            lemma_digits_grow(now);
        }
        if !too_big {
            let next = value * 10 + (b - 0x30) as i64;
            if next > 0x8000_0000 {
                too_big = true;
            } else {
                value = next;
            }
        }
        i += 1;
    }
    assert(digits.take(n - start) =~= digits);
    if too_big {
        -1
    } else if negative {
        (-value) as i32
    } else if value > 0x7fff_ffff {
        -1
    } else {
        value as i32
    }
}

/// Reads the answer to the version question.
pub fn git_version(output: &[u8]) -> (r: Result<Vec<i32>, Failure>)
    ensures
        match (r, version_of(output@)) {
            (Ok(version), Ok(expected)) => version@ == expected,
            (Err(failure), Err(expected)) => failure == expected,
            _ => false,
        },
{
    let answer = output.trim_ascii_whitespace();
    if utf8_text(answer).is_none() {
        return Err(Failure::NotUtf8);
    }
    let prefix: [u8; 12] = [0x67, 0x69, 0x74, 0x20, 0x76, 0x65, 0x72, 0x73, 0x69, 0x6f, 0x6e, 0x20];
    assert(prefix@ =~= version_prefix());
    if answer.len() < 12 {
        return Err(Failure::BadVersion);
    }
    let mut k: usize = 0;
    while k < 12
        invariant
            k <= 12 <= answer@.len(),
            prefix@ == version_prefix(),
            answer@ == trimmed(output@),
            valid_utf8(answer@),
            forall|j: int| 0 <= j < k ==> answer@[j] == #[trigger] prefix@[j],
        decreases 12 - k,
    {
        if answer[k] != prefix[k] {
            proof {
                assert(answer@.subrange(0, 12)[k as int] == answer@[k as int]);
            }
            return Err(Failure::BadVersion);
        }
        k += 1;
    }
    assert(answer@.subrange(0, 12) =~= version_prefix());
    let fields = split_fields(vstd::slice::slice_subrange(answer, 12, answer.len()), 0x2e);
    let ghost rows = crate::text::byte_rows(fields@);
    let mut version: Vec<i32> = Vec::new();
    let mut i: usize = 0;
    while i < fields.len()
        invariant
            i <= fields@.len(),
            rows == crate::text::byte_rows(fields@),
            version@.len() == i,
            forall|j: int| 0 <= j < i ==> #[trigger] version@[j] == component_of(rows[j]),
        decreases fields@.len() - i,
    {
        let component = parse_component(fields[i].as_slice());
        assert(rows[i as int] == fields@[i as int]@);
        version.push(component);
        i += 1;
    }
    assert(version@ =~= rows.map_values(|field: Seq<u8>| component_of(field)));
    Ok(version)
}

/// Whether version `a` comes before version `b`.
pub fn version_before(a: &[i32], b: &[i32]) -> (r: bool)
    ensures
        r == comes_before(a@, b@),
{
    let mut i: usize = 0;
    assert(a@.skip(0) =~= a@);
    assert(b@.skip(0) =~= b@);
    loop
        invariant
            i <= a@.len(),
            i <= b@.len(),
            comes_before(a@, b@) == comes_before(a@.skip(i as int), b@.skip(i as int)),
        decreases a@.len() - i,
    {
        if i >= b.len() {
            return false;
        }
        if i >= a.len() {
            return true;
        }
        assert(a@.skip(i as int)[0] == a@[i as int]);
        assert(b@.skip(i as int)[0] == b@[i as int]);
        if a[i] != b[i] {
            return a[i] < b[i];
        }
        assert(a@.skip(i as int).drop_first() =~= a@.skip(i as int + 1));
        assert(b@.skip(i as int).drop_first() =~= b@.skip(i as int + 1));
        i += 1;
    }
}

/// Whether a version is new enough for the run: the `switch` command came
/// with 2.23.
pub fn version_supported(version: &[i32]) -> (r: bool)
    ensures
        r == supported(version@),
{
    let minimum: [i32; 2] = [2, 23];
    assert(minimum@ =~= minimum_version());
    !version_before(version, minimum.as_slice())
}

} // verus!
