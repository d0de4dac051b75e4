use autorebase::glob::{glob_match, glob_match_bytes};

#[test]
fn glob_test() {
    assert!(glob_match("", ""));
    assert!(glob_match("*", ""));
    assert!(glob_match("*", "a"));
    assert!(glob_match("*", "ab"));
    assert!(glob_match("*a", "a"));
    assert!(glob_match("a*", "a"));
    assert!(glob_match("a*a", "aa"));
    assert!(glob_match("a*a", "aba"));

    assert!(glob_match("**", ""));
    assert!(glob_match("**", "a"));
    assert!(glob_match("**", "ab"));
    assert!(glob_match("**a", "a"));
    assert!(glob_match("a**", "a"));
    assert!(glob_match("a**a", "aa"));
    assert!(glob_match("a**a", "aba"));

    assert!(glob_match("*a*a*", "aba"));

    assert!(!glob_match("", "a"));
    assert!(!glob_match("*a", "b"));
    assert!(!glob_match("a*", "b"));
    assert!(!glob_match("*a", "ab"));
    assert!(!glob_match("a*", "ba"));

    assert!(glob_match("a*bcd*bcd*ef", "aabcdbcdbcdabcdefefefggef"));
    assert!(!glob_match("a*bcd*bcd*ef", "abcdef"));
}

#[test]
fn pattern_without_wildcard_matches_itself_only() {
    assert!(glob_match("master", "master"));
    assert!(!glob_match("master", "wip"));
    assert!(!glob_match("master", "masters"));
    assert!(!glob_match("master", "maste"));
    assert!(!glob_match("a", ""));
}

#[test]
fn first_and_last_part_are_told_apart() {
    // The part before the first wildcard must start the text, the part
    // behind the last one must end it, and the parts between are found in
    // order.
    assert!(glob_match("feat/*", "feat/a"));
    assert!(glob_match("feat/*", "feat/"));
    assert!(!glob_match("feat/*", "chore/x"));
    assert!(!glob_match("feat/*", "xfeat/a"));
    assert!(glob_match("*/x", "chore/x"));
    assert!(!glob_match("*/x", "chore/xy"));
    assert!(glob_match("a*b*c", "a-b-c"));
    assert!(!glob_match("a*b*c", "a-c-b"));
    assert!(!glob_match("a*b*c", "a-b-c-"));
    assert!(glob_match("ab*ba", "abba"));
    assert!(!glob_match("ab*ba", "aba"));
    assert!(glob_match("*aab", "aaab"));
    assert!(glob_match("x*ab*ab", "xabab"));
    assert!(!glob_match("x*ab*ab", "xab"));
}

#[test]
fn text_is_matched_as_bytes() {
    assert!(glob_match("gr*ße", "grüße"));
    assert!(glob_match("*ü*", "grüße"));
    assert!(!glob_match("*u*", "grüße"));
    assert!(glob_match_bytes(b"a*\xff", b"abc\xff"));
    assert!(!glob_match_bytes(b"a*\xff", b"abc\xfe"));
}

/// Matching by trying every split, to hold the library against.
fn matches(pattern: &[u8], text: &[u8]) -> bool {
    match pattern.split_first() {
        None => text.is_empty(),
        Some((b'*', rest)) => (0..=text.len()).any(|k| matches(rest, &text[k..])),
        Some((byte, rest)) => text.first() == Some(byte) && matches(rest, &text[1..]),
    }
}

#[test]
fn agrees_with_trying_every_split() {
    let letters = [b'a', b'b', b'*'];
    let mut patterns: Vec<Vec<u8>> = vec![vec![]];
    for _ in 0..5 {
        let mut longer = Vec::new();
        for p in &patterns {
            for l in letters {
                let mut q = p.clone();
                q.push(l);
                longer.push(q);
            }
        }
        patterns.extend(longer);
        patterns.sort();
        patterns.dedup();
    }
    let mut texts: Vec<Vec<u8>> = vec![vec![]];
    for _ in 0..6 {
        let mut longer = Vec::new();
        for t in &texts {
            for l in [b'a', b'b'] {
                let mut u = t.clone();
                u.push(l);
                longer.push(u);
            }
        }
        texts.extend(longer);
        texts.sort();
        texts.dedup();
    }
    for p in &patterns {
        for t in &texts {
            assert_eq!(glob_match_bytes(p, t), matches(p, t), "{:?} {:?}", p, t);
        }
    }
}
