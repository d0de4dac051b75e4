use autorebase::trim::TrimAsciiWhitespace;

#[test]
fn basic_trimming() {
    assert_eq!(" A ".as_bytes().trim_ascii_whitespace(), "A".as_bytes());
    assert_eq!(" AB ".as_bytes().trim_ascii_whitespace(), "AB".as_bytes());
    assert_eq!("A ".as_bytes().trim_ascii_whitespace(), "A".as_bytes());
    assert_eq!("AB ".as_bytes().trim_ascii_whitespace(), "AB".as_bytes());
    assert_eq!(" A".as_bytes().trim_ascii_whitespace(), "A".as_bytes());
    assert_eq!(" AB".as_bytes().trim_ascii_whitespace(), "AB".as_bytes());
    assert_eq!(" A B ".as_bytes().trim_ascii_whitespace(), "A B".as_bytes());
    assert_eq!("A B ".as_bytes().trim_ascii_whitespace(), "A B".as_bytes());
    assert_eq!(" A B".as_bytes().trim_ascii_whitespace(), "A B".as_bytes());
    assert_eq!(" ".as_bytes().trim_ascii_whitespace(), "".as_bytes());
    assert_eq!("  ".as_bytes().trim_ascii_whitespace(), "".as_bytes());
}
