use autorebase::branches::{classify, parse_branches, parse_record, BranchInfo, Disposition, WorktreeInfo};
use autorebase::commands::committer_date;
use autorebase::config::default_branch_name;
use autorebase::failure::Failure;
use autorebase::graph::{get_repo_graph, split_words, CommitInfo};
use autorebase::layout::{absolute_path, ledger_path, link_name, linked_gitdir, scratch_path, sentinel_paths};
use autorebase::text::{decode, decode_answer, parse_commits, split_fields, split_lines};
use autorebase::trim::{is_space, TrimAsciiWhitespace};
use autorebase::version::{git_version, parse_component, version_before, version_supported};

#[test]
fn trimming_knows_the_five_whitespace_bytes() {
    for b in 0..=255u8 {
        assert_eq!(is_space(b), b.is_ascii_whitespace(), "{}", b);
    }
    assert_eq!(b"\t\n\x0c\r a\x0bb \r\n".trim_ascii_whitespace(), b"a\x0bb");
    assert_eq!(b"".trim_ascii_whitespace(), b"");
    assert_eq!(b"abc".trim_ascii_whitespace(), b"abc");
    let owned: Vec<u8> = b"  x ".to_vec();
    assert_eq!(owned.trim_ascii_whitespace(), b"x");
}

#[test]
fn fields_are_cut_at_every_separator() {
    assert_eq!(split_fields(b"", 0), vec![b"".to_vec()]);
    assert_eq!(split_fields(b"a", 0), vec![b"a".to_vec()]);
    assert_eq!(split_fields(b"a\0bc\0", 0), vec![b"a".to_vec(), b"bc".to_vec(), b"".to_vec()]);
    assert_eq!(split_fields(b"\0\0", 0), vec![b"".to_vec(), b"".to_vec(), b"".to_vec()]);
    assert_eq!(split_fields(b"2.31.1", b'.'), vec![b"2".to_vec(), b"31".to_vec(), b"1".to_vec()]);
}

#[test]
fn lines_are_cut_as_the_standard_library_cuts_them() {
    for text in ["", "a", "a\n", "a\nb", "a\r\nb\r\n", "\n", "\n\n", "a\r", "a\r\n\r\nb", "\r\n", "a\n\rb\r"] {
        let expected: Vec<Vec<u8>> = text.lines().map(|l| l.as_bytes().to_vec()).collect();
        assert_eq!(split_lines(text.as_bytes()), expected, "{:?}", text);
    }
}

#[test]
fn text_must_be_utf8() {
    assert_eq!(decode(b"wip"), Some("wip".to_string()));
    assert_eq!(decode("grüße".as_bytes()), Some("grüße".to_string()));
    assert_eq!(decode(b""), Some(String::new()));
    assert_eq!(decode(b"\xff"), None);
    assert_eq!(decode(b"a\xc3"), None);
    assert_eq!(decode_answer(b"  abc123\n"), Some("abc123".to_string()));
    assert_eq!(decode_answer(b"\n"), Some(String::new()));
    assert_eq!(decode_answer(b" \xff\n"), None);
}

#[test]
fn commits_are_listed_one_on_each_line() {
    assert_eq!(parse_commits(b""), Some(vec![]));
    assert_eq!(
        parse_commits(b"c3\nc2\nc1\n"),
        Some(vec!["c3".to_string(), "c2".to_string(), "c1".to_string()])
    );
    assert_eq!(parse_commits(b"c3\r\nc2"), Some(vec!["c3".to_string(), "c2".to_string()]));
    assert_eq!(parse_commits(b"c3\n\xff\n"), None);
}

#[test]
fn default_branch_is_the_trimmed_answer() {
    assert_eq!(default_branch_name(b"master\n").unwrap(), "master");
    assert_eq!(default_branch_name(b" main \r\n").unwrap(), "main");
    assert_eq!(default_branch_name(b"").unwrap(), "");
    assert!(matches!(default_branch_name(b"\xff\n"), Err(Failure::NotUtf8)));
}

#[test]
fn version_components() {
    assert_eq!(parse_component(b"2"), 2);
    assert_eq!(parse_component(b"023"), 23);
    assert_eq!(parse_component(b"+7"), 7);
    assert_eq!(parse_component(b"-7"), -7);
    assert_eq!(parse_component(b"-0"), 0);
    assert_eq!(parse_component(b"2147483647"), 2147483647);
    assert_eq!(parse_component(b"2147483648"), -1);
    assert_eq!(parse_component(b"-2147483648"), -2147483648);
    assert_eq!(parse_component(b"-2147483649"), -1);
    assert_eq!(parse_component(b"99999999999999999999999999"), -1);
    assert_eq!(parse_component(b""), -1);
    assert_eq!(parse_component(b"+"), -1);
    assert_eq!(parse_component(b"-"), -1);
    assert_eq!(parse_component(b"windows"), -1);
    assert_eq!(parse_component(b"1 "), -1);
    assert_eq!(parse_component(b"1_0"), -1);
    for text in ["12", "-12", "+12", "", "x", "00", "4294967296", "--1", "+-1", "1+"] {
        assert_eq!(parse_component(text.as_bytes()), text.parse().unwrap_or(-1), "{:?}", text);
    }
}

#[test]
fn versions_are_read() {
    assert_eq!(git_version(b"git version 2.39.5\n").unwrap(), vec![2, 39, 5]);
    assert_eq!(git_version(b"git version 2.31.1.windows.1\n").unwrap(), vec![2, 31, 1, -1, 1]);
    assert_eq!(git_version(b"git version 2").unwrap(), vec![2]);
    assert_eq!(git_version(b"git version .").unwrap(), vec![-1, -1]);
    assert!(matches!(git_version(b"git version "), Err(Failure::BadVersion)));
    assert_eq!(git_version(b"git version 2..3").unwrap(), vec![2, -1, 3]);
    assert!(matches!(git_version(b"version 2.39"), Err(Failure::BadVersion)));
    assert!(matches!(git_version(b"git version"), Err(Failure::BadVersion)));
    assert!(matches!(git_version(b""), Err(Failure::BadVersion)));
    assert!(matches!(git_version(b"git version 2.\xff"), Err(Failure::NotUtf8)));
}

#[test]
fn versions_are_compared_component_by_component() {
    assert!(version_before(&[2, 22], &[2, 23]));
    assert!(version_before(&[2], &[2, 23]));
    assert!(version_before(&[], &[2, 23]));
    assert!(version_before(&[1, 99], &[2, 23]));
    assert!(!version_before(&[2, 23], &[2, 23]));
    assert!(!version_before(&[2, 23, 0], &[2, 23]));
    assert!(!version_before(&[3], &[2, 23]));
    assert!(!version_before(&[2, 23], &[]));
    for a in [vec![], vec![2], vec![2, 23], vec![2, 22, 9], vec![-1], vec![3, -1]] {
        for b in [vec![], vec![2], vec![2, 23], vec![2, 22, 9], vec![-1], vec![3, -1]] {
            assert_eq!(version_before(&a, &b), a < b, "{:?} {:?}", a, b);
        }
    }
    assert!(version_supported(&[2, 23]));
    assert!(version_supported(&[2, 39, 5]));
    assert!(version_supported(&[3]));
    assert!(version_supported(&[2, 31, 1, -1, 1]));
    assert!(!version_supported(&[2, 22, 4]));
    assert!(!version_supported(&[2]));
    assert!(!version_supported(&[2, -1]));
    assert!(!version_supported(&[-1, 40]));
    assert!(!version_supported(&[]));
}

#[test]
fn branch_records_have_three_fields() {
    let record = parse_record(b"wip\0origin/wip\0/repo").unwrap();
    assert_eq!(record.branch, "wip");
    assert_eq!(record.upstream, Some("origin/wip".to_string()));
    let tree = record.worktree.unwrap();
    assert_eq!(tree.path, "/repo");
    assert!(!tree.clean);
    let record = parse_record(b"wip\0\0").unwrap();
    assert_eq!(record.upstream, None);
    assert!(record.worktree.is_none());
    assert!(matches!(parse_record(b"wip\0"), Err(Failure::FieldCount(2))));
    assert!(matches!(parse_record(b"wip"), Err(Failure::FieldCount(1))));
    assert!(matches!(parse_record(b"a\0b\0c\0d"), Err(Failure::FieldCount(4))));
    assert!(matches!(parse_record(b"\xff\0\0"), Err(Failure::NotUtf8)));
    assert!(matches!(parse_record(b"a\0\xff\0"), Err(Failure::NotUtf8)));
    assert!(matches!(parse_record(b"a\0\0\xff"), Err(Failure::NotUtf8)));
}

#[test]
fn branch_listing_is_read_line_by_line() {
    let listing = b"master\0origin/master\0/repo\n\nwip\0\0\nautorebase_tmp_safe_to_delete\0\0\nname with\ttab\0\0/a b\n";
    let branches = parse_branches(listing).unwrap();
    let names: Vec<&str> = branches.iter().map(|b| b.branch.as_str()).collect();
    assert_eq!(names, vec!["master", "wip", "name with\ttab"]);
    assert_eq!(branches[2].worktree.as_ref().unwrap().path, "/a b");
    assert_eq!(parse_branches(b"").unwrap().len(), 0);
    assert!(matches!(parse_branches(b"a\0\0\nb\0\nc\0\0\0\0\n"), Err(Failure::FieldCount(2))));
    assert!(matches!(parse_branches(b"a\0\0\n\xff\0\0\nb\n"), Err(Failure::NotUtf8)));
}

fn branch(name: &str, upstream: Option<&str>, worktree: Option<bool>) -> BranchInfo {
    BranchInfo {
        branch: name.to_string(),
        upstream: upstream.map(|u| u.to_string()),
        worktree: worktree.map(|clean| WorktreeInfo { path: "/w".to_string(), clean }),
    }
}

#[test]
fn branches_are_classified() {
    let onto = "master".to_string();
    let none = None;
    let feat = Some("feat/*".to_string());
    assert_eq!(classify(&branch("master", Some("o/m"), Some(false)), &onto, false, &feat), Disposition::Target);
    assert_eq!(classify(&branch("wip", Some("o/w"), Some(false)), &onto, false, &feat), Disposition::HasUpstream);
    assert_eq!(classify(&branch("wip", Some("o/w"), Some(false)), &onto, true, &feat), Disposition::Dirty);
    assert_eq!(classify(&branch("wip", Some("o/w"), Some(true)), &onto, true, &feat), Disposition::Filtered);
    assert_eq!(classify(&branch("feat/a", Some("o/w"), Some(true)), &onto, true, &feat), Disposition::Eligible);
    assert_eq!(classify(&branch("wip", None, None), &onto, false, &none), Disposition::Eligible);
    assert_eq!(classify(&branch("wip", None, Some(true)), &onto, false, &none), Disposition::Eligible);
    assert_eq!(classify(&branch("wip", None, Some(false)), &onto, false, &none), Disposition::Dirty);
    assert_eq!(classify(&branch("wip", None, None), &onto, false, &feat), Disposition::Filtered);
}

#[test]
fn paths_are_derived_from_the_metadata_directory() {
    let metadata = "/repo/.git".to_string();
    assert_eq!(scratch_path(&metadata), "/repo/.git/autorebase/autorebase_worktree");
    assert_eq!(ledger_path(&metadata), "/repo/.git/autorebase/conflicts.toml");
    assert_eq!(linked_gitdir(&metadata, &"tree".to_string()), "/repo/.git/worktrees/tree");
    assert_eq!(
        sentinel_paths(&metadata),
        vec!["/repo/.git/rebase-apply".to_string(), "/repo/.git/rebase-merge".to_string()]
    );
    let dir = "/repo/sub".to_string();
    assert_eq!(absolute_path(&dir, ".git".to_string()), "/repo/sub/.git");
    assert_eq!(absolute_path(&dir, "/other/.git".to_string()), "/other/.git");
    assert_eq!(absolute_path(&dir, String::new()), "/repo/sub/");
}

#[test]
fn link_file_names_the_worktree() {
    assert_eq!(
        link_name(b"gitdir: /repo/.git/worktrees/autorebase_worktree\n"),
        Some("autorebase_worktree".to_string())
    );
    assert_eq!(link_name(b"gitdir: name"), Some("name".to_string()));
    assert_eq!(link_name(b"gitdir: /repo/.git/worktrees/"), None);
    assert_eq!(link_name(b"gitdir: "), None);
    assert_eq!(link_name(b"gitdir:/repo/x"), None);
    assert_eq!(link_name(b""), None);
    assert_eq!(link_name(b"gitdir: /repo/\xff"), None);
}

#[test]
fn committer_date_is_written_in_seconds() {
    assert_eq!(committer_date(0), "@0 +0000");
    assert_eq!(committer_date(7), "@7 +0000");
    assert_eq!(committer_date(1600000000), "@1600000000 +0000");
    assert_eq!(committer_date(u64::MAX), "@18446744073709551615 +0000");
}

#[test]
fn failures_have_messages() {
    assert_eq!(Failure::FieldCount(2).message(), "for-each-ref parse error, got 2 parts, expected 3");
    assert_eq!(Failure::FieldCount(10).message(), "for-each-ref parse error, got 10 parts, expected 3");
    assert_eq!(
        Failure::TooOld.message(),
        "Your Git installation is too old - version 2.23 or later is required"
    );
    assert_eq!(Failure::BadVersion.message(), "Invalid `git version` output");
    assert_eq!(Failure::NotRebasing.message(), "Rebase failed but repo is not rebasing.");
    assert_eq!(Failure::Rejected("r".to_string()).message(), "r");
    assert_eq!(Failure::Broken("b".to_string()).message(), "b");
    assert!(!Failure::NotUtf8.message().is_empty());
    assert!(!Failure::TargetNotFound.message().is_empty());
    assert!(!Failure::BadGitDir.message().is_empty());
    assert!(!Failure::Unexpected.message().is_empty());
}

#[test]
fn words_stand_between_whitespace() {
    for text in ["", " ", "a", " a", "a ", "a b", "  ab \t c\r\n", "a\x0bb", "\x0c\n"] {
        let expected: Vec<Vec<u8>> =
            text.split_ascii_whitespace().map(|w| w.as_bytes().to_vec()).collect();
        assert_eq!(split_words(text.as_bytes()), expected, "{:?}", text);
    }
}

fn info(parents: &[&str], refs: &[&str]) -> CommitInfo {
    CommitInfo {
        parents: parents.iter().map(|p| p.to_string()).collect(),
        refs: refs.iter().map(|r| r.to_string()).collect(),
    }
}

#[test]
fn graph_is_read_from_two_listings() {
    let parents = b"c3 c2 c1\nc2 c1\nc1\n";
    let refs = b"c3,HEAD -> master, origin/master, tag: v1\nc2,\nc1,HEAD\nc0, wip ,HEAD -> HEAD -> x\n";
    let graph = get_repo_graph(parents, refs).unwrap();
    assert_eq!(
        graph,
        vec![
            ("c3".to_string(), info(&["c2", "c1"], &["master", "origin/master", "tag: v1"])),
            ("c2".to_string(), info(&["c1"], &[""])),
            ("c1".to_string(), info(&[], &[])),
            ("c0".to_string(), info(&[], &["wip", "x"])),
        ]
    );
    assert_eq!(get_repo_graph(b"", b"").unwrap(), vec![]);
    let again = get_repo_graph(b"a b\na c d\n", b"a,x\na,y,y\n").unwrap();
    assert_eq!(again, vec![("a".to_string(), info(&["c", "d"], &["y"]))]);
    let twice = get_repo_graph(b"", b"a,x, y ,HEAD -> x,y,z,x\n").unwrap();
    assert_eq!(twice, vec![("a".to_string(), info(&[], &["x", "y", "z"]))]);
    let bare = get_repo_graph(b"", b"\n,\n").unwrap();
    assert_eq!(bare, vec![("".to_string(), info(&[], &[""]))]);
}

#[test]
fn graph_listings_must_be_readable() {
    assert!(matches!(get_repo_graph(b"a b\n \nc\n", b""), Err(Failure::BadListing)));
    assert!(matches!(get_repo_graph(b"a \xff\n", b""), Err(Failure::NotUtf8)));
    assert!(matches!(get_repo_graph(b"a\n", b"\xff,x\n"), Err(Failure::NotUtf8)));
    assert!(matches!(get_repo_graph(b"a\n", b"a,\xff\n"), Err(Failure::NotUtf8)));
    assert!(matches!(get_repo_graph(b"\n", b"\xff"), Err(Failure::BadListing)));
    assert_eq!(Failure::BadListing.message(), "invalid git log output");
}
