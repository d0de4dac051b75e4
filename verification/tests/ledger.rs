use autorebase::conflicts::Conflicts;
use autorebase::test_utils::{commit, commit_tree_args, CommitDescription};

#[test]
fn ledger_is_a_map() {
    let mut ledger = Conflicts::new();
    assert!(ledger.is_empty());
    assert_eq!(ledger.get("wip"), None);
    assert_eq!(ledger.insert("wip".to_string(), "h1".to_string()), None);
    assert_eq!(ledger.insert("other".to_string(), "h2".to_string()), None);
    assert_eq!(ledger.len(), 2);
    assert_eq!(ledger.get("wip"), Some("h1".to_string()));
    assert!(ledger.blocks("wip", "h1"));
    assert!(!ledger.blocks("wip", "h2"));
    assert!(!ledger.blocks("gone", "h1"));
    assert_eq!(ledger.insert("wip".to_string(), "h3".to_string()), Some("h1".to_string()));
    assert_eq!(ledger.len(), 2);
    assert_eq!(ledger.get("wip"), Some("h3".to_string()));
    assert_eq!(ledger.get("other"), Some("h2".to_string()));
    assert_eq!(ledger.remove("gone"), None);
    assert_eq!(ledger.remove("wip"), Some("h3".to_string()));
    assert_eq!(ledger.get("wip"), None);
    assert_eq!(ledger.entries(), vec![("other".to_string(), "h2".to_string())]);
    assert_eq!(ledger.remove("other"), Some("h2".to_string()));
    assert!(ledger.is_empty());
}

#[test]
fn later_entries_replace_earlier_ones() {
    let ledger = Conflicts::from_entries(vec![
        ("a".to_string(), "1".to_string()),
        ("b".to_string(), "2".to_string()),
        ("a".to_string(), "3".to_string()),
    ]);
    assert_eq!(ledger.len(), 2);
    assert_eq!(ledger.get("a"), Some("3".to_string()));
    assert_eq!(ledger.get("b"), Some("2".to_string()));
    let mut entries = ledger.entries();
    entries.sort();
    assert_eq!(entries, vec![("a".to_string(), "3".to_string()), ("b".to_string(), "2".to_string())]);
    let again = Conflicts::from_entries(ledger.entries());
    assert_eq!(again.len(), 2);
    assert_eq!(again.get("a"), Some("3".to_string()));
}

#[test]
fn commits_are_described_step_by_step() {
    let c = commit("First");
    assert_eq!(c.get_message(), "First");
    assert!(c.get_changes().is_empty());
    assert!(c.get_branch_names().is_empty());
    assert!(c.get_children().is_empty());
    assert_eq!(c.get_id(), None);
    assert!(c.get_merge_parents().is_empty());

    let c = c
        .write("a.txt", "hello")
        .write("b.txt", "x")
        .delete("a.txt")
        .write("b.txt", "y")
        .branch("master")
        .branch("main")
        .id(7)
        .merge_parent(3)
        .merge_parent(4)
        .child(commit("Second").write("c.txt", "z"))
        .message("Renamed");
    assert_eq!(c.get_message(), "Renamed");
    let mut changes = c.get_changes().clone();
    changes.sort();
    assert_eq!(
        changes,
        vec![("a.txt".to_string(), None), ("b.txt".to_string(), Some("y".to_string()))]
    );
    assert_eq!(c.get_branch_names(), &vec!["master".to_string(), "main".to_string()]);
    assert_eq!(c.get_id(), Some(7));
    assert_eq!(c.get_merge_parents(), &vec![3, 4]);
    assert_eq!(c.get_children().len(), 1);
    assert_eq!(c.get_children()[0].get_message(), "Second");

    let d = CommitDescription::default();
    assert_eq!(d.get_message(), "");
    assert!(d.get_changes().is_empty());
}

#[test]
fn commits_are_made_with_their_parents() {
    assert_eq!(commit_tree_args("First", None, &vec![], "t0"), vec!["commit-tree", "-m", "First", "t0"]);
    assert_eq!(
        commit_tree_args("Second", Some("p"), &vec![], "t1"),
        vec!["commit-tree", "-m", "Second", "-p", "p", "t1"]
    );
    assert_eq!(
        commit_tree_args("Merge", Some("p"), &vec!["a".to_string(), "b".to_string()], "t2"),
        vec!["commit-tree", "-m", "Merge", "-p", "p", "-p", "a", "-p", "b", "t2"]
    );
    assert_eq!(
        commit_tree_args("Root merge", None, &vec!["a".to_string()], "t3"),
        vec!["commit-tree", "-m", "Root merge", "-p", "a", "t3"]
    );
}
