//! Runs of the tool against a repository that is kept in memory: commits
//! change files, a rebase replays them and conflicts where both sides changed
//! a file differently.

use autorebase::branches::temp_branch_name;
use autorebase::commands::{
    committer_date, failure_text, invocation, ledger_file, link_file, pending, scratch_dir,
    sentinels, Action,
};
use autorebase::failure::Failure;
use autorebase::plan::{Event, Note, Phase};
use autorebase::run::Run;
use autorebase::test_utils::{commit, CommitDescription};
use rand::RngExt;
use std::collections::{BTreeMap, BTreeSet};

const REPO: &str = "/repo";
const GIT_DIR: &str = "/repo/.git";
const SCRATCH: &str = "/repo/.git/autorebase/autorebase_worktree";

#[derive(Clone, Debug, PartialEq, Eq)]
struct Commit {
    parent: Option<String>,
    message: String,
    changes: Vec<(String, Option<String>)>,
}

#[derive(Clone, Debug, PartialEq, Eq)]
enum Place {
    Branch(String),
    Detached(String),
}

#[derive(Clone, Debug, PartialEq, Eq)]
struct Worktree {
    path: String,
    gitdir: String,
    linked: bool,
    head: Place,
    dirty: bool,
    rebasing: Option<Place>,
}

#[derive(Clone, Debug, PartialEq, Eq)]
struct Repo {
    commits: BTreeMap<String, Commit>,
    branches: BTreeMap<String, String>,
    upstreams: BTreeMap<String, String>,
    remotes: BTreeMap<String, String>,
    worktrees: Vec<Worktree>,
    ledger: Option<Vec<(String, String)>>,
    date: Option<String>,
    default_branch: String,
    version: String,
    commands: Vec<Vec<String>>,
    rebases: usize,
    refused: Vec<Vec<String>>,
    broken: Vec<Vec<String>>,
    fails_at: Option<(usize, bool)>,
    link: Option<Vec<u8>>,
}

type Tree = BTreeMap<String, String>;

fn hash_of(parent: &Option<String>, message: &str, changes: &[(String, Option<String>)]) -> String {
    let mut text = format!("{:?}|{}|", parent, message);
    for (file, contents) in changes {
        text.push_str(&format!("{}={:?};", file, contents));
    }
    let mut a: u64 = 0xcbf29ce484222325;
    let mut b: u64 = 0x84222325cbf29ce4;
    for byte in text.bytes() {
        a = (a ^ byte as u64).wrapping_mul(0x100000001b3);
        b = (b.rotate_left(5) ^ byte as u64).wrapping_mul(0x9e3779b97f4a7c15);
    }
    format!("{:016x}{:016x}{:08x}", a, b, (a ^ b) as u32)
}

impl Repo {
    fn new() -> Repo {
        Repo {
            commits: BTreeMap::new(),
            branches: BTreeMap::new(),
            upstreams: BTreeMap::new(),
            remotes: BTreeMap::new(),
            worktrees: vec![Worktree {
                path: REPO.to_string(),
                gitdir: GIT_DIR.to_string(),
                linked: false,
                head: Place::Detached(String::new()),
                dirty: false,
                rebasing: None,
            }],
            ledger: None,
            date: Some("@0 +0000".to_string()),
            default_branch: "master".to_string(),
            version: "git version 2.39.5\n".to_string(),
            commands: Vec::new(),
            rebases: 0,
            refused: Vec::new(),
            broken: Vec::new(),
            fails_at: None,
            link: None,
        }
    }

    fn add_commit(
        &mut self,
        parent: Option<String>,
        message: &str,
        changes: Vec<(String, Option<String>)>,
    ) -> String {
        let id = hash_of(&parent, message, &changes);
        self.commits.insert(id.clone(), Commit { parent, message: message.to_string(), changes });
        id
    }

    fn add_worktree(&mut self, path: &str, head: Place) {
        let name = path.rsplit('/').next().unwrap_or("").to_string();
        self.worktrees.push(Worktree {
            path: path.to_string(),
            gitdir: format!("{}/worktrees/{}", GIT_DIR, name),
            linked: true,
            head,
            dirty: false,
            rebasing: None,
        });
    }

    fn tree(&self, id: &str) -> Tree {
        let mut chain = Vec::new();
        let mut at = Some(id.to_string());
        while let Some(id) = at {
            let commit = &self.commits[&id];
            chain.push(commit.clone());
            at = commit.parent.clone();
        }
        let mut tree = Tree::new();
        for commit in chain.iter().rev() {
            for (file, contents) in &commit.changes {
                match contents {
                    Some(text) => {
                        tree.insert(file.clone(), text.clone());
                    }
                    None => {
                        tree.remove(file);
                    }
                }
            }
        }
        tree
    }

    fn ancestry(&self, id: &str) -> Vec<String> {
        let mut chain = Vec::new();
        let mut at = Some(id.to_string());
        while let Some(id) = at {
            at = self.commits[&id].parent.clone();
            chain.push(id);
        }
        chain
    }

    fn is_ancestor(&self, older: &str, newer: &str) -> bool {
        self.ancestry(newer).iter().any(|id| id == older)
    }

    fn merge_base(&self, a: &str, b: &str) -> Option<String> {
        let of_b: BTreeSet<String> = self.ancestry(b).into_iter().collect();
        self.ancestry(a).into_iter().find(|id| of_b.contains(id))
    }

    fn range(&self, from: &str, to: &str) -> Vec<String> {
        let of_from: BTreeSet<String> = self.ancestry(from).into_iter().collect();
        self.ancestry(to).into_iter().take_while(|id| !of_from.contains(id)).collect()
    }

    fn worktree(&self, dir: &str) -> Option<usize> {
        self.worktrees.iter().position(|w| w.path == dir)
    }

    fn head_commit(&self, at: usize) -> Option<String> {
        match &self.worktrees[at].head {
            Place::Branch(name) => self.branches.get(name).cloned(),
            Place::Detached(id) => {
                if self.commits.contains_key(id) {
                    Some(id.clone())
                } else {
                    None
                }
            }
        }
    }

    fn resolve(&self, at: usize, name: &str) -> Option<String> {
        if name == "HEAD" {
            self.head_commit(at)
        } else if let Some(id) = self.branches.get(name) {
            Some(id.clone())
        } else if self.commits.contains_key(name) {
            Some(name.to_string())
        } else {
            None
        }
    }

    fn checked_out_elsewhere(&self, at: usize, branch: &str) -> bool {
        self.worktrees.iter().enumerate().any(|(i, w)| {
            i != at
                && (w.head == Place::Branch(branch.to_string())
                    || w.rebasing == Some(Place::Branch(branch.to_string())))
        })
    }

    fn rejected(what: &str) -> Event {
        Event::Rejected(format!("git: {}", what))
    }

    fn done(text: String) -> Event {
        Event::Succeeded(text.into_bytes())
    }

    fn rebase(&mut self, at: usize, onto: &str) -> Event {
        self.rebases += 1;
        if self.worktrees[at].rebasing.is_some() || self.worktrees[at].dirty {
            return Repo::rejected("cannot rebase here");
        }
        let (Some(upstream), Some(head)) = (self.resolve(at, onto), self.head_commit(at)) else {
            return Repo::rejected("no such commit");
        };
        let old_place = self.worktrees[at].head.clone();
        let replay: Vec<String> = self.range(&upstream, &head).into_iter().rev().collect();
        let mut tip = upstream.clone();
        if self.is_ancestor(&upstream, &head) {
            return Repo::done(String::new());
        }
        for id in replay {
            let commit = self.commits[&id].clone();
            let before = match &commit.parent {
                Some(parent) => self.tree(parent),
                None => Tree::new(),
            };
            let ours = self.tree(&tip);
            for (file, theirs) in &commit.changes {
                let base = before.get(file);
                let mine = ours.get(file);
                if mine != base && mine != theirs.as_ref() {
                    self.worktrees[at].head = Place::Detached(tip);
                    self.worktrees[at].rebasing = Some(old_place);
                    return Repo::rejected("could not apply a commit");
                }
            }
            tip = self.add_commit(Some(tip), &commit.message, commit.changes.clone());
        }
        match old_place {
            Place::Branch(name) => {
                self.branches.insert(name, tip);
            }
            Place::Detached(_) => {
                self.worktrees[at].head = Place::Detached(tip);
            }
        }
        Repo::done(String::new())
    }

    fn switch(&mut self, at: usize, args: &[&str]) -> Event {
        if self.worktrees[at].rebasing.is_some() {
            return Repo::rejected("a rebase is in progress");
        }
        match args {
            ["--detach"] => match self.head_commit(at) {
                Some(id) => {
                    self.worktrees[at].head = Place::Detached(id);
                    Repo::done(String::new())
                }
                None => Repo::rejected("no commit to detach at"),
            },
            ["--detach", name] => match self.resolve(at, name) {
                Some(id) => {
                    self.worktrees[at].head = Place::Detached(id);
                    Repo::done(String::new())
                }
                None => Repo::rejected("no such commit"),
            },
            ["--force-create", name, start] => {
                if self.checked_out_elsewhere(at, name) {
                    return Repo::rejected("branch is checked out elsewhere");
                }
                match self.resolve(at, start) {
                    Some(id) => {
                        self.branches.insert(name.to_string(), id);
                        self.worktrees[at].head = Place::Branch(name.to_string());
                        Repo::done(String::new())
                    }
                    None => Repo::rejected("no such commit"),
                }
            }
            [name] => {
                if !self.branches.contains_key(*name) {
                    return Repo::rejected("no such branch");
                }
                if self.checked_out_elsewhere(at, name) {
                    return Repo::rejected("branch is checked out elsewhere");
                }
                self.worktrees[at].head = Place::Branch(name.to_string());
                Repo::done(String::new())
            }
            _ => Repo::rejected("unknown switch"),
        }
    }

    fn listing(&self) -> String {
        let mut out = String::new();
        for name in self.branches.keys() {
            let upstream = self.upstreams.get(name).cloned().unwrap_or_default();
            let path = self
                .worktrees
                .iter()
                .find(|w| w.head == Place::Branch(name.clone()))
                .map(|w| w.path.clone())
                .unwrap_or_default();
            out.push_str(&format!("{}\0{}\0{}\n", name, upstream, path));
        }
        out
    }

    fn pull(&mut self, at: usize) -> Event {
        let Place::Branch(name) = self.worktrees[at].head.clone() else {
            return Repo::rejected("not on a branch");
        };
        let Some(upstream) = self.upstreams.get(&name).cloned() else {
            return Repo::rejected("no upstream");
        };
        match self.remotes.get(&upstream).cloned() {
            None => Repo::done(String::new()),
            Some(theirs) => {
                if self.is_ancestor(&self.branches[&name], &theirs) {
                    self.branches.insert(name, theirs);
                    Repo::done(String::new())
                } else {
                    Repo::rejected("not possible to fast-forward")
                }
            }
        }
    }

    fn git(&mut self, dir: &str, args: &[String]) -> Event {
        self.commands.push(args.to_vec());
        if self.refused.contains(&args.to_vec()) {
            return Repo::rejected("refused");
        }
        if self.broken.contains(&args.to_vec()) {
            return Event::Broken("could not run git".to_string());
        }
        if let Some((at, broken)) = self.fails_at {
            let puts_back = matches!(
                args.iter().map(|a| a.as_str()).collect::<Vec<_>>().as_slice(),
                ["rebase", "--abort"] | ["branch", "--delete", ..] | ["switch", "--detach", ..]
            );
            if at + 1 == self.commands.len() && !puts_back {
                return if broken {
                    Event::Broken("could not run git".to_string())
                } else {
                    Repo::rejected("refused")
                };
            }
        }
        let args: Vec<&str> = args.iter().map(|a| a.as_str()).collect();
        if args.as_slice() == ["version"] {
            return Repo::done(self.version.clone());
        }
        if let ["worktree", "add", "--detach", path] = args.as_slice() {
            let Some(head) = self.head_commit(0) else {
                return Repo::rejected("nothing to check out");
            };
            self.add_worktree(path, Place::Detached(head));
            return Repo::done(String::new());
        }
        let Some(at) = self.worktree(dir) else {
            return Event::Broken(format!("no such directory: {}", dir));
        };
        match args.as_slice() {
            ["rev-parse", "--show-toplevel"] => Repo::done(format!("{}\n", dir)),
            ["rev-parse", "--git-common-dir"] => {
                if self.worktrees[at].linked {
                    Repo::done(format!("{}\n", GIT_DIR))
                } else {
                    Repo::done(".git\n".to_string())
                }
            }
            ["--no-pager", "config", "--default", "master", "--get", "init.defaultBranch"] => {
                Repo::done(format!("{}\n", self.default_branch))
            }
            ["for-each-ref", "--format=%(refname:short)%00%(upstream:short)%00%(worktreepath)", "refs/heads"] => {
                Repo::done(self.listing())
            }
            ["diff-index", "--quiet", "HEAD"] | ["diff-index", "--quiet", "--cached", "HEAD"] => {
                if self.worktrees[at].dirty {
                    Repo::rejected("differences")
                } else {
                    Repo::done(String::new())
                }
            }
            ["pull", "--ff-only"] => self.pull(at),
            ["rev-parse", name] => match self.resolve(at, name) {
                Some(id) => Repo::done(format!("{}\n", id)),
                None => Repo::rejected("unknown revision"),
            },
            ["merge-base", a, b] => match (self.resolve(at, a), self.resolve(at, b)) {
                (Some(a), Some(b)) => match self.merge_base(&a, &b) {
                    Some(id) => Repo::done(format!("{}\n", id)),
                    None => Repo::rejected("no merge base"),
                },
                _ => Repo::rejected("unknown revision"),
            },
            ["--no-pager", "log", "--format=%H", range] => {
                let Some((from, to)) = range.split_once("..") else {
                    return Repo::rejected("not a range");
                };
                match (self.resolve(at, from), self.resolve(at, to)) {
                    (Some(from), Some(to)) => {
                        let mut out = String::new();
                        for id in self.range(&from, &to) {
                            out.push_str(&id);
                            out.push('\n');
                        }
                        Repo::done(out)
                    }
                    _ => Repo::rejected("unknown revision"),
                }
            }
            ["rebase", "--abort"] => match self.worktrees[at].rebasing.take() {
                Some(place) => {
                    self.worktrees[at].head = place;
                    Repo::done(String::new())
                }
                None => Repo::rejected("no rebase in progress"),
            },
            ["rebase", onto] => self.rebase(at, onto),
            ["-c", "commit.gpgsign=false", "rebase", onto] => self.rebase(at, onto),
            ["symbolic-ref", "--quiet", "--short", "HEAD"] => match &self.worktrees[at].head {
                Place::Branch(name) => Repo::done(format!("{}\n", name)),
                Place::Detached(_) => Repo::rejected("detached"),
            },
            ["branch", "--delete", "--force", name] => {
                if self.checked_out_elsewhere(usize::MAX, name) {
                    return Repo::rejected("branch is checked out");
                }
                match self.branches.remove(*name) {
                    Some(_) => Repo::done(String::new()),
                    None => Repo::rejected("no such branch"),
                }
            }
            ["switch", rest @ ..] => self.switch(at, rest),
            _ => Repo::rejected("unknown command"),
        }
    }

    fn link(&self, path: &str) -> Event {
        if let Some(content) = &self.link {
            return Event::Text(Some(content.clone()));
        }
        for w in &self.worktrees {
            if path == format!("{}/.git", w.path) {
                return if w.linked {
                    Event::Text(Some(format!("gitdir: {}\n", w.gitdir).into_bytes()))
                } else {
                    Event::Text(None)
                };
            }
        }
        Event::Broken(format!("cannot read {}", path))
    }

    fn rebasing(&self, paths: &[String]) -> bool {
        self.worktrees.iter().any(|w| {
            w.rebasing.is_some() && paths.contains(&format!("{}/rebase-merge", w.gitdir))
        })
    }

    fn tip(&self, branch: &str) -> String {
        self.branches[branch].clone()
    }

    fn parent_of(&self, id: &str) -> Option<String> {
        self.commits[id].parent.clone()
    }

    fn names(&self) -> Vec<String> {
        self.branches.keys().cloned().collect()
    }

    fn state(&self) -> (BTreeMap<String, String>, Vec<Worktree>, Option<Vec<(String, String)>>) {
        let mut ledger = self.ledger.clone();
        if let Some(entries) = ledger.as_mut() {
            entries.sort();
        }
        (self.branches.clone(), self.worktrees.clone(), ledger)
    }
}

struct Options<'a> {
    start_dir: &'a str,
    onto: Option<&'a str>,
    slow: bool,
    include_non_local: bool,
    filter: Option<&'a str>,
}

fn onto_master(slow: bool) -> Options<'static> {
    Options { start_dir: REPO, onto: Some("master"), slow, include_non_local: false, filter: None }
}

/// Performs what the run asks for until it is over.
fn autorebase(repo: &mut Repo, options: &Options) -> Result<Vec<Note>, Failure> {
    let mut run = Run::new(
        options.start_dir,
        options.onto,
        options.slow,
        options.include_non_local,
        options.filter,
    );
    let mut event = Event::Start;
    let mut notes = Vec::new();
    for _ in 0..100_000 {
        let (next, said) = run.step(event);
        run = next;
        notes.extend(said);
        event = match pending(run.phase()) {
            Action::Begin => Event::Start,
            Action::Git => {
                let command = invocation(&run).expect("a command to run");
                repo.git(&command.dir, &command.args)
            }
            Action::ReadClock => Event::Clock { preset: repo.date.is_some(), seconds: 1_600_000_000 },
            Action::SetCommitterDate => {
                repo.date = Some(committer_date(run.seconds()));
                Event::Saved
            }
            Action::LoadLedger => {
                assert_eq!(ledger_file(&run), format!("{}/autorebase/conflicts.toml", GIT_DIR));
                Event::Entries(repo.ledger.clone())
            }
            Action::SaveLedger => {
                repo.ledger = Some(run.ledger().entries());
                Event::Saved
            }
            Action::ProbeDirectory => {
                let path = scratch_dir(&run);
                Event::Flag(repo.worktree(&path).is_some())
            }
            Action::ReadLink => repo.link(&link_file(&run).expect("a link file to read")),
            Action::ProbeRebase => Event::Flag(repo.rebasing(&sentinels(&run))),
            Action::Finish => {
                assert!(run.is_finished());
                return match run.failure() {
                    None => Ok(notes),
                    Some(Failure::Rejected(report)) => Err(Failure::Rejected(report.clone())),
                    Some(Failure::Broken(report)) => Err(Failure::Broken(report.clone())),
                    Some(Failure::FieldCount(n)) => Err(Failure::FieldCount(*n)),
                    Some(Failure::NotUtf8) => Err(Failure::NotUtf8),
                    Some(Failure::BadVersion) => Err(Failure::BadVersion),
                    Some(Failure::TooOld) => Err(Failure::TooOld),
                    Some(Failure::TargetNotFound) => Err(Failure::TargetNotFound),
                    Some(Failure::NotRebasing) => Err(Failure::NotRebasing),
                    Some(Failure::BadGitDir) => Err(Failure::BadGitDir),
                    Some(Failure::BadListing) => Err(Failure::BadListing),
                    Some(Failure::Unexpected) => Err(Failure::Unexpected),
                };
            }
        };
    }
    panic!("the run does not end");
}

/// Makes the commits that `root` describes, and checks out `checkout` in the
/// main worktree.
fn build_repo(root: &CommitDescription, checkout: Option<&str>) -> Repo {
    fn process(repo: &mut Repo, c: &CommitDescription, parent: Option<String>) {
        let id = repo.add_commit(parent, c.get_message(), c.get_changes().clone());
        for branch in c.get_branch_names() {
            repo.branches.insert(branch.clone(), id.clone());
        }
        repo.worktrees[0].head = Place::Detached(id.clone());
        for child in c.get_children() {
            process(repo, child, Some(id.clone()));
        }
    }
    let mut repo = Repo::new();
    process(&mut repo, root, None);
    if let Some(name) = checkout {
        assert!(repo.branches.contains_key(name), "couldn't check out final thing");
        repo.worktrees[0].head = Place::Branch(name.to_string());
    }
    repo
}

/// What holds after every run that ended without failure.
fn check_after_run(before: &Repo, after: &Repo, options: &Options) {
    let onto = options.onto.unwrap_or("master");
    assert_eq!(before.names(), after.names(), "the set of branches changed");
    assert!(!after.branches.contains_key(&temp_branch_name()));
    let scratch = after.worktree(SCRATCH).expect("the private worktree");
    assert!(matches!(after.worktrees[scratch].head, Place::Detached(_)));
    assert!(after.worktrees.iter().all(|w| w.rebasing.is_none()));
    assert_eq!(before.tip(onto), after.tip(onto));
    let integration = after.ancestry(&after.tip(onto));
    for name in after.names() {
        let moved = before.tip(&name) != after.tip(&name);
        if moved {
            let ancestry = after.ancestry(&after.tip(&name));
            assert!(ancestry.iter().any(|id| integration.contains(id)));
            let rebased_onto = after.merge_base(&after.tip(&name), &after.tip(onto)).unwrap();
            let was_on = before.merge_base(&before.tip(&name), &before.tip(onto)).unwrap();
            assert!(after.is_ancestor(&was_on, &rebased_onto), "{} went back", name);
        }
        let users = after.worktrees.iter().filter(|w| w.head == Place::Branch(name.clone())).count();
        assert!(users <= 1, "{} is checked out twice", name);
    }
    for (branch, recorded) in after.ledger.clone().unwrap_or_default() {
        if after.branches.contains_key(&branch) && before.tip(&branch) != after.tip(&branch) {
            assert_eq!(after.tip(&branch), recorded);
        }
    }
}

/// Runs the tool, checks what holds after every run, and runs it once more
/// to see that nothing changes.
fn run_and_check(repo: &mut Repo, options: &Options) -> Vec<Note> {
    let before = repo.clone();
    let notes = autorebase(repo, options).expect("error autorebasing");
    check_after_run(&before, repo, options);
    let settled = repo.clone();
    let rebases = repo.rebases;
    autorebase(repo, options).expect("error autorebasing again");
    assert_eq!(settled.state(), repo.state(), "a second run changed the repository");
    assert_eq!(rebases, repo.rebases, "a second run tried a rebase");
    notes
}

fn first_second() -> CommitDescription {
    commit("First").write("a.txt", "hello")
}

fn conflicting() -> CommitDescription {
    commit("First")
        .write("a.txt", "hello")
        .child(
            commit("Second").write("a.txt", "world").child(
                commit("Third")
                    .write("b.txt", "and")
                    .child(commit("Fourth").write("b.txt", "others").branch("master")),
            ),
        )
        .child(commit("WIP").write("b.txt", "goodbye").branch("wip"))
}

fn simple_topic(slow: bool) {
    let root = first_second()
        .child(commit("Second").write("a.txt", "world").branch("master"))
        .child(commit("WIP").write("b.txt", "foo").branch("wip"));
    let mut repo = build_repo(&root, Some("master"));
    let master = repo.tip("master");
    let notes = run_and_check(&mut repo, &onto_master(slow));
    assert_eq!(repo.parent_of(&repo.tip("wip")), Some(master.clone()));
    assert_eq!(repo.tip("master"), master);
    assert_eq!(repo.ledger, Some(vec![]));
    assert_eq!(repo.tree(&repo.tip("wip")).get("b.txt"), Some(&"foo".to_string()));
    assert_eq!(repo.tree(&repo.tip("wip")).get("a.txt"), Some(&"world".to_string()));
    assert!(notes.contains(&Note::Success));
    assert!(!notes.contains(&Note::Conflicts));
}

#[test]
fn simple_topic_slow() {
    simple_topic(true);
}

#[test]
fn simple_topic_fast() {
    simple_topic(false);
}

fn chain_on_topic(slow: bool) {
    let root = first_second()
        .child(commit("Second").write("a.txt", "world").branch("master"))
        .child(
            commit("WIP1")
                .write("b.txt", "foo1")
                .branch("wip1")
                .child(commit("WIP2").write("b.txt", "foo2").branch("wip2")),
        );
    let mut repo = build_repo(&root, Some("master"));
    run_and_check(&mut repo, &onto_master(slow));
    assert_eq!(repo.parent_of(&repo.tip("wip2")), Some(repo.tip("wip1")));
    assert_eq!(repo.parent_of(&repo.tip("wip1")), Some(repo.tip("master")));
}

#[test]
fn chain_on_topic_slow() {
    chain_on_topic(true);
}

#[test]
fn chain_on_topic_fast() {
    chain_on_topic(false);
}

fn several_topics(slow: bool) {
    let root = first_second()
        .child(commit("Second").write("a.txt", "world").branch("master"))
        .child(commit("WIP 1").write("b.txt", "foo1").branch("wip1"))
        .child(commit("WIP 2").write("b.txt", "foo2").branch("wip2"));
    let mut repo = build_repo(&root, Some("master"));
    let notes = run_and_check(&mut repo, &onto_master(slow));
    assert_eq!(repo.parent_of(&repo.tip("wip1")), Some(repo.tip("master")));
    assert_eq!(repo.parent_of(&repo.tip("wip2")), Some(repo.tip("master")));
    assert!(repo.tip("wip1") != repo.tip("wip2"));
    assert_eq!(notes.iter().filter(|n| **n == Note::Success).count(), 2);
    assert_eq!(repo.ledger, Some(vec![]));
}

#[test]
fn several_topics_slow() {
    several_topics(true);
}

#[test]
fn several_topics_fast() {
    several_topics(false);
}

fn hard_conflict(slow: bool) -> Repo {
    let mut repo = build_repo(&conflicting(), Some("master"));
    let fourth = repo.tip("master");
    let third = repo.parent_of(&fourth).unwrap();
    let second = repo.parent_of(&third).unwrap();
    let notes = run_and_check(&mut repo, &onto_master(slow));
    assert_eq!(repo.parent_of(&repo.tip("wip")), Some(second));
    assert_eq!(repo.ledger, Some(vec![("wip".to_string(), repo.tip("wip"))]));
    assert_eq!(notes.iter().filter(|n| **n == Note::Stunted).count(), 1);
    assert_eq!(notes.contains(&Note::FindingFirstConflict), !slow);
    repo
}

#[test]
fn hard_conflict_slow() {
    let repo = hard_conflict(true);
    let tried: Vec<&Vec<String>> =
        repo.commands.iter().filter(|c| c.len() == 2 && c[0] == "rebase" && c[1] != "--abort").collect();
    assert_eq!(tried.len(), 3);
}

#[test]
fn hard_conflict_fast() {
    let repo = hard_conflict(false);
    let tried: Vec<&Vec<String>> =
        repo.commands.iter().filter(|c| c.len() == 2 && c[0] == "rebase" && c[1] != "--abort").collect();
    assert_eq!(tried.len(), 2);
    let probes = repo.commands.iter().filter(|c| c.len() == 4 && c[2] == "rebase").count();
    assert_eq!(probes, 1);
}

fn resume_after_conflict(slow: bool) {
    let mut repo = hard_conflict(slow);
    let blocked_at = repo.tip("wip");
    let fixed = repo.add_commit(
        Some(repo.tip("master")),
        "Remove conflict",
        vec![("b.txt".to_string(), None)],
    );
    repo.branches.insert("master".to_string(), fixed.clone());
    let rebases = repo.rebases;
    let notes = autorebase(&mut repo, &onto_master(slow)).expect("error autorebasing");
    assert_eq!(repo.tip("wip"), blocked_at);
    assert_eq!(repo.rebases, rebases);
    assert!(notes.contains(&Note::SkippedBlocked));
    assert_eq!(repo.ledger, Some(vec![("wip".to_string(), blocked_at.clone())]));

    let more = repo.add_commit(
        Some(blocked_at),
        "Unrelated change",
        vec![("c.txt".to_string(), Some("unrelated".to_string()))],
    );
    repo.branches.insert("wip".to_string(), more);
    run_and_check(&mut repo, &onto_master(slow));
    assert!(repo.is_ancestor(&fixed, &repo.tip("wip")));
    assert_eq!(repo.range(&fixed, &repo.tip("wip")).len(), 2);
    assert_eq!(repo.ledger, Some(vec![]));
    assert_eq!(repo.tree(&repo.tip("wip")).get("b.txt"), Some(&"goodbye".to_string()));
}

#[test]
fn resume_after_conflict_slow() {
    resume_after_conflict(true);
}

#[test]
fn resume_after_conflict_fast() {
    resume_after_conflict(false);
}

fn dirty_worktree(slow: bool) {
    let root = first_second()
        .child(commit("Second").write("a.txt", "world").branch("master"))
        .child(commit("WIP").write("b.txt", "foo").branch("wip"));
    let mut repo = build_repo(&root, Some("wip"));
    repo.worktrees[0].dirty = true;
    let wip = repo.tip("wip");
    let mut run = Run::new(REPO, Some("master"), slow, false, None);
    let mut event = Event::Start;
    let mut listed = None;
    loop {
        let (next, said) = run.step(event);
        run = next;
        if said.contains(&Note::Listed) {
            listed = Some(
                run.branches()
                    .iter()
                    .map(|b| {
                        autorebase::branches::classify(
                            b,
                            run.onto(),
                            run.include_non_local(),
                            run.filter(),
                        )
                    })
                    .collect::<Vec<_>>(),
            );
        }
        event = match pending(run.phase()) {
            Action::Git => {
                let command = invocation(&run).unwrap();
                repo.git(&command.dir, &command.args)
            }
            Action::ReadClock => Event::Clock { preset: true, seconds: 0 },
            Action::LoadLedger => Event::Entries(None),
            Action::ProbeDirectory => Event::Flag(repo.worktree(&scratch_dir(&run)).is_some()),
            Action::Finish => break,
            _ => Event::Saved,
        };
    }
    assert!(run.failure().is_none());
    assert_eq!(
        listed,
        Some(vec![
            autorebase::branches::Disposition::Target,
            autorebase::branches::Disposition::Dirty
        ])
    );
    assert_eq!(repo.tip("wip"), wip);
    assert_eq!(repo.ledger, None);
    assert_eq!(repo.rebases, 0);
    assert_eq!(repo.worktrees[0].head, Place::Branch("wip".to_string()));
}

#[test]
fn dirty_worktree_slow() {
    dirty_worktree(true);
}

#[test]
fn dirty_worktree_fast() {
    dirty_worktree(false);
}

#[test]
fn branch_filter() {
    let root = first_second()
        .child(commit("Second").write("a.txt", "world").branch("master"))
        .child(commit("A").write("b.txt", "a").branch("feat/a"))
        .child(commit("B").write("c.txt", "b").branch("feat/b"))
        .child(commit("X").write("d.txt", "x").branch("chore/x"));
    let mut repo = build_repo(&root, Some("master"));
    let chore = repo.tip("chore/x");
    let options = Options {
        start_dir: REPO,
        onto: Some("master"),
        slow: false,
        include_non_local: false,
        filter: Some("feat/*"),
    };
    let notes = run_and_check(&mut repo, &options);
    assert_eq!(repo.parent_of(&repo.tip("feat/a")), Some(repo.tip("master")));
    assert_eq!(repo.parent_of(&repo.tip("feat/b")), Some(repo.tip("master")));
    assert_eq!(repo.tip("chore/x"), chore);
    let turns: Vec<&Note> = notes.iter().filter(|n| matches!(n, Note::Rebasing(_))).collect();
    assert_eq!(turns, vec![&Note::Rebasing(1), &Note::Rebasing(2)]);
}

fn checked_out_clean(slow: bool) {
    let root = first_second()
        .child(commit("Second").write("a.txt", "world").branch("master"))
        .child(commit("WIP").write("b.txt", "foo").branch("wip"));
    let mut repo = build_repo(&root, Some("wip"));
    run_and_check(&mut repo, &onto_master(slow));
    assert_eq!(repo.parent_of(&repo.tip("wip")), Some(repo.tip("master")));
    assert_eq!(repo.worktrees[0].head, Place::Branch("wip".to_string()));
    assert!(!repo.commands.contains(&vec!["switch".to_string(), "wip".to_string()]));
}

#[test]
fn checked_out_clean_slow() {
    checked_out_clean(true);
}

#[test]
fn checked_out_clean_fast() {
    checked_out_clean(false);
}

fn checked_out_with_conflict(slow: bool) {
    let mut repo = build_repo(&conflicting(), Some("wip"));
    let fourth = repo.tip("master");
    let second = repo.parent_of(&repo.parent_of(&fourth).unwrap()).unwrap();
    run_and_check(&mut repo, &onto_master(slow));
    assert_eq!(repo.parent_of(&repo.tip("wip")), Some(second));
    assert_eq!(repo.worktrees[0].head, Place::Branch("wip".to_string()));
    assert_eq!(repo.ledger, Some(vec![("wip".to_string(), repo.tip("wip"))]));
}

#[test]
fn checked_out_with_conflict_slow() {
    checked_out_with_conflict(true);
}

#[test]
fn checked_out_with_conflict_fast() {
    checked_out_with_conflict(false);
}

fn started_in_another_worktree(slow: bool) {
    let root = first_second()
        .child(commit("Second").write("a.txt", "world").branch("master"))
        .child(commit("WIP").write("b.txt", "foo").branch("wip"));
    let mut repo = build_repo(&root, Some("master"));
    let master = repo.tip("master");
    repo.branches.insert("another".to_string(), master.clone());
    repo.add_worktree("/elsewhere/another", Place::Branch("another".to_string()));
    let options = Options {
        start_dir: "/elsewhere/another",
        onto: Some("master"),
        slow,
        include_non_local: false,
        filter: None,
    };
    run_and_check(&mut repo, &options);
    assert_eq!(repo.parent_of(&repo.tip("wip")), Some(master.clone()));
    assert_eq!(repo.tip("another"), master);
    assert!(repo.worktree(SCRATCH).is_some());
}

#[test]
fn started_in_another_worktree_slow() {
    started_in_another_worktree(true);
}

#[test]
fn started_in_another_worktree_fast() {
    started_in_another_worktree(false);
}

fn with_upstream(include_non_local: bool) -> Repo {
    let root = first_second()
        .child(commit("Second").write("a.txt", "world").branch("master"))
        .child(commit("Third").write("b.txt", "foo").branch("other_main"))
        .child(commit("wip").write("c.txt", "foo").branch("wip"));
    let mut repo = build_repo(&root, Some("master"));
    repo.upstreams.insert("other_main".to_string(), "master".to_string());
    let options = Options {
        start_dir: REPO,
        onto: Some("master"),
        slow: false,
        include_non_local,
        filter: None,
    };
    run_and_check(&mut repo, &options);
    repo
}

#[test]
fn branches_with_upstream_are_skipped() {
    let repo = with_upstream(false);
    let first = repo.parent_of(&repo.tip("master"));
    assert_eq!(repo.parent_of(&repo.tip("other_main")), first);
    assert_eq!(repo.parent_of(&repo.tip("wip")), Some(repo.tip("master")));
}

#[test]
fn branches_with_upstream_are_included() {
    let repo = with_upstream(true);
    assert_eq!(repo.parent_of(&repo.tip("other_main")), Some(repo.tip("master")));
    assert_eq!(repo.parent_of(&repo.tip("wip")), Some(repo.tip("master")));
}

#[test]
fn integration_branch_is_pulled_where_it_is_checked_out() {
    let root = first_second().branch("master");
    let mut repo = build_repo(&root, Some("master"));
    let ahead = repo.add_commit(Some(repo.tip("master")), "Upstream", vec![]);
    repo.upstreams.insert("master".to_string(), "origin/master".to_string());
    repo.remotes.insert("origin/master".to_string(), ahead.clone());
    let notes = autorebase(&mut repo, &onto_master(false)).expect("error autorebasing");
    assert_eq!(repo.tip("master"), ahead);
    assert_eq!(notes, vec![Note::CreatingWorktree, Note::Listed, Note::Pulling, Note::Pulled]);
    assert!(!repo.commands.contains(&vec!["switch".to_string(), "master".to_string()]));
}

#[test]
fn integration_branch_is_pulled_in_the_private_worktree() {
    let root = first_second().branch("master").child(commit("WIP").branch("wip"));
    let mut repo = build_repo(&root, Some("wip"));
    let ahead = repo.add_commit(Some(repo.tip("master")), "Upstream", vec![]);
    repo.upstreams.insert("master".to_string(), "origin/master".to_string());
    repo.remotes.insert("origin/master".to_string(), ahead.clone());
    let notes = autorebase(&mut repo, &onto_master(false)).expect("error autorebasing");
    assert_eq!(repo.tip("master"), ahead);
    assert_eq!(&notes[..4], &[Note::CreatingWorktree, Note::Listed, Note::Pulling, Note::Pulled]);
    let at = repo.commands.iter().position(|c| c == &vec!["switch".to_string(), "master".to_string()]);
    let at = at.expect("a switch to the integration branch");
    assert_eq!(repo.commands[at + 1], vec!["pull".to_string(), "--ff-only".to_string()]);
    assert_eq!(repo.commands[at + 2], vec!["switch".to_string(), "--detach".to_string()]);
    let scratch = repo.worktree(SCRATCH).unwrap();
    assert!(matches!(repo.worktrees[scratch].head, Place::Detached(_)));
    assert_eq!(repo.parent_of(&repo.tip("wip")), Some(ahead));
}

#[test]
fn integration_branch_is_not_pulled_where_it_is_dirty() {
    let root = first_second().branch("master");
    let mut repo = build_repo(&root, Some("master"));
    repo.upstreams.insert("master".to_string(), "origin/master".to_string());
    repo.worktrees[0].dirty = true;
    let notes = autorebase(&mut repo, &onto_master(false)).expect("error autorebasing");
    assert_eq!(notes, vec![Note::CreatingWorktree, Note::Listed, Note::NotPullingDirty]);
    assert!(!repo.commands.contains(&vec!["pull".to_string(), "--ff-only".to_string()]));
}

#[test]
fn integration_branch_without_upstream_is_not_pulled() {
    let root = first_second().branch("master");
    let mut repo = build_repo(&root, Some("master"));
    let notes = autorebase(&mut repo, &onto_master(false)).expect("error autorebasing");
    assert_eq!(notes, vec![Note::CreatingWorktree, Note::Listed, Note::NotPullingNoUpstream]);
}

#[test]
fn a_pull_that_cannot_fast_forward_fails() {
    let root = first_second().branch("master").child(commit("Local").branch("local"));
    let mut repo = build_repo(&root, Some("master"));
    let theirs = repo.add_commit(Some(repo.tip("master")), "Theirs", vec![]);
    let ours = repo.tip("local");
    repo.branches.insert("master".to_string(), ours);
    repo.upstreams.insert("master".to_string(), "origin/master".to_string());
    repo.remotes.insert("origin/master".to_string(), theirs);
    let result = autorebase(&mut repo, &onto_master(false));
    assert!(matches!(result, Err(Failure::Rejected(_))));
}

#[test]
fn default_branch_is_asked_for() {
    let root = first_second()
        .child(commit("Second").write("a.txt", "world").branch("main"))
        .child(commit("WIP").write("b.txt", "foo").branch("wip"));
    let mut repo = build_repo(&root, Some("main"));
    repo.default_branch = "main".to_string();
    let options =
        Options { start_dir: REPO, onto: None, slow: false, include_non_local: false, filter: None };
    autorebase(&mut repo, &options).expect("error autorebasing");
    assert_eq!(repo.parent_of(&repo.tip("wip")), Some(repo.tip("main")));
    assert!(repo.commands.iter().any(|c| c.contains(&"init.defaultBranch".to_string())));
}

#[test]
fn missing_integration_branch_fails() {
    let root = first_second().branch("trunk");
    let mut repo = build_repo(&root, Some("trunk"));
    let result = autorebase(&mut repo, &onto_master(false));
    assert!(matches!(result, Err(Failure::TargetNotFound)));
}

#[test]
fn old_git_fails() {
    let root = first_second().branch("master");
    let mut repo = build_repo(&root, Some("master"));
    repo.version = "git version 2.22.4\n".to_string();
    assert!(matches!(autorebase(&mut repo, &onto_master(false)), Err(Failure::TooOld)));
    assert_eq!(repo.commands.len(), 1);
    repo.version = "git version 2.23\n".to_string();
    assert!(autorebase(&mut repo, &onto_master(false)).is_ok());
    repo.version = "git version 2.31.1.windows.1\n".to_string();
    assert!(autorebase(&mut repo, &onto_master(false)).is_ok());
    repo.version = "version 2.31\n".to_string();
    assert!(matches!(autorebase(&mut repo, &onto_master(false)), Err(Failure::BadVersion)));
}

#[test]
fn committer_date_is_frozen_unless_set() {
    let root = first_second().branch("master");
    let mut repo = build_repo(&root, Some("master"));
    repo.date = None;
    autorebase(&mut repo, &onto_master(false)).expect("error autorebasing");
    assert_eq!(repo.date, Some("@1600000000 +0000".to_string()));
    repo.date = Some("@0 +0000".to_string());
    autorebase(&mut repo, &onto_master(false)).expect("error autorebasing");
    assert_eq!(repo.date, Some("@0 +0000".to_string()));
}

#[test]
fn leftover_temporary_branch_is_no_branch_of_the_user() {
    let root = first_second()
        .child(commit("Second").write("a.txt", "world").branch("master"))
        .child(commit("Old").write("z.txt", "z").branch("autorebase_tmp_safe_to_delete"));
    let mut repo = build_repo(&root, Some("master"));
    let leftover = repo.tip("autorebase_tmp_safe_to_delete");
    let notes = autorebase(&mut repo, &onto_master(false)).expect("error autorebasing");
    assert_eq!(repo.tip("autorebase_tmp_safe_to_delete"), leftover);
    assert!(!notes.iter().any(|n| matches!(n, Note::Rebasing(_))));
}

#[test]
fn search_resets_a_leftover_temporary_branch_and_deletes_it() {
    let mut repo = build_repo(&conflicting(), Some("master"));
    let first = repo.parent_of(&repo.tip("wip")).unwrap();
    repo.branches.insert("autorebase_tmp_safe_to_delete".to_string(), first);
    autorebase(&mut repo, &onto_master(false)).expect("error autorebasing");
    assert!(!repo.branches.contains_key("autorebase_tmp_safe_to_delete"));
    let fourth = repo.tip("master");
    let second = repo.parent_of(&repo.parent_of(&fourth).unwrap()).unwrap();
    assert_eq!(repo.parent_of(&repo.tip("wip")), Some(second));
}

#[test]
fn rebase_left_by_an_earlier_run_is_aborted() {
    for slow in [true, false] {
        let mut repo = build_repo(&conflicting(), Some("master"));
        let fourth = repo.tip("master");
        let second = repo.parent_of(&repo.parent_of(&fourth).unwrap()).unwrap();
        repo.add_worktree(SCRATCH, Place::Detached(fourth.clone()));
        let scratch = repo.worktree(SCRATCH).unwrap();
        repo.worktrees[scratch].rebasing = Some(Place::Detached(second.clone()));
        autorebase(&mut repo, &onto_master(slow)).expect("error autorebasing");
        assert_eq!(repo.parent_of(&repo.tip("wip")), Some(second));
        assert!(repo.worktrees[scratch].rebasing.is_none());
        assert!(matches!(repo.worktrees[scratch].head, Place::Detached(_)));
        let aborts = repo.commands.iter().filter(|c| c[0] == "rebase" && c[1] == "--abort").count();
        assert_eq!(aborts, 3);
    }
}

fn words(args: &[&str]) -> Vec<String> {
    args.iter().map(|a| a.to_string()).collect()
}

#[test]
fn temporary_branch_is_deleted_when_the_search_fails() {
    let mut repo = build_repo(&conflicting(), Some("master"));
    let wip = repo.tip("wip");
    repo.refused.push(words(&["--no-pager", "log", "--format=%H", "wip..HEAD"]));
    let result = autorebase(&mut repo, &onto_master(false));
    assert!(matches!(result, Err(Failure::Rejected(_))));
    assert!(!repo.branches.contains_key("autorebase_tmp_safe_to_delete"));
    assert!(repo.worktrees.iter().all(|w| w.rebasing.is_none()));
    let scratch = repo.worktree(SCRATCH).unwrap();
    assert_eq!(repo.worktrees[scratch].head, Place::Detached(wip.clone()));
    assert_eq!(repo.tip("wip"), wip);
    let n = repo.commands.len();
    assert_eq!(repo.commands[n - 5], words(&["rebase", "--abort"]));
    assert_eq!(repo.commands[n - 4], words(&["switch", "--detach", "master"]));
    assert_eq!(
        repo.commands[n - 3],
        words(&["branch", "--delete", "--force", "autorebase_tmp_safe_to_delete"])
    );
    assert_eq!(repo.commands[n - 2], words(&["switch", "wip"]));
    assert_eq!(repo.commands[n - 1], words(&["switch", "--detach", "wip"]));
}

#[test]
fn search_that_fails_without_a_rebase_in_progress_is_a_failure() {
    let mut repo = build_repo(&conflicting(), Some("master"));
    repo.refused.push(words(&["-c", "commit.gpgsign=false", "rebase", "wip"]));
    let result = autorebase(&mut repo, &onto_master(false));
    assert!(matches!(result, Err(Failure::NotRebasing)));
    assert!(!repo.branches.contains_key("autorebase_tmp_safe_to_delete"));
    let n = repo.commands.len();
    assert_eq!(repo.commands[n - 4], words(&["switch", "--detach", "master"]));
    assert_eq!(repo.commands[n - 2], words(&["switch", "wip"]));
    assert_eq!(repo.commands[n - 1], words(&["switch", "--detach", "wip"]));
    let scratch = repo.worktree(SCRATCH).unwrap();
    assert!(matches!(repo.worktrees[scratch].head, Place::Detached(_)));
}

#[test]
fn link_file_that_names_no_directory_is_a_failure() {
    let mut repo = build_repo(&conflicting(), Some("master"));
    repo.link = Some(b"gitdir /repo/.git/worktrees/autorebase_worktree\n".to_vec());
    let result = autorebase(&mut repo, &onto_master(false));
    assert!(matches!(result, Err(Failure::BadGitDir)));
    assert_eq!(repo.rebases, 0);
}

#[test]
fn metadata_of_a_linked_worktree_is_found_by_its_name() {
    let mut repo = build_repo(&conflicting(), Some("master"));
    let mut run = Run::new(REPO, Some("master"), true, false, None);
    let mut event = Event::Start;
    let mut asked = Vec::new();
    loop {
        let (next, _) = run.step(event);
        run = next;
        event = match pending(run.phase()) {
            Action::Git => {
                let command = invocation(&run).unwrap();
                repo.git(&command.dir, &command.args)
            }
            Action::ReadClock => Event::Clock { preset: true, seconds: 0 },
            Action::LoadLedger => Event::Entries(None),
            Action::ProbeDirectory => Event::Flag(repo.worktree(&scratch_dir(&run)).is_some()),
            Action::ReadLink => {
                let path = link_file(&run).unwrap();
                asked.push(path.clone());
                repo.link(&path)
            }
            Action::ProbeRebase => {
                asked.extend(sentinels(&run));
                Event::Flag(repo.rebasing(&sentinels(&run)))
            }
            Action::Finish => break,
            _ => Event::Saved,
        };
    }
    assert!(run.failure().is_none());
    assert_eq!(run.gitdir(), "/repo/.git/worktrees/autorebase_worktree");
    assert_eq!(asked[0], format!("{}/.git", SCRATCH));
    assert_eq!(asked[1], "/repo/.git/worktrees/autorebase_worktree/rebase-apply");
    assert_eq!(asked[2], "/repo/.git/worktrees/autorebase_worktree/rebase-merge");
    assert_eq!(link_file(&run), None);
}

#[test]
fn private_worktree_leaves_the_integration_branch_when_the_pull_fails() {
    let root = first_second().branch("master").child(commit("Local").branch("local"));
    let mut repo = build_repo(&root, Some("local"));
    let theirs = repo.add_commit(Some(repo.tip("master")), "Theirs", vec![]);
    let ours = repo.tip("local");
    repo.branches.insert("master".to_string(), ours.clone());
    repo.upstreams.insert("master".to_string(), "origin/master".to_string());
    repo.upstreams.insert("local".to_string(), "origin/local".to_string());
    repo.remotes.insert("origin/master".to_string(), theirs);
    let result = autorebase(&mut repo, &onto_master(false));
    assert!(matches!(result, Err(Failure::Rejected(_))));
    let n = repo.commands.len();
    assert_eq!(repo.commands[n - 3], words(&["switch", "master"]));
    assert_eq!(repo.commands[n - 2], words(&["pull", "--ff-only"]));
    assert_eq!(repo.commands[n - 1], words(&["switch", "--detach"]));
    let scratch = repo.worktree(SCRATCH).unwrap();
    assert_eq!(repo.worktrees[scratch].head, Place::Detached(ours.clone()));
    assert_eq!(repo.tip("master"), ours);
}

#[test]
fn private_worktree_leaves_the_branch_when_a_rebase_cannot_be_run() {
    for slow in [true, false] {
        let mut repo = build_repo(&conflicting(), Some("master"));
        let wip = repo.tip("wip");
        let fourth = repo.tip("master");
        repo.broken.push(words(&["rebase", &fourth]));
        let result = autorebase(&mut repo, &onto_master(slow));
        match result {
            Err(Failure::Broken(report)) => assert_eq!(report, "could not run git"),
            other => panic!("{:?}", other),
        }
        let n = repo.commands.len();
        assert_eq!(repo.commands[n - 2], words(&["rebase", &fourth]));
        assert_eq!(repo.commands[n - 1], words(&["switch", "--detach", "wip"]));
        let scratch = repo.worktree(SCRATCH).unwrap();
        assert_eq!(repo.worktrees[scratch].head, Place::Detached(wip.clone()));
        assert_eq!(repo.tip("wip"), wip);
        assert_eq!(repo.ledger, Some(vec![]));
    }
}

#[test]
fn private_worktree_is_taken_off_its_branch_when_the_switch_fails() {
    let mut repo = build_repo(&conflicting(), Some("master"));
    let first = repo.parent_of(&repo.tip("wip")).unwrap();
    repo.branches.insert("old".to_string(), first.clone());
    repo.upstreams.insert("old".to_string(), "origin/old".to_string());
    repo.add_worktree(SCRATCH, Place::Branch("old".to_string()));
    repo.refused.push(words(&["switch", "wip"]));
    let result = autorebase(&mut repo, &onto_master(true));
    assert!(matches!(result, Err(Failure::Rejected(_))));
    let n = repo.commands.len();
    assert_eq!(repo.commands[n - 2], words(&["switch", "wip"]));
    assert_eq!(repo.commands[n - 1], words(&["switch", "--detach", "wip"]));
    let scratch = repo.worktree(SCRATCH).unwrap();
    assert_eq!(repo.worktrees[scratch].head, Place::Detached(repo.tip("wip")));
    assert_eq!(repo.rebases, 0);
}

#[test]
fn private_worktree_left_on_a_branch_is_taken_off_by_the_next_turn() {
    let mut repo = build_repo(&conflicting(), Some("master"));
    let first = repo.parent_of(&repo.tip("wip")).unwrap();
    repo.branches.insert("old".to_string(), first);
    repo.upstreams.insert("old".to_string(), "origin/old".to_string());
    repo.add_worktree(SCRATCH, Place::Branch("old".to_string()));
    autorebase(&mut repo, &onto_master(false)).expect("error autorebasing");
    let scratch = repo.worktree(SCRATCH).unwrap();
    assert_eq!(repo.worktrees[scratch].head, Place::Detached(repo.tip("wip")));
}

#[test]
fn private_worktree_leaves_the_branch_when_the_search_cannot_begin() {
    let mut repo = build_repo(&conflicting(), Some("master"));
    let wip = repo.tip("wip");
    repo.refused.push(words(&["switch", "--force-create", "autorebase_tmp_safe_to_delete", "master"]));
    let result = autorebase(&mut repo, &onto_master(false));
    assert!(matches!(result, Err(Failure::Rejected(_))));
    let n = repo.commands.len();
    assert_eq!(repo.commands[n - 1], words(&["switch", "--detach", "wip"]));
    let scratch = repo.worktree(SCRATCH).unwrap();
    assert_eq!(repo.worktrees[scratch].head, Place::Detached(wip));
    assert!(!repo.branches.contains_key("autorebase_tmp_safe_to_delete"));
}

#[test]
fn failure_names_the_missing_integration_branch() {
    let root = first_second().branch("trunk");
    let mut repo = build_repo(&root, Some("trunk"));
    let mut run = Run::new(REPO, Some("master"), false, false, None);
    let mut event = Event::Start;
    loop {
        let (next, _) = run.step(event);
        run = next;
        assert_eq!(failure_text(&run).is_some(), run.failure().is_some());
        event = match pending(run.phase()) {
            Action::Git => {
                let command = invocation(&run).unwrap();
                repo.git(&command.dir, &command.args)
            }
            Action::ReadClock => Event::Clock { preset: true, seconds: 0 },
            Action::LoadLedger => Event::Entries(None),
            Action::ProbeDirectory => Event::Flag(true),
            Action::Finish => break,
            _ => Event::Saved,
        };
    }
    assert_eq!(failure_text(&run), Some("Couldn't find target branch 'master'".to_string()));
    let (failed, _) = Run::new(REPO, None, false, false, None).step(Event::Flag(true));
    assert_eq!(failure_text(&failed), Some("Unexpected answer to a request".to_string()));
}

/// Whatever command fails, a run leaves the branches of the user, no
/// temporary branch, no rebase in progress and the private worktree on no
/// branch.
fn failing(slow: bool) {
    let mut rng = rand::rng();
    for _ in 0..60 {
        let repo = scattered_repo();
        for at in 0..60 {
            let mut repo = repo.clone();
            repo.fails_at = Some((at, rng.random_bool(0.5)));
            let options = Options {
                start_dir: REPO,
                onto: Some("master"),
                slow,
                include_non_local: true,
                filter: None,
            };
            let names = repo.names();
            let result = autorebase(&mut repo, &options);
            assert_eq!(names, repo.names());
            assert!(repo.worktrees.iter().all(|w| w.rebasing.is_none()));
            if let Some(scratch) = repo.worktree(SCRATCH) {
                assert!(matches!(repo.worktrees[scratch].head, Place::Detached(_)), "{:?}", result);
            }
            if at >= repo.commands.len() {
                assert!(result.is_ok());
                break;
            }
        }
    }
}

#[test]
fn failing_runs_put_things_back_slow() {
    failing(true);
}

#[test]
fn failing_runs_put_things_back_fast() {
    failing(false);
}

#[test]
fn first_failure_of_the_search_is_the_one_reported() {
    let mut repo = build_repo(&conflicting(), Some("master"));
    repo.refused.push(words(&["-c", "commit.gpgsign=false", "rebase", "wip"]));
    repo.refused.push(words(&["switch", "--detach", "master"]));
    let result = autorebase(&mut repo, &onto_master(false));
    assert!(matches!(result, Err(Failure::NotRebasing)));
    assert!(repo.branches.contains_key("autorebase_tmp_safe_to_delete"));
}

#[test]
fn integration_branch_that_goes_onto_the_branch_teaches_nothing() {
    // The branch conflicts with the integration branch one way only: the
    // rebase of the branch is refused, the rebase of the temporary branch
    // goes through.
    let root = first_second()
        .child(commit("Second").write("a.txt", "world").branch("master"))
        .child(commit("WIP").write("b.txt", "foo").branch("wip"));
    let mut repo = build_repo(&root, Some("master"));
    let wip = repo.tip("wip");
    let master = repo.tip("master");
    repo.refused.push(words(&["rebase", &master]));
    let notes = run_and_check(&mut repo, &onto_master(false));
    assert_eq!(repo.tip("wip"), wip);
    assert_eq!(repo.ledger, Some(vec![("wip".to_string(), wip)]));
    assert!(notes.contains(&Note::FindingFirstConflict));
    assert!(!repo.commands.contains(&words(&["--no-pager", "log", "--format=%H", "wip..HEAD"])));
    assert!(!repo.branches.contains_key("autorebase_tmp_safe_to_delete"));
}

#[test]
fn ledger_entry_of_a_changed_branch_is_dropped() {
    let root = first_second()
        .child(commit("Second").write("a.txt", "world").branch("master"))
        .child(commit("WIP").write("b.txt", "foo").branch("wip"));
    let mut repo = build_repo(&root, Some("master"));
    repo.ledger = Some(vec![
        ("wip".to_string(), "0000".to_string()),
        ("gone".to_string(), "1111".to_string()),
    ]);
    run_and_check(&mut repo, &onto_master(false));
    assert_eq!(repo.ledger, Some(vec![("gone".to_string(), "1111".to_string())]));
    assert_eq!(repo.parent_of(&repo.tip("wip")), Some(repo.tip("master")));
}

#[test]
fn no_progress_is_recorded_at_the_old_tip() {
    let root = commit("First")
        .write("b.txt", "first")
        .child(commit("Second").write("b.txt", "second").branch("master"))
        .child(commit("WIP").write("b.txt", "mine").branch("wip"));
    for slow in [true, false] {
        let mut repo = build_repo(&root, Some("master"));
        let wip = repo.tip("wip");
        run_and_check(&mut repo, &onto_master(slow));
        assert_eq!(repo.tip("wip"), wip);
        assert_eq!(repo.ledger, Some(vec![("wip".to_string(), wip)]));
    }
}

#[test]
fn steps_ask_for_the_expected_commands() {
    let mut repo = build_repo(&conflicting(), Some("master"));
    autorebase(&mut repo, &onto_master(false)).expect("error autorebasing");
    let fourth = repo.tip("master");
    let third = repo.parent_of(&fourth).unwrap();
    let second = repo.parent_of(&third).unwrap();
    let first = repo.parent_of(&second).unwrap();
    let expected: Vec<Vec<String>> = vec![
        vec!["version"],
        vec!["rev-parse", "--show-toplevel"],
        vec!["rev-parse", "--git-common-dir"],
        vec!["worktree", "add", "--detach", SCRATCH],
        vec![
            "for-each-ref",
            "--format=%(refname:short)%00%(upstream:short)%00%(worktreepath)",
            "refs/heads",
        ],
        vec!["diff-index", "--quiet", "HEAD"],
        vec!["diff-index", "--quiet", "--cached", "HEAD"],
        vec!["rev-parse", "wip"],
        vec!["merge-base", "wip", "master"],
        vec!["--no-pager", "log", "--format=%H", &format!("{}..master", first)],
        vec!["switch", "wip"],
        vec!["rebase", &fourth],
        vec!["rebase", "--abort"],
        vec!["symbolic-ref", "--quiet", "--short", "HEAD"],
        vec!["switch", "--force-create", "autorebase_tmp_safe_to_delete", "master"],
        vec!["-c", "commit.gpgsign=false", "rebase", "wip"],
        vec!["--no-pager", "log", "--format=%H", "wip..HEAD"],
        vec!["rebase", "--abort"],
        vec!["switch", "--detach", "master"],
        vec!["branch", "--delete", "--force", "autorebase_tmp_safe_to_delete"],
        vec!["switch", "wip"],
        vec!["rebase", &second],
        vec!["switch", "--detach", "wip"],
        vec!["rev-parse", "wip"],
    ]
    .into_iter()
    .map(|c| c.into_iter().map(|a| a.to_string()).collect())
    .collect();
    assert_eq!(repo.commands, expected);
}

#[test]
fn an_answer_that_is_not_awaited_stops_the_run() {
    let run = Run::new(REPO, Some("master"), false, false, None);
    let (run, notes) = run.step(Event::Saved);
    assert!(notes.is_empty());
    assert_eq!(run.phase(), Phase::Finished);
    assert!(matches!(run.failure(), Some(Failure::Unexpected)));
    let (run, _) = run.step(Event::Start);
    assert_eq!(run.phase(), Phase::Finished);
    assert!(matches!(run.failure(), Some(Failure::Unexpected)));
}

#[test]
fn failures_of_commands_are_handed_on() {
    let run = Run::new(REPO, Some("master"), false, false, None);
    let (run, _) = run.step(Event::Start);
    assert_eq!(run.phase(), Phase::Version);
    let (run, _) = run.step(Event::Broken("no git".to_string()));
    match run.failure() {
        Some(Failure::Broken(report)) => assert_eq!(report, "no git"),
        other => panic!("{:?}", other),
    }
    let run = Run::new(REPO, Some("master"), false, false, None);
    let (run, _) = run.step(Event::Start);
    let (run, _) = run.step(Event::Rejected("exit 1".to_string()));
    match run.failure() {
        Some(failure) => assert_eq!(failure.message(), "exit 1"),
        None => panic!("no failure"),
    }
}

/// A tree of commits at random, with `master` where the first commit of the
/// tree is that takes it.
fn random_repo(allow_merges: bool) -> CommitDescription {
    assert!(!allow_merges);

    fn randomise_commit(branches: &mut BTreeSet<String>, depth: u32) -> CommitDescription {
        let mut rng = rand::rng();
        let mut c = CommitDescription::default()
            .message(&format!("Commit {}", rng.random_range(0..1000)))
            .write(
                &format!("{}.txt", rng.random_range(0..8)),
                &format!("{}", rng.random_range(0..8)),
            );
        if rng.random_bool(0.1) {
            let branch_name = format!("branch_{}", rng.random_range(0..1000000));
            if !branches.contains(&branch_name) {
                branches.insert(branch_name.clone());
                c = c.branch(&branch_name);
            }
        }
        let num_children = rng.random_range(0..100);
        let num_children = if depth > 100 || num_children < 30 {
            0
        } else if num_children < 90 {
            1
        } else if num_children < 95 {
            2
        } else {
            3
        };
        if !branches.contains("master") {
            c = c.branch("master");
            branches.insert("master".to_owned());
        }
        for _ in 0..num_children {
            c = c.child(randomise_commit(branches, depth + 1));
        }
        c
    }

    let mut branches = BTreeSet::new();
    randomise_commit(&mut branches, 0)
}

fn random_test(slow_conflict_detection: bool) {
    let root = random_repo(false);
    let mut repo = build_repo(&root, Some("master"));
    run_and_check(&mut repo, &onto_master(slow_conflict_detection));
}

#[test]
fn random_test_slow() {
    random_test(true);
}

#[test]
fn random_test_fast() {
    random_test(false);
}

fn random_test_many(slow_conflict_detection: bool) {
    for _ in 0..10 {
        random_test(slow_conflict_detection);
    }
}

#[test]
fn random_test_many_slow() {
    random_test_many(true);
}

#[test]
fn random_test_many_fast() {
    random_test_many(false);
}

/// A repository at random in which the integration branch and the topic
/// branches stand anywhere, some of them checked out, clean or not.
fn scattered_repo() -> Repo {
    let mut rng = rand::rng();
    let mut repo = Repo::new();
    let mut ids = vec![repo.add_commit(None, "Root", vec![("0.txt".to_string(), Some("0".to_string()))])];
    let count = rng.random_range(1..25);
    for n in 0..count {
        let parent = ids[rng.random_range(0..ids.len())].clone();
        let file = format!("{}.txt", rng.random_range(0..4));
        let contents = if rng.random_bool(0.1) { None } else { Some(format!("{}", rng.random_range(0..4))) };
        ids.push(repo.add_commit(Some(parent), &format!("Commit {}", n), vec![(file, contents)]));
    }
    let master = ids[rng.random_range(0..ids.len())].clone();
    repo.branches.insert("master".to_string(), master.clone());
    repo.worktrees[0].head = Place::Detached(master);
    for n in 0..rng.random_range(0..6) {
        let at = ids[rng.random_range(0..ids.len())].clone();
        let name = format!("topic/{}", n);
        repo.branches.insert(name.clone(), at);
        if rng.random_bool(0.2) {
            repo.upstreams.insert(name.clone(), "origin/x".to_string());
        }
        if rng.random_bool(0.2) {
            repo.add_worktree(&format!("/trees/t{}", n), Place::Branch(name));
            let last = repo.worktrees.len() - 1;
            repo.worktrees[last].dirty = rng.random_bool(0.3);
        }
    }
    if rng.random_bool(0.5) {
        let names = repo.names();
        let name = names[rng.random_range(0..names.len())].clone();
        if !repo.checked_out_elsewhere(0, &name) {
            repo.worktrees[0].head = Place::Branch(name);
        }
    }
    repo
}

fn scattered(slow: bool) {
    for _ in 0..40 {
        let mut repo = scattered_repo();
        let mut rng = rand::rng();
        let options = Options {
            start_dir: REPO,
            onto: Some("master"),
            slow,
            include_non_local: rng.random_bool(0.5),
            filter: if rng.random_bool(0.3) { Some("topic/*1*") } else { None },
        };
        let before = repo.clone();
        run_and_check(&mut repo, &options);
        for w in 1..before.worktrees.len() {
            assert_eq!(before.worktrees[w].head, repo.worktrees[w].head);
        }
        assert_eq!(before.worktrees[0].head, repo.worktrees[0].head);
    }
}

#[test]
fn scattered_repos_slow() {
    scattered(true);
}

#[test]
fn scattered_repos_fast() {
    scattered(false);
}
