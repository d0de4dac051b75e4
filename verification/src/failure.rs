//! The ways in which a run can fail.

use vstd::prelude::*;
use vstd::string::StringExecFns;
use crate::text::{decimal, decimal_text};

verus! {

/// Why a run stopped before its end.
#[derive(Debug)]
pub enum Failure {
    /// A command exited with a failure that the run cannot go on from. The
    /// text is the caller's report of it: the command line, the exit code and
    /// what the command printed.
    Rejected(String),
    /// A command could not be run, or a file could not be read or written.
    Broken(String),
    /// A line of the branch listing did not have three fields; the number is
    /// how many it had.
    FieldCount(usize),
    /// An answer that had to be text was not UTF-8.
    NotUtf8,
    /// The version answer did not start with the expected words.
    BadVersion,
    /// The version-control program is older than the run needs.
    TooOld,
    /// No local branch has the name of the integration branch.
    TargetNotFound,
    /// A rebase failed and yet left no rebase in progress.
    NotRebasing,
    /// The link file of a worktree did not name its metadata directory.
    BadGitDir,
    /// A line of a listing of commits named no commit.
    BadListing,
    /// The caller answered with an event that the pending action cannot have.
    Unexpected,
}

/// What to tell the user of a failure.
pub open spec fn message_of(failure: Failure) -> Seq<char> {
    match failure {
        Failure::Rejected(report) => report@,
        Failure::Broken(report) => report@,
        Failure::FieldCount(count) => "for-each-ref parse error, got "@ + decimal(count as nat)
            + " parts, expected 3"@,
        Failure::NotUtf8 => "The output of Git is not valid UTF-8"@,
        Failure::BadVersion => "Invalid `git version` output"@,
        Failure::TooOld => "Your Git installation is too old - version 2.23 or later is required"@,
        Failure::TargetNotFound => "Couldn't find target branch"@,
        Failure::NotRebasing => "Rebase failed but repo is not rebasing."@,
        Failure::BadGitDir => "The worktree does not name its Git directory"@,
        Failure::BadListing => "invalid git log output"@,
        Failure::Unexpected => "Unexpected answer to a request"@,
    }
}

impl Failure {
    /// What to tell the user of the failure.
    pub fn message(&self) -> (r: String)
        ensures
            r@ == message_of(*self),
    {
        match self {
            Failure::Rejected(report) => report.clone(),
            Failure::Broken(report) => report.clone(),
            Failure::FieldCount(count) => {
                let mut text = "for-each-ref parse error, got ".to_owned();
                let digits = decimal_text(*count as u64);
                text.append(digits.as_str());
                text.append(" parts, expected 3");
                text
            },
            Failure::NotUtf8 => "The output of Git is not valid UTF-8".to_owned(),
            Failure::BadVersion => "Invalid `git version` output".to_owned(),
            Failure::TooOld => "Your Git installation is too old - version 2.23 or later is required"
                .to_owned(),
            Failure::TargetNotFound => "Couldn't find target branch".to_owned(),
            Failure::NotRebasing => "Rebase failed but repo is not rebasing.".to_owned(),
            Failure::BadGitDir => "The worktree does not name its Git directory".to_owned(),
            Failure::BadListing => "invalid git log output".to_owned(),
            Failure::Unexpected => "Unexpected answer to a request".to_owned(),
        }
    }
}

} // verus!
