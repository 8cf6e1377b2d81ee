//! The version-control commands that can follow a substitution.
//!
//! Running a command is the caller's business. What the command line holds
//! is decided here.

use vstd::prelude::*;
use vstd::string::StringExecFns;

verus! {

/// The message under which a version bump is committed.
pub open spec fn commit_message_text(new_version: Seq<char>) -> Seq<char> {
    "feat: bumped to version "@ + new_version
}

/// The arguments that commit every change in `directory` as a bump to
/// `new_version`.
pub open spec fn commit_argument_texts(directory: Seq<char>, new_version: Seq<char>) -> Seq<
    Seq<char>,
> {
    seq!["-C"@, directory, "commit"@, "-am"@, commit_message_text(new_version)]
}

/// The arguments that push what was committed in `directory`.
pub open spec fn push_argument_texts(directory: Seq<char>) -> Seq<Seq<char>> {
    seq!["-C"@, directory, "push"@]
}

/// The message under which a bump to `new_version` is committed.
pub fn commit_message(new_version: &str) -> (message: String)
    ensures
        message@ == commit_message_text(new_version@),
{
    let mut message = "feat: bumped to version ".to_owned();
    message.append(new_version);
    message
}

/// The arguments for `git` that commit every change in the repository at
/// `directory` as a bump to `new_version`.
pub fn commit_arguments(directory: &str, new_version: &str) -> (arguments: Vec<String>)
    ensures
        arguments.deep_view() == commit_argument_texts(directory@, new_version@),
{
    let mut arguments: Vec<String> = Vec::new();
    arguments.push("-C".to_owned());
    arguments.push(directory.to_owned());
    arguments.push("commit".to_owned());
    arguments.push("-am".to_owned());
    arguments.push(commit_message(new_version));
    proof {
        assert(arguments.deep_view() =~= commit_argument_texts(directory@, new_version@));
    }
    arguments
}

/// The arguments for `git` that push what was committed in the repository
/// at `directory`.
pub fn push_arguments(directory: &str) -> (arguments: Vec<String>)
    ensures
        arguments.deep_view() == push_argument_texts(directory@),
{
    let mut arguments: Vec<String> = Vec::new();
    arguments.push("-C".to_owned());
    arguments.push(directory.to_owned());
    arguments.push("push".to_owned());
    proof {
        assert(arguments.deep_view() =~= push_argument_texts(directory@));
    }
    arguments
}

} // verus!
