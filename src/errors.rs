//! The errors of every operation on a branch stack: bad command lines,
//! failures of git and of the file system, and requests that the stack cannot
//! meet.
use vstd::prelude::*;
use vstd::string::{to_string_from_display_ensures, StringExecFns};

verus! {

/// The error that git2 reports. It is carried through unread.
#[verifier::external_type_specification]
#[verifier::external_body]
pub struct ExGitError(git2::Error);

/// The error that std's I/O reports while the stack file is read or
/// written. It is carried through unread.
#[verifier::external_type_specification]
#[verifier::external_body]
pub struct ExIoError(std::io::Error);

/// Everything that can go wrong.
#[derive(Debug)]
pub enum BranchStackError {
    /// The command line names an unknown subcommand.
    InvalidCommandError,
    /// A command-line argument is missing or has no valid value.
    ArgError(String),
    /// The repository could not do what was asked of it.
    GitError(git2::Error),
    /// The branch to switch to has no name that git can resolve.
    InvalidBranchName(String),
    /// No branch is checked out.
    NoCurrentBranch,
    /// The stack file could not be read or written.
    IoError(std::io::Error),
    /// There is nothing on the stack to pop.
    EmptyStack,
    /// A rotation reaches past the bottom of the stack.
    NoStackEntry,
}

impl From<git2::Error> for BranchStackError {
    fn from(err: git2::Error) -> (r: Self)
        ensures
            r == BranchStackError::GitError(err),
    {
        BranchStackError::GitError(err)
    }
}

impl vstd::std_specs::convert::FromSpecImpl<git2::Error> for BranchStackError {
    open spec fn obeys_from_spec() -> bool {
        true
    }

    open spec fn from_spec(v: git2::Error) -> Self {
        BranchStackError::GitError(v)
    }
}

impl From<std::io::Error> for BranchStackError {
    fn from(err: std::io::Error) -> (r: Self)
        ensures
            r == BranchStackError::IoError(err),
    {
        BranchStackError::IoError(err)
    }
}

impl vstd::std_specs::convert::FromSpecImpl<std::io::Error> for BranchStackError {
    open spec fn obeys_from_spec() -> bool {
        true
    }

    open spec fn from_spec(v: std::io::Error) -> Self {
        BranchStackError::IoError(v)
    }
}

impl BranchStackError {
    /// A message for people: a fixed text for each kind of error, with the
    /// offending value where there is one, or what git or the file system
    /// said.
    pub fn message(&self) -> (r: String)
        ensures
            match self {
                BranchStackError::InvalidCommandError => r@ == "invalid command"@,
                BranchStackError::ArgError(arg) => r@ == "invalid argument value: "@ + arg@,
                BranchStackError::GitError(err) => to_string_from_display_ensures(err, r),
                BranchStackError::InvalidBranchName(name) => r@ == "invalid branch name: "@
                    + name@,
                BranchStackError::NoCurrentBranch => r@ == "no current branch"@,
                BranchStackError::IoError(err) => to_string_from_display_ensures(err, r),
                BranchStackError::EmptyStack => r@ == "empty stack"@,
                BranchStackError::NoStackEntry => r@ == "no such stack entry"@,
            },
    {
        match self {
            BranchStackError::InvalidCommandError => String::from_str("invalid command"),
            BranchStackError::ArgError(arg) => String::from_str("invalid argument value: ").concat(
                arg.as_str(),
            ),
            BranchStackError::GitError(err) => err.to_string(),
            BranchStackError::InvalidBranchName(name) => String::from_str(
                "invalid branch name: ",
            ).concat(name.as_str()),
            BranchStackError::NoCurrentBranch => String::from_str("no current branch"),
            BranchStackError::IoError(err) => err.to_string(),
            BranchStackError::EmptyStack => String::from_str("empty stack"),
            BranchStackError::NoStackEntry => String::from_str("no such stack entry"),
        }
    }
}

} // verus!
