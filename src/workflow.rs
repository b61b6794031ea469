//! How each command composes the stack with the repository.
//!
//! A command runs as a sequence of steps. Each step either asks the caller
//! to do something to the repository (read the current branch, switch to a
//! branch) and carries what to do with the outcome, or ends the command.
//! The caller performs the request and hands the outcome back through the
//! carried continuation:
//!
//! - push: read the current branch, switch to the target, and only once the
//!   switch succeeded record the old branch on the stack;
//! - pop: take the top off the stack, then switch to it (a failed switch
//!   leaves the entry taken off);
//! - rotate: put the current branch on the stack, turn the stack, take the
//!   new top off, and switch to it;
//! - list: read the current branch and show it above the stack.
use vstd::prelude::*;

use crate::actions::{Action, RotateDirection};
use crate::errors::BranchStackError;
use crate::stack::{popped, pushed, rotated_down, rotated_up, FileStack};
use crate::stack_file::render;

verus! {

/// What to do with the name of the current branch once it is read.
pub enum AwaitBranch {
    /// Switch to this branch, then record the current one.
    Push(String),
    /// Show the current branch above the stack.
    List,
    /// Turn the stack with the current branch on top.
    Rotate(RotateDirection, usize),
}

/// What to do once a switch of branch is over.
pub enum AwaitSwitch {
    /// Record this branch on the stack if the switch succeeded.
    Record(String),
    /// Nothing more: the outcome of the switch ends the command.
    Report,
}

/// The next thing a command needs.
pub enum Step {
    /// Read the name of the current branch and hand the outcome to the
    /// carried `AwaitBranch`.
    ReadCurrentBranch(AwaitBranch),
    /// Switch the repository to `branch` (first printing its name where
    /// `announce` is set) and hand the outcome to `next`.
    SwitchTo { branch: String, announce: bool, next: AwaitSwitch },
    /// The command is over; on success, with the text to print.
    Finished(Result<String, BranchStackError>),
}

/// `s` turned `n` steps in `direction`.
pub open spec fn rotated(direction: RotateDirection, s: Seq<Seq<char>>, n: nat) -> Seq<Seq<char>> {
    match direction {
        RotateDirection::Up => rotated_up(s, n),
        RotateDirection::Down => rotated_down(s, n),
    }
}

/// `step` switches to a branch named `branch`, announcing it, and then
/// reports the outcome.
pub open spec fn is_announced_switch(step: Step, branch: Seq<char>) -> bool {
    step matches Step::SwitchTo { branch: b, announce, next } && b@ == branch && announce
        && next is Report
}

/// `step` ends the command successfully, with nothing to print.
pub open spec fn is_quiet_success(step: Step) -> bool {
    step matches Step::Finished(Ok(text)) && text@.len() == 0
}

/// Starts `action` on `stack`. Only pop needs nothing from the repository to
/// begin: it takes the top off at once, or fails with `EmptyStack`.
pub fn begin(action: Action, stack: &mut FileStack) -> (r: Step)
    ensures
        final(stack).file() == old(stack).file(),
        !(action is Pop) ==> final(stack)@ == old(stack)@,
        match action {
            Action::Push(target) => r == Step::ReadCurrentBranch(AwaitBranch::Push(target)),
            Action::List => r == Step::ReadCurrentBranch(AwaitBranch::List),
            Action::Rotate(direction, n) => r == Step::ReadCurrentBranch(
                AwaitBranch::Rotate(direction, n),
            ),
            Action::Pop => match popped(old(stack)@) {
                (Some(top), rest) => is_announced_switch(r, top) && final(stack)@ == rest,
                (None, _) => r == Step::Finished(Err(BranchStackError::EmptyStack))
                    && final(stack)@ == old(stack)@,
            },
        },
{
    match action {
        Action::Push(target) => Step::ReadCurrentBranch(AwaitBranch::Push(target)),
        Action::List => Step::ReadCurrentBranch(AwaitBranch::List),
        Action::Rotate(direction, n) => Step::ReadCurrentBranch(AwaitBranch::Rotate(direction, n)),
        Action::Pop => match stack.pop() {
            Some(branch) => Step::SwitchTo { branch, announce: true, next: AwaitSwitch::Report },
            None => Step::Finished(Err(BranchStackError::EmptyStack)),
        },
    }
}

impl AwaitBranch {
    /// Goes on once the current branch has been read. A failed read ends the
    /// command with its error and the stack untouched.
    pub fn resume(self, stack: &mut FileStack, current: Result<String, BranchStackError>) -> (r:
        Step)
        ensures
            final(stack).file() == old(stack).file(),
            match current {
                Err(e) => r == Step::Finished(Err(e)) && final(stack)@ == old(stack)@,
                Ok(branch) => match self {
                    AwaitBranch::Push(target) => r == (Step::SwitchTo {
                        branch: target,
                        announce: false,
                        next: AwaitSwitch::Record(branch),
                    }) && final(stack)@ == old(stack)@,
                    AwaitBranch::List => r matches Step::Finished(Ok(text)) && text@ == render(
                        pushed(old(stack)@, branch@),
                    ) && final(stack)@ == old(stack)@,
                    AwaitBranch::Rotate(direction, n) => {
                        let s = pushed(old(stack)@, branch@);
                        if n < s.len() {
                            let turned = rotated(direction, s, n as nat);
                            is_announced_switch(r, turned[0]) && final(stack)@
                                == turned.drop_first()
                        } else {
                            r == Step::Finished(Err(BranchStackError::NoStackEntry))
                                && final(stack)@ == s
                        }
                    },
                },
            },
    {
        let branch = match current {
            Err(e) => {
                return Step::Finished(Err(e));
            },
            Ok(branch) => branch,
        };
        match self {
            AwaitBranch::Push(target) => Step::SwitchTo {
                branch: target,
                announce: false,
                next: AwaitSwitch::Record(branch),
            },
            AwaitBranch::List => {
                stack.push(branch);
                let text = stack.contents();
                let _ = stack.pop();
                Step::Finished(Ok(text))
            },
            AwaitBranch::Rotate(direction, n) => {
                stack.push(branch);
                let turned = match direction {
                    RotateDirection::Up => stack.rotate_up(n),
                    RotateDirection::Down => stack.rotate_down(n),
                };
                if let Err(e) = turned {
                    return Step::Finished(Err(e));
                }
                match stack.pop() {
                    Some(top) => Step::SwitchTo {
                        branch: top,
                        announce: true,
                        next: AwaitSwitch::Report,
                    },
                    None => Step::Finished(Err(BranchStackError::NoStackEntry)),
                }
            },
        }
    }
}

impl AwaitSwitch {
    /// Goes on once the switch is over: records the branch that push saved,
    /// only where the switch succeeded, and ends the command with the outcome
    /// of the switch.
    pub fn resume(self, stack: &mut FileStack, switched: Result<(), BranchStackError>) -> (r:
        Step)
        ensures
            final(stack).file() == old(stack).file(),
            match switched {
                Err(e) => r == Step::Finished(Err(e)) && final(stack)@ == old(stack)@,
                Ok(()) => is_quiet_success(r) && final(stack)@ == match self {
                    AwaitSwitch::Record(branch) => pushed(old(stack)@, branch@),
                    AwaitSwitch::Report => old(stack)@,
                },
            },
    {
        if let Err(e) = switched {
            return Step::Finished(Err(e));
        }
        if let AwaitSwitch::Record(branch) = self {
            stack.push(branch);
        }
        Step::Finished(Ok(String::new()))
    }
}

} // verus!
