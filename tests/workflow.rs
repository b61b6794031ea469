use std::path::PathBuf;

use git_branch_stack::actions::{Action, RotateDirection};
use git_branch_stack::errors::BranchStackError;
use git_branch_stack::stack::FileStack;
use git_branch_stack::workflow::{begin, AwaitBranch, AwaitSwitch, Step};

/// A repository reduced to what the commands see of it: its branches and
/// which one is checked out, plus the stack file.
struct Repo {
    branches: Vec<String>,
    current: Option<String>,
    stack_file: Option<String>,
    printed: String,
}

impl Repo {
    fn new(branches: &[&str], current: &str) -> Repo {
        Repo {
            branches: branches.iter().map(|b| b.to_string()).collect(),
            current: Some(current.to_string()),
            stack_file: None,
            printed: String::new(),
        }
    }

    fn current_branch(&self) -> Result<String, BranchStackError> {
        self.current.clone().ok_or(BranchStackError::NoCurrentBranch)
    }

    fn switch_to(&mut self, branch: &str) -> Result<(), BranchStackError> {
        if self.branches.iter().any(|b| b == branch) {
            self.current = Some(branch.to_string());
            Ok(())
        } else {
            Err(BranchStackError::GitError(git2::Error::from_str("no such branch")))
        }
    }

    /// Runs one command as the program does: load the stack, run the
    /// steps, save the stack whatever the outcome.
    fn command(&mut self, action: Action) -> Result<(), BranchStackError> {
        let mut stack = FileStack::new(PathBuf::from("BRANCH_STACK"), self.stack_file.clone());
        let mut step = begin(action, &mut stack);
        let outcome = loop {
            step = match step {
                Step::ReadCurrentBranch(next) => {
                    let current = self.current_branch();
                    next.resume(&mut stack, current)
                }
                Step::SwitchTo { branch, announce, next } => {
                    if announce {
                        self.printed.push_str(&branch);
                        self.printed.push('\n');
                    }
                    let switched = self.switch_to(&branch);
                    next.resume(&mut stack, switched)
                }
                Step::Finished(result) => break result,
            };
        };
        self.stack_file = Some(stack.contents());
        outcome.map(|text| self.printed.push_str(&text))
    }

    fn list(&mut self) -> String {
        self.printed.clear();
        self.command(Action::List).unwrap();
        std::mem::take(&mut self.printed)
    }

    fn stack(&self) -> Vec<String> {
        let stack = FileStack::new(PathBuf::from("BRANCH_STACK"), self.stack_file.clone());
        stack.iter().cloned().collect()
    }

    fn assert_branch(&self, branch: &str) {
        assert_eq!(self.current.as_deref(), Some(branch));
    }
}

fn push(branch: &str) -> Action {
    Action::from_push_argument(branch)
}

#[test]
fn test_push() {
    let mut repo = Repo::new(&["master", "second-branch"], "second-branch");
    repo.command(push("master")).unwrap();
    repo.assert_branch("master");
    assert_eq!(repo.stack(), vec!["second-branch"]);
}

#[test]
fn test_list() {
    let mut repo = Repo::new(&["master", "second-branch", "third-branch"], "third-branch");
    repo.command(push("master")).unwrap();
    repo.command(push("second-branch")).unwrap();
    assert!(repo.list().contains("second-branch\nmaster\nthird-branch\n"));
}

#[test]
fn test_pop() {
    let mut repo = Repo::new(&["master", "second-branch", "third-branch"], "third-branch");
    repo.command(push("master")).unwrap();
    repo.command(push("second-branch")).unwrap();
    assert!(repo.list().contains("second-branch\nmaster\nthird-branch\n"));
    repo.command(Action::Pop).unwrap();
    assert!(repo.list().contains("master\nthird-branch\n"));
    repo.assert_branch("master");
    repo.command(Action::Pop).unwrap();
    repo.assert_branch("third-branch");
    let failed = repo.command(Action::Pop);
    assert!(matches!(failed, Err(BranchStackError::EmptyStack)));
    assert!(format!("{:?}", failed.unwrap_err()).contains("EmptyStack"));
}

#[test]
fn test_rotate() {
    let mut repo = Repo::new(&["master", "second-branch", "third-branch"], "master");
    repo.command(push("second-branch")).unwrap();
    repo.command(push("third-branch")).unwrap();

    repo.command(push("+0")).unwrap();
    repo.assert_branch("master");
    assert_eq!(repo.list(), "master\nthird-branch\nsecond-branch\n");

    repo.command(push("-0")).unwrap();
    repo.assert_branch("master");
    assert_eq!(repo.list(), "master\nthird-branch\nsecond-branch\n");

    repo.command(push("+1")).unwrap();
    repo.assert_branch("third-branch");
    assert_eq!(repo.list(), "third-branch\nsecond-branch\nmaster\n");

    repo.command(push("-1")).unwrap();
    repo.assert_branch("second-branch");
    assert_eq!(repo.list(), "second-branch\nmaster\nthird-branch\n");
}

#[test]
fn push_then_pop_returns_and_empty_pop_changes_nothing() {
    let mut repo = Repo::new(&["master", "second"], "master");
    repo.command(Action::Push("second".to_string())).unwrap();
    repo.assert_branch("second");
    assert_eq!(repo.stack(), vec!["master"]);
    repo.command(Action::Pop).unwrap();
    repo.assert_branch("master");
    assert!(repo.stack().is_empty());
    assert!(matches!(repo.command(Action::Pop), Err(BranchStackError::EmptyStack)));
    repo.assert_branch("master");
    assert!(repo.stack().is_empty());
}

#[test]
fn rotate_up_one_brings_the_top_entry_forward() {
    let mut repo = Repo::new(&["a", "b", "c"], "c");
    repo.stack_file = Some("a\nb\n".to_string());
    repo.command(Action::Rotate(RotateDirection::Up, 1)).unwrap();
    repo.assert_branch("a");
    assert_eq!(repo.stack(), vec!["b", "c"]);
}

#[test]
fn a_failed_push_leaves_the_stack_alone() {
    let mut repo = Repo::new(&["master"], "master");
    let failed = repo.command(push("missing"));
    assert!(matches!(failed, Err(BranchStackError::GitError(_))));
    repo.assert_branch("master");
    assert!(repo.stack().is_empty());
}

#[test]
fn a_failed_pop_switch_loses_the_entry() {
    let mut repo = Repo::new(&["master"], "master");
    repo.stack_file = Some("gone\nmaster\n".to_string());
    let failed = repo.command(Action::Pop);
    assert!(matches!(failed, Err(BranchStackError::GitError(_))));
    repo.assert_branch("master");
    assert_eq!(repo.stack(), vec!["master"]);
}

#[test]
fn commands_without_a_current_branch_fail() {
    let mut repo = Repo::new(&["master"], "master");
    repo.current = None;
    repo.stack_file = Some("master\n".to_string());
    for action in [
        Action::List,
        Action::Push("master".to_string()),
        Action::Rotate(RotateDirection::Down, 0),
    ] {
        assert!(matches!(repo.command(action), Err(BranchStackError::NoCurrentBranch)));
    }
    assert_eq!(repo.stack(), vec!["master"]);
}

#[test]
fn a_rotation_past_the_bottom_fails_and_keeps_the_current_branch_saved() {
    let mut repo = Repo::new(&["a", "b"], "b");
    repo.stack_file = Some("a\n".to_string());
    let failed = repo.command(Action::Rotate(RotateDirection::Up, 2));
    assert!(matches!(failed, Err(BranchStackError::NoStackEntry)));
    repo.assert_branch("b");
    assert_eq!(repo.stack(), vec!["b", "a"]);
    let failed = repo.command(Action::Rotate(RotateDirection::Down, 3));
    assert!(matches!(failed, Err(BranchStackError::NoStackEntry)));
}

#[test]
fn rotating_down_sends_the_current_branch_deeper() {
    let mut repo = Repo::new(&["a", "b", "c"], "c");
    repo.stack_file = Some("a\nb\n".to_string());
    repo.command(Action::Rotate(RotateDirection::Down, 1)).unwrap();
    repo.assert_branch("a");
    assert_eq!(repo.stack(), vec!["b", "c"]);
    assert_eq!(repo.printed, "a\n");
}

#[test]
fn steps_hand_back_what_each_continuation_asks_for() {
    let mut stack = FileStack::new(PathBuf::from("BRANCH_STACK"), None);
    match begin(Action::Push("topic".to_string()), &mut stack) {
        Step::ReadCurrentBranch(AwaitBranch::Push(target)) => assert_eq!(target, "topic"),
        _ => panic!("push starts by reading the current branch"),
    }
    match AwaitBranch::Push("topic".to_string()).resume(&mut stack, Ok("main".to_string())) {
        Step::SwitchTo { branch, announce, next: AwaitSwitch::Record(saved) } => {
            assert_eq!(branch, "topic");
            assert!(!announce);
            assert_eq!(saved, "main");
        }
        _ => panic!("push switches before it records"),
    }
    assert_eq!(stack.len(), 0);
    match AwaitSwitch::Record("main".to_string()).resume(&mut stack, Ok(())) {
        Step::Finished(Ok(text)) => assert_eq!(text, ""),
        _ => panic!("a successful switch ends the push"),
    }
    assert_eq!(stack.peek(), Some("main".to_string()));
}
