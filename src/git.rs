//! The decisions around the repository: which branch is checked out, and
//! which reference a switch points HEAD at. The repository itself is read
//! and changed by the caller.
use vstd::prelude::*;

use crate::errors::BranchStackError;

verus! {

/// The name of the first branch in `branches` that is checked out and whose
/// name could be read.
pub open spec fn first_named_head(branches: Seq<(bool, Option<String>)>) -> Option<Seq<char>>
    decreases branches.len(),
{
    if branches.len() == 0 {
        None
    } else {
        match branches[0] {
            (true, Some(name)) => Some(name@),
            _ => first_named_head(branches.drop_first()),
        }
    }
}

/// The name of the checked-out branch, given the local branches in git's
/// order, each as whether it is HEAD and its name where that is valid
/// UTF-8. Fails with `NoCurrentBranch` where none is both.
pub fn checked_out_branch(branches: &Vec<(bool, Option<String>)>) -> (r: Result<
    String,
    BranchStackError,
>)
    ensures
        match first_named_head(branches@) {
            Some(name) => r matches Ok(found) && found@ == name,
            None => r == Err::<String, BranchStackError>(BranchStackError::NoCurrentBranch),
        },
{
    let mut i: usize = 0;
    assert(branches@.subrange(0, branches.len() as int) =~= branches@);
    while i < branches.len()
        invariant
            i <= branches.len(),
            first_named_head(branches@) == first_named_head(
                branches@.subrange(i as int, branches.len() as int),
            ),
        decreases branches.len() - i,
    {
        let ghost rest = branches@.subrange(i as int, branches.len() as int);
        assert(rest[0] == branches@[i as int]);
        assert(rest.drop_first() =~= branches@.subrange(i + 1, branches.len() as int));
        if branches[i].0 {
            if let Some(name) = &branches[i].1 {
                return Ok(name.clone());
            }
        }
        i = i + 1;
    }
    Err(BranchStackError::NoCurrentBranch)
}

/// The reference that HEAD points at after a switch to `branch_name`: the
/// full name of the branch's reference. A name that is not valid UTF-8
/// cannot be used, and fails with `InvalidBranchName`.
pub fn reference_to_check_out(branch_name: &str, reference_name: Option<String>) -> (r: Result<
    String,
    BranchStackError,
>)
    ensures
        match reference_name {
            Some(name) => r == Ok::<String, BranchStackError>(name),
            None => r matches Err(BranchStackError::InvalidBranchName(given)) && given@
                == branch_name@,
        },
{
    match reference_name {
        Some(name) => Ok(name),
        None => Err(BranchStackError::InvalidBranchName(branch_name.to_owned())),
    }
}

} // verus!
