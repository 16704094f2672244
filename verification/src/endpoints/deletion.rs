//! Deleting a post or a comment: who may, and what the others are told.
use vstd::prelude::*;

use crate::response::FuncError;

verus! {

/// What a delete request does next.
#[derive(Debug, Clone, Copy, PartialEq, Eq)]
pub enum DeleteStep {
    /// The item is the requester's own: delete it.
    Delete,
    /// The item is someone else's: the answer depends on the requester's
    /// permissions (`refusal_for_other`).
    CheckPermissions,
    /// The request fails with this error.
    Refuse(FuncError),
}

/// The next step of a request by `user_id` to delete an item whose owner
/// was looked up: `missing` where there is no such item, deletion where the
/// requester owns it, a look at the permissions otherwise.
pub fn delete_step(owner: Option<i64>, user_id: i64, missing: FuncError) -> (res: DeleteStep)
    ensures
        res == match owner {
            None => DeleteStep::Refuse(missing),
            Some(o) => if o == user_id {
                DeleteStep::Delete
            } else {
                DeleteStep::CheckPermissions
            },
        },
{
    match owner {
        None => DeleteStep::Refuse(missing),
        Some(o) => {
            if o == user_id {
                DeleteStep::Delete
            } else {
                DeleteStep::CheckPermissions
            }
        },
    }
}

/// The answer to deleting someone else's item: deletion by a moderator is
/// not implemented; anyone else is forbidden.
pub fn refusal_for_other(can_moderate: bool) -> (res: FuncError)
    ensures
        res == if can_moderate {
            FuncError::NotImplemented
        } else {
            FuncError::Forbidden
        },
{
    if can_moderate {
        FuncError::NotImplemented
    } else {
        FuncError::Forbidden
    }
}

} // verus!
