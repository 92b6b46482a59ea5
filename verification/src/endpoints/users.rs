//! Answers to the requests on user accounts, from what the store gave.

use vstd::prelude::*;

verus! {

/// A stored user.
#[derive(Debug, Clone, PartialEq, Eq)]
pub struct User {
    pub id: i32,
    pub name: String,
}

/// The answer to the creation of a user: the store's id of the user, or `-1`.
#[derive(Debug, Clone, Copy, PartialEq, Eq, Structural)]
pub struct NewUserIdResponse {
    pub id: i32,
}

/// The request to create a user.
#[derive(Debug, Clone, PartialEq, Eq)]
pub struct NewUser {
    pub name: String,
    pub password: String,
}

/// The request to rename a user.
#[derive(Debug, Clone, PartialEq, Eq)]
pub struct UpdateUserBody {
    pub name: String,
}

/// The answer to the request for all users: the users that the store gave, and none
/// where it failed.
pub fn get_all_users(found: Option<Vec<User>>) -> (r: Vec<User>)
    ensures
        r@ == match found {
            Some(users) => users@,
            None => Seq::empty(),
        },
{
    match found {
        Some(users) => users,
        None => Vec::new(),
    }
}

/// The answer to the creation of a user: the id that the store gave, and `-1` where it
/// failed.
pub fn insert_user(created: Option<i32>) -> (r: NewUserIdResponse)
    ensures
        r.id == match created {
            Some(id) => id,
            None => -1i32,
        },
{
    match created {
        Some(id) => NewUserIdResponse { id },
        None => NewUserIdResponse { id: -1 },
    }
}

} // verus!
