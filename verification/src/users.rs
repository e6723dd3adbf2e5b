//! The user list: creating and renaming users.

use vstd::prelude::*;
use crate::text::{decimal, join3, push_decimal};
use crate::types::{error_is, invalid_argument, not_found, Error, User};

verus! {

/// Each user's id is its place in the list, and no two users share a name.
pub open spec fn users_wf(users: Seq<User>) -> bool {
    &&& forall|i: int| 0 <= i < users.len() ==> (#[trigger] users[i]).id == Some(i as u64)
    &&& forall|i: int, j: int|
        0 <= i < j < users.len() ==> (#[trigger] users[i]).name@ != (#[trigger] users[j]).name@
}

/// Some user is called `name`.
pub open spec fn name_taken(users: Seq<User>, name: Seq<char>) -> bool {
    exists|i: int| 0 <= i < users.len() && (#[trigger] users[i]).name@ == name
}

/// Some user other than the one with id `id` is called `name`.
pub open spec fn name_taken_by_other(users: Seq<User>, name: Seq<char>, id: Option<u64>) -> bool {
    exists|i: int| 0 <= i < users.len() && (#[trigger] users[i]).name@ == name && users[i].id != id
}

/// The message of a refused name.
pub open spec fn name_exists_message(name: Seq<char>) -> Seq<char> {
    "User name '"@ + name + "' already exists"@
}

/// The message for a user id that does not exist.
pub open spec fn user_not_found_message(id: u64) -> Seq<char> {
    "User "@ + decimal(id as nat) + " not found."@
}

/// `message` for an unknown user id.
pub fn user_not_found(id: u64) -> (e: Error)
    ensures
        error_is(e, 3, not_found(), user_not_found_message(id)),
{
    let mut m = String::from_str("User ");
    push_decimal(&mut m, id);
    m.append(" not found.");
    Error::not_found(m)
}

fn name_exists(name: &String) -> (e: Error)
    ensures
        error_is(e, 1, invalid_argument(), name_exists_message(name@)),
{
    Error::invalid_argument(join3("User name '", name.as_str(), "' already exists"))
}

/// Creates a user (when `item.id` is `None`) or renames user `item.id`.
///
/// A new user gets the next free id; a name that another user has is refused,
/// and so is the id of a user that does not exist.
pub fn post_users(users: &mut Vec<User>, item: User) -> (res: std::result::Result<User, Error>)
    ensures
        match item.id {
            None => if name_taken(old(users)@, item.name@) {
                &&& res matches Err(e) && error_is(e, 1, invalid_argument(), name_exists_message(item.name@))
                &&& final(users)@ == old(users)@
            } else {
                &&& res matches Ok(u) && u.id == Some(old(users)@.len() as u64) && u.name@ == item.name@
                &&& final(users)@ == old(users)@.push(res->Ok_0)
            },
            Some(id) => if id >= old(users)@.len() {
                &&& res matches Err(e) && error_is(e, 3, not_found(), user_not_found_message(id))
                &&& final(users)@ == old(users)@
            } else if name_taken_by_other(old(users)@, item.name@, item.id) {
                &&& res matches Err(e) && error_is(e, 1, invalid_argument(), name_exists_message(item.name@))
                &&& final(users)@ == old(users)@
            } else {
                &&& res matches Ok(u) && u.id == old(users)@[id as int].id && u.name@ == item.name@
                &&& final(users)@ == old(users)@.update(id as int, res->Ok_0)
            },
        },
        users_wf(old(users)@) ==> users_wf(final(users)@),
{
    match item.id {
        None => {
            for k in 0..users.len()
                invariant
                    users@ == old(users)@,
                    item.id is None,
                    forall|j: int| 0 <= j < k ==> (#[trigger] users@[j]).name@ != item.name@,
            {
                if users[k].name == item.name {
                    return Err(name_exists(&item.name));
                }
            }
            let new_user = User { id: Some(users.len() as u64), name: item.name };
            let cloned = new_user.clone();
            users.push(new_user);
            Ok(cloned)
        },
        Some(id) => {
            if id >= users.len() as u64 {
                return Err(user_not_found(id));
            }
            for k in 0..users.len()
                invariant
                    users@ == old(users)@,
                    item.id == Some(id),
                    (id as int) < users@.len(),
                    forall|j: int|
                        0 <= j < k ==> !((#[trigger] users@[j]).name@ == item.name@ && users@[j].id
                            != item.id),
            {
                if users[k].name == item.name && users[k].id != item.id {
                    return Err(name_exists(&item.name));
                }
            }
            let i = id as usize;
            let renamed = User { id: users[i].id, name: item.name };
            let cloned = renamed.clone();
            users.set(i, renamed);
            proof {
                if users_wf(old(users)@) {
                    assert forall|a: int, b: int|
                        0 <= a < b < users@.len() implies (#[trigger] users@[a]).name@
                        != (#[trigger] users@[b]).name@ by {
                        if a == i {
                            assert(old(users)@[b].id == Some(b as u64));
                        } else if b == i {
                            assert(old(users)@[a].id == Some(a as u64));
                        }
                    }
                }
            }
            Ok(cloned)
        },
    }
}

/// Adds the `root` user when the list is empty.
pub fn ensure_root(users: &mut Vec<User>)
    ensures
        old(users)@.len() == 0 ==> final(users)@.len() == 1 && final(users)@[0].id == Some(0u64)
            && final(users)@[0].name@ == "root"@,
        old(users)@.len() != 0 ==> final(users)@ == old(users)@,
        users_wf(old(users)@) ==> users_wf(final(users)@),
{
    if users.len() == 0 {
        users.push(User { id: Some(0), name: String::from_str("root") });
    }
}

} // verus!
