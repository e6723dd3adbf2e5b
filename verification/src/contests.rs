//! The contest list: creating, updating and reading contests.

use vstd::prelude::*;
use crate::config::Problem;
use crate::text::{decimal, push_decimal};
use crate::types::{error_is, not_found, Contest, ContestView, Error, User};
use crate::users::{user_not_found, user_not_found_message};

verus! {

/// Contest `k` is stored at place `k - 1`.
pub open spec fn contests_wf(contests: Seq<Contest>) -> bool {
    forall|i: int| 0 <= i < contests.len() ==> (#[trigger] contests[i]).id == Some((i + 1) as u64)
}

/// What reading contest `id` gives: the contest stored at place `id - 1`, if any.
pub open spec fn contest_lookup(contests: Seq<Contest>, id: u64) -> Option<ContestView> {
    if 1 <= id <= contests.len() {
        Some(contests[id - 1]@)
    } else {
        None
    }
}

/// Some user has the id `id`.
pub open spec fn user_known(users: Seq<User>, id: u64) -> bool {
    exists|i: int| 0 <= i < users.len() && (#[trigger] users[i]).id == Some(id)
}

/// Some problem of the configuration has the id `id`.
pub open spec fn problem_known(problems: Seq<Problem>, id: u64) -> bool {
    exists|i: int| 0 <= i < problems.len() && (#[trigger] problems[i]).id == id
}

/// The message for a contest id that does not exist.
pub open spec fn contest_not_found_message(id: u64) -> Seq<char> {
    "Contest "@ + decimal(id as nat) + " not found."@
}

/// The message for a problem id that does not exist.
pub open spec fn problem_not_found_message(id: u64) -> Seq<char> {
    "Problem "@ + decimal(id as nat) + " not found."@
}

/// The error for an unknown contest id.
pub fn contest_not_found(id: u64) -> (e: Error)
    ensures
        error_is(e, 3, not_found(), contest_not_found_message(id)),
{
    let mut m = String::from_str("Contest ");
    push_decimal(&mut m, id);
    m.append(" not found.");
    Error::not_found(m)
}

/// The error for an unknown problem id.
pub fn problem_not_found(id: u64) -> (e: Error)
    ensures
        error_is(e, 3, not_found(), problem_not_found_message(id)),
{
    let mut m = String::from_str("Problem ");
    push_decimal(&mut m, id);
    m.append(" not found.");
    Error::not_found(m)
}

fn find_user_id(users: &Vec<User>, id: u64) -> (r: bool)
    ensures
        r == user_known(users@, id),
{
    for i in 0..users.len()
        invariant
            forall|j: int| 0 <= j < i ==> (#[trigger] users@[j]).id != Some(id),
    {
        if let Some(u) = users[i].id {
            if u == id {
                return true;
            }
        }
    }
    false
}

/// Whether some problem of the configuration has the id `id`.
pub fn find_problem_id(problems: &Vec<Problem>, id: u64) -> (r: bool)
    ensures
        r == problem_known(problems@, id),
{
    for i in 0..problems.len()
        invariant
            forall|j: int| 0 <= j < i ==> (#[trigger] problems@[j]).id != id,
    {
        if problems[i].id == id {
            return true;
        }
    }
    false
}

/// What creating or replacing contest `item` does, given the contest list
/// before and after and the answer (see [`post_contests`]).
pub open spec fn contest_post_outcome(
    old_contests: Seq<Contest>,
    new_contests: Seq<Contest>,
    users: Seq<User>,
    problems: Seq<Problem>,
    item: Contest,
    res: std::result::Result<Contest, Error>,
) -> bool {
    &&& ((exists|k: int| 0 <= k < item.user_ids@.len() && !user_known(users, #[trigger] item.user_ids@[k]))
        ==> new_contests == old_contests && exists|k: int| {
        &&& 0 <= k < item.user_ids@.len()
        &&& !user_known(users, #[trigger] item.user_ids@[k])
        &&& forall|j: int| 0 <= j < k ==> user_known(users, #[trigger] item.user_ids@[j])
        &&& res matches Err(e) && error_is(e, 3, not_found(), user_not_found_message(item.user_ids@[k]))
    })
    &&& ((forall|k: int| 0 <= k < item.user_ids@.len() ==> user_known(users, #[trigger] item.user_ids@[k]))
        && (exists|k: int|
        0 <= k < item.problem_ids@.len() && !problem_known(problems, #[trigger] item.problem_ids@[k]))
        ==> new_contests == old_contests && exists|k: int| {
        &&& 0 <= k < item.problem_ids@.len()
        &&& !problem_known(problems, #[trigger] item.problem_ids@[k])
        &&& forall|j: int| 0 <= j < k ==> problem_known(problems, #[trigger] item.problem_ids@[j])
        &&& res matches Err(e) && error_is(e, 3, not_found(), problem_not_found_message(item.problem_ids@[k]))
    })
    &&& ((forall|k: int| 0 <= k < item.user_ids@.len() ==> user_known(users, #[trigger] item.user_ids@[k]))
        && (forall|k: int|
        0 <= k < item.problem_ids@.len() ==> problem_known(problems, #[trigger] item.problem_ids@[k]))
        ==> match item.id {
        None => {
            &&& res matches Ok(c) && c@ == (ContestView {
                id: Some((old_contests.len() + 1) as u64),
                ..item@
            })
            &&& new_contests.len() == old_contests.len() + 1
            &&& new_contests.drop_last() == old_contests
            &&& new_contests.last()@ == res->Ok_0@
        },
        Some(id) => if id == 0 || id > old_contests.len() {
            &&& res matches Err(e) && error_is(e, 3, not_found(), contest_not_found_message(id))
            &&& new_contests == old_contests
        } else {
            &&& res matches Ok(c) && c@ == item@
            &&& new_contests.len() == old_contests.len()
            &&& forall|i: int|
                0 <= i < old_contests.len() && i != id - 1 ==> #[trigger] new_contests[i]
                    == old_contests[i]
            &&& new_contests[id - 1]@ == item@
        },
    })
    &&& (res matches Ok(c) ==> c.id is Some && contest_lookup(new_contests, c.id.unwrap())
        == Some(c@))
}

/// Creates a contest (when `item.id` is `None`) or replaces contest `item.id`.
///
/// Every user id and problem id the contest names must exist: the first unknown
/// user id, then the first unknown problem id, is reported as not found (a user
/// without an id matches no user id). A
/// contest id that names no contest (0, or above the count) is not found either.
pub fn post_contests(
    contests: &mut Vec<Contest>,
    users: &Vec<User>,
    problems: &Vec<Problem>,
    item: Contest,
) -> (res: std::result::Result<Contest, Error>)
    requires
        old(contests)@.len() < u64::MAX,
    ensures
        contest_post_outcome(old(contests)@, final(contests)@, users@, problems@, item, res),
        contests_wf(old(contests)@) ==> contests_wf(final(contests)@),
{
    for k in 0..item.user_ids.len()
        invariant
            contests@ == old(contests)@,
            forall|j: int| 0 <= j < k ==> user_known(users@, #[trigger] item.user_ids@[j]),
    {
        let id = item.user_ids[k];
        if !find_user_id(users, id) {
            return Err(user_not_found(id));
        }
    }
    for k in 0..item.problem_ids.len()
        invariant
            contests@ == old(contests)@,
            forall|k: int| 0 <= k < item.user_ids@.len() ==> user_known(users@, #[trigger] item.user_ids@[k]),
            forall|j: int| 0 <= j < k ==> problem_known(problems@, #[trigger] item.problem_ids@[j]),
    {
        let id = item.problem_ids[k];
        if !find_problem_id(problems, id) {
            return Err(problem_not_found(id));
        }
    }
    match item.id {
        None => {
            let mut stored = item;
            stored.id = Some(contests.len() as u64 + 1);
            let answer = stored.clone();
            contests.push(stored);
            proof {
                assert(contests@.drop_last() =~= old(contests)@);
            }
            Ok(answer)
        },
        Some(id) => {
            if id == 0 || id > contests.len() as u64 {
                return Err(contest_not_found(id));
            }
            let answer = item.clone();
            contests.set((id - 1) as usize, item);
            Ok(answer)
        },
    }
}

/// What reading contest `id` answers (see [`get_contests_by_id`]).
pub open spec fn contest_read_outcome(
    contests: Seq<Contest>,
    id: u64,
    res: std::result::Result<Contest, Error>,
) -> bool {
    match contest_lookup(contests, id) {
        Some(c) => res matches Ok(r) && r@ == c,
        None => res matches Err(e) && error_is(e, 3, not_found(), contest_not_found_message(id)),
    }
}

/// A contest that was created or replaced reads back by its id: the id is not 0
/// (so [`get_contests_by_id`] takes it), a created contest has the next id, and
/// reading the id answers with the contest as written.
pub proof fn written_contest_reads_back(
    old_contests: Seq<Contest>,
    new_contests: Seq<Contest>,
    users: Seq<User>,
    problems: Seq<Problem>,
    item: Contest,
    res: std::result::Result<Contest, Error>,
    read: std::result::Result<Contest, Error>,
)
    requires
        contest_post_outcome(old_contests, new_contests, users, problems, item, res),
        old_contests.len() < u64::MAX,
        res is Ok,
        res->Ok_0.id is Some ==> contest_read_outcome(new_contests, res->Ok_0.id.unwrap(), read),
    ensures
        res->Ok_0.id is Some,
        res->Ok_0.id.unwrap() != 0,
        item.id is None ==> res->Ok_0.id == Some((old_contests.len() + 1) as u64),
        read matches Ok(r) && r@ == res->Ok_0@,
{
    let c = res->Ok_0;
    if exists|k: int| 0 <= k < item.user_ids@.len() && !user_known(users, #[trigger] item.user_ids@[k]) {
        assert(false);
    }
    if exists|k: int| 0 <= k < item.problem_ids@.len() && !problem_known(problems, #[trigger] item.problem_ids@[k]) {
        assert(false);
    }
    match item.id {
        None => {
            assert(c@.id == Some((old_contests.len() + 1) as u64));
        },
        Some(id) => {
            assert(c@ == item@);
        },
    }
}

/// Reads contest `id`: the contest at place `id - 1`, or not found.
pub fn get_contests_by_id(contests: &Vec<Contest>, id: u64) -> (res: std::result::Result<
    Contest,
    Error,
>)
    requires
        id != 0,
    ensures
        contest_read_outcome(contests@, id, res),
{
    if id > contests.len() as u64 {
        return Err(contest_not_found(id));
    }
    Ok(contests[(id - 1) as usize].clone())
}

} // verus!
