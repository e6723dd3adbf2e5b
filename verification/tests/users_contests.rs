use oj::config::{Problem, ProblemType};
use oj::contests::{get_contests_by_id, post_contests};
use oj::types::{Contest, User};
use oj::users::{ensure_root, post_users};

fn user(id: Option<u64>, name: &str) -> User {
    User { id, name: name.to_string() }
}

fn problem(id: u64) -> Problem {
    Problem { id, name: format!("p{}", id), ty: ProblemType::Standard, misc: None, cases: vec![] }
}

fn contest(id: Option<u64>, problems: Vec<u64>, users: Vec<u64>) -> Contest {
    Contest {
        id,
        name: "c".to_string(),
        from: "2022-01-01T00:00:00.000Z".to_string(),
        to: "2023-01-01T00:00:00.000Z".to_string(),
        problem_ids: problems,
        user_ids: users,
        submission_limit: 0,
    }
}

#[test]
fn root_user_is_added_to_an_empty_list() {
    let mut users = vec![];
    ensure_root(&mut users);
    assert_eq!(users.len(), 1);
    assert_eq!(users[0].id, Some(0));
    assert_eq!(users[0].name, "root");
    ensure_root(&mut users);
    assert_eq!(users.len(), 1);
}

#[test]
fn new_user_gets_next_id() {
    let mut users = vec![user(Some(0), "root")];
    let u = post_users(&mut users, user(None, "alice")).ok().unwrap();
    assert_eq!(u.id, Some(1));
    assert_eq!(u.name, "alice");
    assert_eq!(users.len(), 2);
    assert_eq!(users[1].name, "alice");
}

#[test]
fn duplicate_name_is_refused() {
    let mut users = vec![user(Some(0), "root")];
    let e = post_users(&mut users, user(None, "root")).err().unwrap();
    assert_eq!(e.code, 1);
    assert_eq!(e.reason, "ERR_INVALID_ARGUMENT");
    assert_eq!(e.message, "User name 'root' already exists");
    assert_eq!(users.len(), 1);
}

#[test]
fn rename_user() {
    let mut users = vec![user(Some(0), "root"), user(Some(1), "bob")];
    let u = post_users(&mut users, user(Some(1), "carol")).ok().unwrap();
    assert_eq!(u.id, Some(1));
    assert_eq!(users[1].name, "carol");
    // keeping one's own name is allowed
    let u = post_users(&mut users, user(Some(1), "carol")).ok().unwrap();
    assert_eq!(u.name, "carol");
}

#[test]
fn rename_unknown_user_is_not_found() {
    let mut users = vec![user(Some(0), "root")];
    let e = post_users(&mut users, user(Some(7), "x")).err().unwrap();
    assert_eq!(e.code, 3);
    assert_eq!(e.reason, "ERR_NOT_FOUND");
    assert_eq!(e.message, "User 7 not found.");
}

#[test]
fn rename_to_taken_name_is_refused() {
    let mut users = vec![user(Some(0), "root"), user(Some(1), "bob")];
    let e = post_users(&mut users, user(Some(1), "root")).err().unwrap();
    assert_eq!(e.code, 1);
    assert_eq!(e.message, "User name 'root' already exists");
    assert_eq!(users[1].name, "bob");
}

#[test]
fn contest_is_created_with_next_id_and_read_back() {
    let users = vec![user(Some(0), "root"), user(Some(1), "bob")];
    let problems = vec![problem(0), problem(1)];
    let mut contests = vec![];
    let c = post_contests(&mut contests, &users, &problems, contest(None, vec![1, 0], vec![1])).ok().unwrap();
    assert_eq!(c.id, Some(1));
    let c2 = post_contests(&mut contests, &users, &problems, contest(None, vec![1], vec![0, 1])).ok().unwrap();
    assert_eq!(c2.id, Some(2));
    let read = get_contests_by_id(&contests, 1).ok().unwrap();
    assert_eq!(read.id, Some(1));
    assert_eq!(read.problem_ids, vec![1, 0]);
    let read = get_contests_by_id(&contests, 2).ok().unwrap();
    assert_eq!(read.user_ids, vec![0, 1]);
}

#[test]
fn contest_with_unknown_user_is_not_found() {
    let users = vec![user(Some(0), "root")];
    let problems = vec![problem(0)];
    let mut contests = vec![];
    let e = post_contests(&mut contests, &users, &problems, contest(None, vec![5], vec![0, 3, 4])).err().unwrap();
    assert_eq!(e.code, 3);
    assert_eq!(e.message, "User 3 not found.");
    assert!(contests.is_empty());
}

#[test]
fn contest_with_unknown_problem_is_not_found() {
    let users = vec![user(Some(0), "root")];
    let problems = vec![problem(0)];
    let mut contests = vec![];
    let e = post_contests(&mut contests, &users, &problems, contest(None, vec![0, 9], vec![0])).err().unwrap();
    assert_eq!(e.code, 3);
    assert_eq!(e.reason, "ERR_NOT_FOUND");
    assert_eq!(e.message, "Problem 9 not found.");
}

#[test]
fn contest_update_replaces_it() {
    let users = vec![user(Some(0), "root")];
    let problems = vec![problem(0), problem(1)];
    let mut contests = vec![];
    post_contests(&mut contests, &users, &problems, contest(None, vec![0], vec![0])).ok().unwrap();
    let mut changed = contest(Some(1), vec![1], vec![]);
    changed.name = "renamed".to_string();
    let c = post_contests(&mut contests, &users, &problems, changed).ok().unwrap();
    assert_eq!(c.name, "renamed");
    assert_eq!(contests[0].name, "renamed");
    assert_eq!(contests[0].problem_ids, vec![1]);
    let e = post_contests(&mut contests, &users, &problems, contest(Some(2), vec![], vec![])).err().unwrap();
    assert_eq!(e.code, 3);
    assert_eq!(e.message, "Contest 2 not found.");
}

#[test]
fn unknown_contest_is_not_found() {
    let contests: Vec<Contest> = vec![];
    let e = get_contests_by_id(&contests, 12).err().unwrap();
    assert_eq!(e.code, 3);
    assert_eq!(e.message, "Contest 12 not found.");
}

#[test]
fn contest_id_zero_is_not_found_after_the_name_checks() {
    let users = vec![user(Some(0), "root")];
    let problems = vec![problem(0)];
    let mut contests = vec![];
    post_contests(&mut contests, &users, &problems, contest(None, vec![0], vec![0])).ok().unwrap();
    let e = post_contests(&mut contests, &users, &problems, contest(Some(0), vec![0], vec![0])).err().unwrap();
    assert_eq!((e.code, e.reason.as_str(), e.message.as_str()), (3, "ERR_NOT_FOUND", "Contest 0 not found."));
    // unknown users and problems are reported first, whatever the id
    let e = post_contests(&mut contests, &users, &problems, contest(Some(0), vec![0], vec![6])).err().unwrap();
    assert_eq!(e.message, "User 6 not found.");
    let e = post_contests(&mut contests, &users, &problems, contest(Some(0), vec![8], vec![0])).err().unwrap();
    assert_eq!(e.message, "Problem 8 not found.");
    assert_eq!(contests.len(), 1);
    assert_eq!(contests[0].id, Some(1));
}

#[test]
fn user_without_id_matches_no_contest_user() {
    let users = vec![user(None, "ghost"), user(Some(1), "bob")];
    let problems = vec![problem(0)];
    let mut contests = vec![];
    let e = post_contests(&mut contests, &users, &problems, contest(None, vec![0], vec![0])).err().unwrap();
    assert_eq!(e.message, "User 0 not found.");
    let c = post_contests(&mut contests, &users, &problems, contest(None, vec![0], vec![1])).ok().unwrap();
    assert_eq!(c.id, Some(1));
    let empty: Vec<User> = vec![];
    let c = post_contests(&mut contests, &empty, &problems, contest(None, vec![0], vec![])).ok().unwrap();
    assert_eq!(c.id, Some(2));
}

#[test]
fn written_contest_reads_back() {
    let users = vec![user(Some(0), "root")];
    let problems = vec![problem(0), problem(1)];
    let mut contests = vec![];
    let c = post_contests(&mut contests, &users, &problems, contest(None, vec![0], vec![0])).ok().unwrap();
    let back = get_contests_by_id(&contests, c.id.unwrap()).ok().unwrap();
    assert_eq!((back.id, back.problem_ids.clone(), back.user_ids.clone()), (c.id, c.problem_ids.clone(), c.user_ids.clone()));
    let mut changed = contest(Some(1), vec![1, 0], vec![]);
    changed.submission_limit = 3;
    let c = post_contests(&mut contests, &users, &problems, changed).ok().unwrap();
    let back = get_contests_by_id(&contests, 1).ok().unwrap();
    assert_eq!((back.id, back.problem_ids, back.submission_limit), (c.id, vec![1, 0], 3));
}
