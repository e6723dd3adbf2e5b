//! Rank lists: which job of each user counts for each problem, how users are
//! ordered, and which rank each one gets.
//!
//! Building a rank list takes three steps: [`collect_ranked_users`] picks the
//! counted jobs; the caller then sums each user's counted scores in that order
//! (floating-point addition, outside this library) into `total_score_bits`;
//! [`order_ranked_users`] completes, orders and ranks the users, and
//! [`ranked_list`] gives the published lines.

use vstd::prelude::*;
use crate::config::Problem;
use crate::contests::{contest_not_found, contest_not_found_message, problem_known};
use crate::sort::{is_stable_sort, is_stable_sort_by, stable_sort, strict_weak_order};
use crate::text::{lemma_seq_lt_transitive, lemma_seq_lt_trichotomy, push_decimal, seq_lt, str_lt};
use crate::types::{
    error_is, is_empty_submission, not_found, Contest, ContestView, Error, RankStandard,
    RankedUser, RankedUserTemp, RankedUserTempView, Result, ScoringRule, State, Task, TaskView,
    TieBreaker, User,
};

verus! {

/// `i` is the first place of `s` holding `x`.
pub open spec fn is_first_of(s: Seq<u64>, x: u64, i: int) -> bool {
    &&& 0 <= i < s.len()
    &&& s[i] == x
    &&& forall|j: int| 0 <= j < i ==> #[trigger] s[j] != x
}

/// The first place of `s` holding `x`, or -1.
pub open spec fn index_of(s: Seq<u64>, x: u64) -> int {
    if s.contains(x) {
        choose|i: int| is_first_of(s, x, i)
    } else {
        -1
    }
}

/// `index_of` is the first place holding `x`, when there is one.
pub proof fn lemma_index_of(s: Seq<u64>, x: u64, i: int)
    requires
        is_first_of(s, x, i),
    ensures
        index_of(s, x) == i,
{
    assert(s.contains(x)) by {
        assert(s[i] == x);
    }
    let w = choose|k: int| is_first_of(s, x, k);
    assert(is_first_of(s, x, w));
    if w < i {
        assert(s[w] != x);
    } else if w > i {
        assert(s[i] != x);
    }
}

/// A value that occurs has a first place, which `index_of` gives.
pub proof fn lemma_index_of_exists(s: Seq<u64>, x: u64, k: int)
    requires
        0 <= k < s.len(),
        s[k] == x,
    ensures
        is_first_of(s, x, index_of(s, x)),
    decreases k,
{
    if exists|j: int| 0 <= j < k && #[trigger] s[j] == x {
        let j = choose|j: int| 0 <= j < k && #[trigger] s[j] == x;
        lemma_index_of_exists(s, x, j);
    } else {
        lemma_index_of(s, x, k);
    }
}

/// The place of the first `num` in `arr`, or -1 (the place taken as an `i32`).
pub fn find(arr: &Vec<u64>, num: u64) -> (r: i32)
    ensures
        r == index_of(arr@, num) as i32,
{
    for i in 0..arr.len()
        invariant
            forall|j: int| 0 <= j < i ==> #[trigger] arr@[j] != num,
    {
        if arr[i] == num {
            proof {
                lemma_index_of(arr@, num, i as int);
            }
            let r = i as i32;
            assert(r == (i as int) as i32);
            return r;
        }
    }
    -1
}

/// An unsigned key of a score (the bits of an `f64`) that orders and compares
/// as the scores do, for scores that are not NaN (`-0.0` and `0.0` share a key).
pub open spec fn score_key(bits: u64) -> u64 {
    if bits == 0x8000_0000_0000_0000u64 {
        0x8000_0000_0000_0000u64
    } else if bits > 0x8000_0000_0000_0000u64 {
        !bits
    } else {
        bits | 0x8000_0000_0000_0000u64
    }
}

/// The ordering key of a score, see [`score_key`].
pub fn score_key_of(bits: u64) -> (r: u64)
    ensures
        r == score_key(bits),
{
    if bits == 0x8000_0000_0000_0000u64 {
        0x8000_0000_0000_0000u64
    } else if bits > 0x8000_0000_0000_0000u64 {
        !bits
    } else {
        bits | 0x8000_0000_0000_0000u64
    }
}

/// The rules of a rank list request: the scoring rule asked for (the latest job
/// by default) and the tie breaker asked for (none by default).
pub fn rank_standard(query: &RankStandard) -> (r: RankStandard)
    ensures
        r.scoring_rule == Some(query.scoring_rule.unwrap_or(ScoringRule::Latest)),
        r.tie_breaker == query.tie_breaker,
{
    let mut standard = RankStandard::new();
    if let Some(s) = query.scoring_rule {
        standard.scoring_rule = Some(s);
    }
    if let Some(t) = query.tie_breaker {
        standard.tie_breaker = Some(t);
    }
    standard
}

/// The job counts towards the rank list of contest `contest_id`: in contest 0
/// every job on a configured problem counts, otherwise the contest's own jobs.
pub open spec fn counts_for(contest_id: usize, problems: Seq<Problem>, t: TaskView) -> bool {
    if contest_id == 0 {
        problem_known(problems, t.submission.problem_id)
    } else {
        t.submission.contest_id == contest_id as u64
    }
}

/// The jobs of a rank list, in list order.
pub open spec fn ranked_tasks(contest_id: usize, problems: Seq<Problem>, jobs: Seq<Task>) -> Seq<
    TaskView,
> {
    jobs.map_values(|t: Task| t@).filter(|t: TaskView| counts_for(contest_id, problems, t))
}

/// The place in the rank list of the user who submitted `t`.
pub open spec fn slot_of(contest_id: usize, contest: ContestView, t: TaskView) -> int {
    if contest_id == 0 {
        t.submission.user_id as int
    } else {
        index_of(contest.user_ids, t.submission.user_id)
    }
}

/// What is known of one user while the jobs are read: the counted jobs, the
/// latest time of a counted job and the number of jobs.
pub struct Tally {
    pub counted: Seq<TaskView>,
    pub latest: Seq<char>,
    pub total_sub: nat,
}

/// `i` is the first place of a counted job on problem `pid`.
pub open spec fn is_counted_place(counted: Seq<TaskView>, pid: u64, i: int) -> bool {
    &&& 0 <= i < counted.len()
    &&& counted[i].submission.problem_id == pid
    &&& forall|j: int| 0 <= j < i ==> (#[trigger] counted[j]).submission.problem_id != pid
}

/// Some counted job is on problem `pid`.
pub open spec fn has_problem(counted: Seq<TaskView>, pid: u64) -> bool {
    exists|i: int| 0 <= i < counted.len() && (#[trigger] counted[i]).submission.problem_id == pid
}

/// The place of the counted job on problem `pid`, or -1.
pub open spec fn counted_place(counted: Seq<TaskView>, pid: u64) -> int {
    if has_problem(counted, pid) {
        choose|i: int| is_counted_place(counted, pid, i)
    } else {
        -1
    }
}

proof fn lemma_counted_place(counted: Seq<TaskView>, pid: u64, i: int)
    requires
        is_counted_place(counted, pid, i),
    ensures
        counted_place(counted, pid) == i,
{
    assert(has_problem(counted, pid)) by {
        assert(counted[i].submission.problem_id == pid);
    }
    let w = choose|k: int| is_counted_place(counted, pid, k);
    assert(is_counted_place(counted, pid, w));
    if w < i {
        assert(counted[w].submission.problem_id != pid);
    } else if w > i {
        assert(counted[i].submission.problem_id != pid);
    }
}

/// `t` replaces the counted job `old` on the same problem.
pub open spec fn replaces(rule: ScoringRule, t: TaskView, old: TaskView) -> bool {
    match rule {
        ScoringRule::Highest => score_key(t.score_bits) > score_key(old.score_bits),
        ScoringRule::Latest => seq_lt(old.created_time@, t.created_time@),
    }
}

/// The later of the latest time and `t`'s creation time.
pub open spec fn later(latest: Seq<char>, t: TaskView) -> Seq<char> {
    if seq_lt(latest, t.created_time@) {
        t.created_time@
    } else {
        latest
    }
}

/// The user's tally after one more job of theirs.
pub open spec fn absorb(s: Tally, t: TaskView, rule: ScoringRule) -> Tally {
    let k = counted_place(s.counted, t.submission.problem_id);
    if k >= 0 {
        if replaces(rule, t, s.counted[k]) {
            Tally { counted: s.counted.update(k, t), latest: later(s.latest, t), total_sub: s.total_sub + 1 }
        } else {
            Tally { counted: s.counted, latest: s.latest, total_sub: s.total_sub + 1 }
        }
    } else {
        Tally { counted: s.counted.push(t), latest: later(s.latest, t), total_sub: s.total_sub + 1 }
    }
}

/// The tally of the user at place `slot` after reading `tasks` in order.
pub open spec fn tally(
    tasks: Seq<TaskView>,
    slot: int,
    contest_id: usize,
    contest: ContestView,
    rule: ScoringRule,
) -> Tally
    decreases tasks.len(),
{
    if tasks.len() == 0 {
        Tally { counted: Seq::empty(), latest: crate::types::epoch_time(), total_sub: 0 }
    } else {
        let before = tally(tasks.drop_last(), slot, contest_id, contest, rule);
        if slot_of(contest_id, contest, tasks.last()) == slot {
            absorb(before, tasks.last(), rule)
        } else {
            before
        }
    }
}

/// Under the highest-score rule, a user's later job on a problem they already
/// have a counted job on (at place `k`) replaces that job exactly when it scores
/// strictly higher, and only then can it move the user's latest time (to its own
/// creation time, when later). With an equal or lower score the counted jobs and
/// the latest time stay as they were; the user's job count grows either way.
pub proof fn highest_rule_replaces_only_higher(
    tasks: Seq<TaskView>,
    t: TaskView,
    slot: int,
    contest_id: usize,
    contest: ContestView,
    k: int,
)
    requires
        slot_of(contest_id, contest, t) == slot,
        is_counted_place(
            tally(tasks, slot, contest_id, contest, ScoringRule::Highest).counted,
            t.submission.problem_id,
            k,
        ),
    ensures
        ({
            let before = tally(tasks, slot, contest_id, contest, ScoringRule::Highest);
            let after = tally(tasks.push(t), slot, contest_id, contest, ScoringRule::Highest);
            &&& after.total_sub == before.total_sub + 1
            &&& score_key(t.score_bits) <= score_key(before.counted[k].score_bits) ==> {
                &&& after.counted == before.counted
                &&& after.latest == before.latest
            }
            &&& score_key(t.score_bits) > score_key(before.counted[k].score_bits) ==> {
                &&& after.counted == before.counted.update(k, t)
                &&& after.latest == if seq_lt(before.latest, t.created_time@) {
                    t.created_time@
                } else {
                    before.latest
                }
            }
        }),
{
    let before = tally(tasks, slot, contest_id, contest, ScoringRule::Highest);
    assert(tasks.push(t).drop_last() =~= tasks);
    assert(tasks.push(t).last() == t);
    lemma_counted_place(before.counted, t.submission.problem_id, k);
}

/// Under the latest rule, a user's later job on a problem they already have a
/// counted job on (at place `k`) replaces it exactly when it was created later.
pub proof fn latest_rule_replaces_only_newer(
    tasks: Seq<TaskView>,
    t: TaskView,
    slot: int,
    contest_id: usize,
    contest: ContestView,
    k: int,
)
    requires
        slot_of(contest_id, contest, t) == slot,
        is_counted_place(
            tally(tasks, slot, contest_id, contest, ScoringRule::Latest).counted,
            t.submission.problem_id,
            k,
        ),
    ensures
        ({
            let before = tally(tasks, slot, contest_id, contest, ScoringRule::Latest);
            let after = tally(tasks.push(t), slot, contest_id, contest, ScoringRule::Latest);
            &&& after.total_sub == before.total_sub + 1
            &&& seq_lt(before.counted[k].created_time@, t.created_time@) ==> after.counted
                == before.counted.update(k, t)
            &&& !seq_lt(before.counted[k].created_time@, t.created_time@) ==> {
                &&& after.counted == before.counted
                &&& after.latest == before.latest
            }
        }),
{
    let before = tally(tasks, slot, contest_id, contest, ScoringRule::Latest);
    assert(tasks.push(t).drop_last() =~= tasks);
    assert(tasks.push(t).last() == t);
    lemma_counted_place(before.counted, t.submission.problem_id, k);
}

/// The time given to a user without counted jobs, later than any other.
pub open spec fn far_future() -> Seq<char> {
    "9999-12-31T23:59:59.000Z"@
}

/// The contest a rank list is for: contest `contest_id`, or an empty one for 0.
pub open spec fn ranked_contest(contests: Seq<Contest>, contest_id: usize, c: ContestView) -> bool {
    if contest_id == 0 {
        &&& c.id is None
        &&& c.name@ == Seq::<char>::empty()
        &&& c.from@ == Seq::<char>::empty()
        &&& c.to@ == Seq::<char>::empty()
        &&& c.problem_ids == Seq::<u64>::empty()
        &&& c.user_ids == Seq::<u64>::empty()
        &&& c.submission_limit == 0
    } else {
        c == contests[contest_id - 1]@
    }
}

/// Every job of the rank list belongs to a user of the rank list.
pub open spec fn ranklist_defined(
    contest_id: usize,
    contests: Seq<Contest>,
    jobs: Seq<Task>,
    problems: Seq<Problem>,
    users: Seq<User>,
) -> bool {
    &&& contest_id == 0 ==> forall|i: int|
        0 <= i < jobs.len() && counts_for(contest_id, problems, #[trigger] jobs[i]@)
            ==> jobs[i].submission.user_id < users.len()
    &&& 0 < contest_id <= contests.len() ==> {
        &&& contests[contest_id - 1].user_ids@.len() < 0x8000_0000
        &&& forall|i: int|
            0 <= i < jobs.len() && counts_for(contest_id, problems, #[trigger] jobs[i]@)
                ==> contests[contest_id - 1].user_ids@.contains(jobs[i].submission.user_id)
    }
}

/// Whether the rank list of contest `contest_id` can be made, see [`ranklist_defined`].
pub fn ranklist_is_defined(
    contest_id: usize,
    contests: &Vec<Contest>,
    jobs: &Vec<Task>,
    problems: &Vec<Problem>,
    users: &Vec<User>,
) -> (r: bool)
    ensures
        r == ranklist_defined(contest_id, contests@, jobs@, problems@, users@),
{
    if contest_id > contests.len() {
        return true;
    }
    if contest_id != 0 && contests[contest_id - 1].user_ids.len() >= 0x8000_0000 {
        return false;
    }
    for i in 0..jobs.len()
        invariant
            contest_id <= contests@.len(),
            contest_id != 0 ==> contests@[contest_id - 1].user_ids@.len() < 0x8000_0000,
            forall|k: int|
                0 <= k < i && counts_for(contest_id, problems@, #[trigger] jobs@[k]@) ==> if contest_id
                    == 0 {
                    jobs@[k].submission.user_id < users@.len()
                } else {
                    contests@[contest_id - 1].user_ids@.contains(jobs@[k].submission.user_id)
                },
    {
        let t = &jobs[i];
        let uid = t.submission.user_id;
        if contest_id == 0 {
            if crate::contests::find_problem_id(problems, t.submission.problem_id) && uid
                >= users.len() as u64 {
                assert(counts_for(contest_id, problems@, jobs@[i as int]@));
                return false;
            }
        } else if t.submission.contest_id == contest_id as u64 && !crate::jobs::contains_number(
            &contests[contest_id - 1].user_ids,
            uid,
        ) {
            assert(counts_for(contest_id, problems@, jobs@[i as int]@));
            return false;
        }
    }
    true
}

/// User `i` of a rank list, after the jobs are read.
pub open spec fn is_collected_user(
    u: RankedUserTempView,
    i: int,
    contest_id: usize,
    contest: ContestView,
    tasks: Seq<TaskView>,
    rule: ScoringRule,
) -> bool {
    let t = tally(tasks, i, contest_id, contest, rule);
    &&& u.user.id == Some(if contest_id == 0 { i as u64 } else { contest.user_ids[i] })
    &&& u.user.name@ == Seq::<char>::empty()
    &&& u.rank == 0
    &&& u.total_score_bits == 0
    &&& u.submission_time == 0
    &&& u.counted_task == t.counted
    &&& u.latest_sub@ == if t.counted.len() == 0 { far_future() } else { t.latest }
    &&& u.total_sub == t.total_sub
}

fn tally_for(
    tasks: &Vec<Task>,
    slots: &Vec<usize>,
    slot: usize,
    rule: ScoringRule,
    Ghost(contest_id): Ghost<usize>,
    Ghost(contest): Ghost<ContestView>,
) -> (r: (Vec<Task>, String, u64))
    requires
        slots@.len() == tasks@.len(),
        forall|k: int| 0 <= k < tasks@.len() ==> slots@[k] == slot_of(contest_id, contest, #[trigger] tasks@[k]@),
    ensures
        ({
            let t = tally(tasks@.map_values(|t: Task| t@), slot as int, contest_id, contest, rule);
            &&& r.0.deep_view() == t.counted
            &&& r.1@ == t.latest
            &&& r.2 == t.total_sub
        }),
{
    let ghost all = tasks@.map_values(|t: Task| t@);
    let mut counted: Vec<Task> = Vec::new();
    let mut latest = String::from_str("1970-01-01T00:00:00.000Z");
    let mut total: u64 = 0;
    for i in 0..tasks.len()
        invariant
            all == tasks@.map_values(|t: Task| t@),
            slots@.len() == tasks@.len(),
            forall|k: int| 0 <= k < tasks@.len() ==> slots@[k] == slot_of(contest_id, contest, #[trigger] tasks@[k]@),
            ({
                let t = tally(all.take(i as int), slot as int, contest_id, contest, rule);
                &&& counted.deep_view() == t.counted
                &&& latest@ == t.latest
                &&& total == t.total_sub
            }),
            total <= i,
    {
        proof {
            assert(all.take(i + 1).drop_last() =~= all.take(i as int));
            assert(all.take(i + 1).last() == tasks@[i as int]@);
        }
        if slots[i] == slot {
            let t = &tasks[i];
            let mut k: usize = 0;
            while k < counted.len() && counted[k].submission.problem_id != t.submission.problem_id
                invariant
                    k <= counted.len(),
                    forall|j: int|
                        0 <= j < k ==> (#[trigger] counted.deep_view()[j]).submission.problem_id
                            != t.submission.problem_id,
                decreases counted.len() - k,
            {
                k = k + 1;
            }
            let found = k < counted.len();
            total = total + 1;
            if found {
                proof {
                    lemma_counted_place(counted.deep_view(), t.submission.problem_id, k as int);
                }
                let better = match rule {
                    ScoringRule::Highest => score_key_of(t.score_bits) > score_key_of(
                        counted[k].score_bits,
                    ),
                    ScoringRule::Latest => str_lt(
                        counted[k].created_time.as_str(),
                        t.created_time.as_str(),
                    ),
                };
                if better {
                    let ghost before = counted.deep_view();
                    counted.set(k, t.clone());
                    proof {
                        assert(counted.deep_view() =~= before.update(k as int, t@));
                    }
                    if str_lt(latest.as_str(), t.created_time.as_str()) {
                        latest = t.created_time.clone();
                    }
                }
            } else {
                let ghost before = counted.deep_view();
                counted.push(t.clone());
                proof {
                    assert(counted.deep_view() =~= before.push(t@));
                }
                if str_lt(latest.as_str(), t.created_time.as_str()) {
                    latest = t.created_time.clone();
                }
            }
        }
    }
    proof {
        assert(all.take(tasks@.len() as int) =~= all);
    }
    (counted, latest, total)
}

/// Reads the jobs of contest `contest_id` (0: every job on a configured
/// problem) and gives each user of the rank list their counted jobs.
///
/// Users are the contest's users in order (for contest 0, every user, by id).
/// A user's jobs are read in list order: the first job on a problem is
/// counted; a later one replaces it when it is newer (`Latest`) or scores
/// higher (`Highest`), and then moves the user's latest time forward. A user
/// without counted jobs gets the latest time `9999-12-31T23:59:59.000Z`.
pub fn collect_ranked_users(
    contest_id: usize,
    contests: &Vec<Contest>,
    jobs: &Vec<Task>,
    problems: &Vec<Problem>,
    users: &Vec<User>,
    rule: ScoringRule,
) -> (res: std::result::Result<(Vec<RankedUserTemp>, Contest), Error>)
    requires
        ranklist_defined(contest_id, contests@, jobs@, problems@, users@),
    ensures
        contest_id > contests@.len() ==> (res matches Err(e) && error_is(
            e,
            3,
            not_found(),
            contest_not_found_message(contest_id as u64),
        )),
        contest_id <= contests@.len() ==> (res matches Ok(r) && {
            let tasks = ranked_tasks(contest_id, problems@, jobs@);
            &&& ranked_contest(contests@, contest_id, r.1@)
            &&& r.0@.len() == if contest_id == 0 { users@.len() } else { r.1@.user_ids.len() }
            &&& forall|i: int|
                0 <= i < r.0@.len() ==> is_collected_user(
                    #[trigger] r.0@[i]@,
                    i,
                    contest_id,
                    r.1@,
                    tasks,
                    rule,
                )
        }),
{
    if contest_id > contests.len() {
        return Err(contest_not_found(contest_id as u64));
    }
    let contest = if contest_id != 0 {
        contests[contest_id - 1].clone()
    } else {
        Contest::new()
    };
    let ghost pred = |t: TaskView| counts_for(contest_id, problems@, t);
    let ghost all = jobs@.map_values(|t: Task| t@);
    let mut tasks: Vec<Task> = Vec::new();
    let mut slots: Vec<usize> = Vec::new();
    for i in 0..jobs.len()
        invariant
            contest_id <= contests@.len(),
            ranklist_defined(contest_id, contests@, jobs@, problems@, users@),
            ranked_contest(contests@, contest_id, contest@),
            all == jobs@.map_values(|t: Task| t@),
            pred == (|t: TaskView| counts_for(contest_id, problems@, t)),
            tasks.deep_view() == all.take(i as int).filter(pred),
            slots@.len() == tasks@.len(),
            forall|k: int|
                0 <= k < tasks@.len() ==> slots@[k] == slot_of(contest_id, contest@, #[trigger] tasks@[k]@),
            forall|k: int|
                0 <= k < slots@.len() ==> #[trigger] slots@[k] < if contest_id == 0 {
                    users@.len()
                } else {
                    contest@.user_ids.len()
                },
    {
        proof {
            assert(all.take(i + 1).drop_last() =~= all.take(i as int));
            reveal_with_fuel(Seq::<_>::filter, 1);
            assert(all[i as int] == jobs@[i as int]@);
        }
        let t = &jobs[i];
        let counts = if contest_id == 0 {
            crate::contests::find_problem_id(problems, t.submission.problem_id)
        } else {
            t.submission.contest_id == contest_id as u64
        };
        if counts {
            let slot: usize = if contest_id == 0 {
                let n = users.len();
                let s = t.submission.user_id as usize;
                assert(s as int == t.submission.user_id as int);
                s
            } else {
                let f = find(&contest.user_ids, t.submission.user_id);
                proof {
                    let w = choose|k: int| 0 <= k < contest@.user_ids.len() && contest@.user_ids[k] == t.submission.user_id;
                    lemma_index_of_exists(contest@.user_ids, t.submission.user_id, w);
                    let fi = index_of(contest@.user_ids, t.submission.user_id);
                    assert(0 <= fi < 0x8000_0000);
                    assert(f as int == fi);
                }
                f as usize
            };
            let ghost before = tasks.deep_view();
            tasks.push(t.clone());
            slots.push(slot);
            proof {
                assert(tasks.deep_view() =~= before.push(t@));
            }
        }
    }
    proof {
        assert(all.take(jobs@.len() as int) =~= all);
    }
    let count = if contest_id == 0 {
        users.len()
    } else {
        contest.user_ids.len()
    };
    let mut ranked: Vec<RankedUserTemp> = Vec::new();
    for u in 0..count
        invariant
            count == if contest_id == 0 { users@.len() } else { contest@.user_ids.len() },
            ranked_contest(contests@, contest_id, contest@),
            tasks.deep_view() == ranked_tasks(contest_id, problems@, jobs@),
            slots@.len() == tasks@.len(),
            forall|k: int|
                0 <= k < tasks@.len() ==> slots@[k] == slot_of(contest_id, contest@, #[trigger] tasks@[k]@),
            ranked@.len() == u,
            forall|k: int|
                0 <= k < u ==> is_collected_user(
                    #[trigger] ranked@[k]@,
                    k,
                    contest_id,
                    contest@,
                    ranked_tasks(contest_id, problems@, jobs@),
                    rule,
                ),
    {
        let (counted, latest, total) = tally_for(&tasks, &slots, u, rule, Ghost(contest_id), Ghost(contest@));
        proof {
            assert(tasks@.map_values(|t: Task| t@) =~= tasks.deep_view());
        }
        let mut entry = RankedUserTemp::new();
        entry.user.id = Some(if contest_id == 0 { u as u64 } else { contest.user_ids[u] });
        entry.total_sub = total;
        if counted.len() == 0 {
            entry.latest_sub = String::from_str("9999-12-31T23:59:59.000Z");
        } else {
            entry.latest_sub = latest;
        }
        entry.counted_task = counted;
        ranked.push(entry);
    }
    Ok((ranked, contest))
}

/// The problems of a rank list, in configuration order: every configured
/// problem for contest 0, otherwise the configured problems the contest lists.
pub open spec fn ranked_problem_ids(contest_id: usize, contest: ContestView, problems: Seq<Problem>) -> Seq<u64> {
    problems.map_values(|p: Problem| p.id).filter(
        |id: u64| contest_id == 0 || contest.problem_ids.contains(id),
    )
}

/// The problem ids of `pids` that get an empty job: those not counted yet,
/// each once, in order.
pub open spec fn fill_ids(counted_ids: Seq<u64>, pids: Seq<u64>) -> Seq<u64>
    decreases pids.len(),
{
    if pids.len() == 0 {
        Seq::empty()
    } else {
        let before = fill_ids(counted_ids, pids.drop_last());
        if counted_ids.contains(pids.last()) || before.contains(pids.last()) {
            before
        } else {
            before.push(pids.last())
        }
    }
}

/// The problem ids of a list of jobs.
pub open spec fn problem_ids_of(tasks: Seq<Task>) -> Seq<u64> {
    tasks.map_values(|t: Task| t.submission.problem_id)
}

/// The empty job standing for problem `pid` in a rank list.
pub open spec fn is_placeholder(t: TaskView, pid: u64) -> bool {
    &&& t.id == 0
    &&& t.created_time@ == Seq::<char>::empty()
    &&& t.updated_time@ == Seq::<char>::empty()
    &&& t.submission.source_code@ == Seq::<char>::empty()
    &&& t.submission.language@ == Seq::<char>::empty()
    &&& t.submission.user_id == 0
    &&& t.submission.contest_id == 0
    &&& t.submission.problem_id == pid
    &&& t.state == State::Queueing
    &&& t.result == Result::Waiting
    &&& t.score_bits == 0
    &&& t.cases == Seq::<crate::types::Case>::empty()
}

/// `filled` is `counted` followed by an empty job for each problem of `pids`
/// without a counted job.
pub open spec fn is_filled(filled: Seq<Task>, counted: Seq<Task>, pids: Seq<u64>) -> bool {
    let add = fill_ids(problem_ids_of(counted), pids);
    &&& filled.len() == counted.len() + add.len()
    &&& filled.take(counted.len() as int) == counted
    &&& forall|k: int| 0 <= k < add.len() ==> is_placeholder(#[trigger] filled[counted.len() + k]@, add[k])
}

/// The place of the first configured problem with id `pid`, or 0.
pub open spec fn config_position(problems: Seq<Problem>, pid: u64) -> int {
    if problem_known(problems, pid) {
        choose|i: int| crate::jobs::is_first_problem(problems, pid, i)
    } else {
        0
    }
}

/// Where a problem's column stands in a rank list.
pub open spec fn task_key(contest_id: usize, contest: ContestView, problems: Seq<Problem>, t: TaskView) -> int {
    if contest_id != 0 {
        (index_of(contest.problem_ids, t.submission.problem_id) as i32) as int
    } else {
        config_position(problems, t.submission.problem_id)
    }
}

/// A user's jobs are ordered by the place of their problem.
pub open spec fn task_order(contest_id: usize, contest: ContestView, problems: Seq<Problem>) -> spec_fn(Task, Task) -> bool {
    |a: Task, b: Task| task_key(contest_id, contest, problems, a@) > task_key(contest_id, contest, problems, b@)
}

/// `a` is greater than `b` as `Option`'s derived order has it (`None` first).
pub open spec fn id_gt(a: Option<u64>, b: Option<u64>) -> bool {
    match (a, b) {
        (Some(x), Some(y)) => x > y,
        (Some(_), None) => true,
        _ => false,
    }
}

/// `a` ranks behind `b`: a lower total score, or an equal one and a worse tie
/// breaker (more submissions, a later latest time, or a greater user id).
pub open spec fn user_gt(tie: Option<TieBreaker>, a: RankedUserTemp, b: RankedUserTemp) -> bool {
    ||| score_key(a.total_score_bits) < score_key(b.total_score_bits)
    ||| score_key(a.total_score_bits) == score_key(b.total_score_bits) && match tie {
        Some(TieBreaker::SubmissionCount) => a.total_sub > b.total_sub,
        Some(TieBreaker::SubmissionTime) => seq_lt(b.latest_sub@, a.latest_sub@),
        _ => id_gt(a.user.id, b.user.id),
    }
}

/// The order of a rank list's users.
pub open spec fn user_order(tie: Option<TieBreaker>) -> spec_fn(RankedUserTemp, RankedUserTemp) -> bool {
    |a: RankedUserTemp, b: RankedUserTemp| user_gt(tie, a, b)
}

/// The rank of the user at place `i` of the ordered list `s`.
pub open spec fn rank_at(s: Seq<RankedUserTemp>, i: int, tie: Option<TieBreaker>) -> u64
    decreases i,
{
    if i <= 0 {
        1
    } else if score_key(s[i].total_score_bits) < score_key(s[i - 1].total_score_bits) {
        (i + 1) as u64
    } else {
        match tie {
            Some(TieBreaker::SubmissionTime) => if s[i].latest_sub@ == s[i - 1].latest_sub@ {
                rank_at(s, i - 1, tie)
            } else {
                (i + 1) as u64
            },
            Some(TieBreaker::SubmissionCount) => if s[i].total_sub == s[i - 1].total_sub {
                rank_at(s, i - 1, tie)
            } else {
                (i + 1) as u64
            },
            Some(TieBreaker::UserId) => (i + 1) as u64,
            None => if score_key(s[i].total_score_bits) == score_key(s[i - 1].total_score_bits) {
                rank_at(s, i - 1, tie)
            } else {
                s[i].rank
            },
        }
    }
}

/// The order of jobs by problem place is a strict weak order.
pub proof fn lemma_task_order(contest_id: usize, contest: ContestView, problems: Seq<Problem>)
    ensures
        strict_weak_order(task_order(contest_id, contest, problems)),
{
}

/// The order of users is a strict weak order.
pub proof fn lemma_user_order(tie: Option<TieBreaker>)
    ensures
        strict_weak_order(user_order(tie)),
{
    let gt = user_order(tie);
    assert forall|a: RankedUserTemp| !#[trigger] gt(a, a) by {
        if tie == Some(TieBreaker::SubmissionTime) {
            lemma_seq_lt_trichotomy(a.latest_sub@, a.latest_sub@);
        }
    }
    assert forall|a: RankedUserTemp, b: RankedUserTemp| #[trigger] gt(a, b) implies !gt(b, a) by {
        if tie == Some(TieBreaker::SubmissionTime) {
            lemma_seq_lt_trichotomy(a.latest_sub@, b.latest_sub@);
        }
    }
    assert forall|a: RankedUserTemp, b: RankedUserTemp, c: RankedUserTemp|
        #![trigger gt(a, b), gt(b, c)]
        !gt(a, b) && !gt(b, c) implies !gt(a, c) by {
        if tie == Some(TieBreaker::SubmissionTime) {
            lemma_seq_lt_trichotomy(a.latest_sub@, b.latest_sub@);
            lemma_seq_lt_trichotomy(b.latest_sub@, c.latest_sub@);
            lemma_seq_lt_trichotomy(a.latest_sub@, c.latest_sub@);
            if seq_lt(c.latest_sub@, a.latest_sub@) && score_key(a.total_score_bits) == score_key(
                b.total_score_bits,
            ) && score_key(b.total_score_bits) == score_key(c.total_score_bits) {
                if seq_lt(b.latest_sub@, a.latest_sub@) {
                } else if seq_lt(c.latest_sub@, b.latest_sub@) {
                } else {
                    if a.latest_sub@ != b.latest_sub@ {
                        lemma_seq_lt_transitive(c.latest_sub@, a.latest_sub@, b.latest_sub@);
                    }
                }
            }
        }
    }
}

/// A user once their jobs are completed for a rank list: an empty job for each
/// problem of the rank list they have no job on, all ordered by problem place.
pub open spec fn is_completed_user(
    c: RankedUserTemp,
    u: RankedUserTemp,
    pids: Seq<u64>,
    contest_id: usize,
    contest: ContestView,
    problems: Seq<Problem>,
) -> bool {
    &&& c.user == u.user
    &&& c.rank == u.rank
    &&& c.total_score_bits == u.total_score_bits
    &&& c.submission_time == u.submission_time
    &&& c.latest_sub == u.latest_sub
    &&& c.total_sub == u.total_sub
    &&& exists|filled: Seq<Task>|
        is_filled(filled, u.counted_task@, pids) && is_stable_sort(
            c.counted_task@,
            filled,
            task_order(contest_id, contest, problems),
        )
}

/// The problem ids of a rank list, see [`ranked_problem_ids`].
pub fn ranked_problem_id_list(contest_id: usize, contest: &Contest, problems: &Vec<Problem>) -> (r: Vec<u64>)
    ensures
        r@ == ranked_problem_ids(contest_id, contest@, problems@),
{
    let ghost pred = |id: u64| contest_id == 0 || contest@.problem_ids.contains(id);
    let ghost all = problems@.map_values(|p: Problem| p.id);
    let mut r: Vec<u64> = Vec::new();
    for i in 0..problems.len()
        invariant
            pred == (|id: u64| contest_id == 0 || contest@.problem_ids.contains(id)),
            all == problems@.map_values(|p: Problem| p.id),
            r@ == all.take(i as int).filter(pred),
    {
        proof {
            assert(all.take(i + 1).drop_last() =~= all.take(i as int));
            reveal_with_fuel(Seq::<_>::filter, 1);
        }
        let id = problems[i].id;
        if contest_id == 0 || crate::jobs::contains_number(&contest.problem_ids, id) {
            r.push(id);
        }
    }
    proof {
        assert(all.take(problems@.len() as int) =~= all);
    }
    r
}

/// An empty job standing for problem `pid`.
pub fn placeholder(pid: u64) -> (t: Task)
    ensures
        is_placeholder(t@, pid),
{
    let mut t = Task::new();
    t.submission.problem_id = pid;
    t
}

proof fn lemma_filled_ids(filled: Seq<Task>, counted: Seq<Task>, pids: Seq<u64>)
    requires
        is_filled(filled, counted, pids),
    ensures
        problem_ids_of(filled) == problem_ids_of(counted) + fill_ids(problem_ids_of(counted), pids),
{
    let add = fill_ids(problem_ids_of(counted), pids);
    assert forall|k: int| 0 <= k < filled.len() implies problem_ids_of(filled)[k] == (problem_ids_of(counted) + add)[k] by {
        if k < counted.len() {
            assert(filled[k] == filled.take(counted.len() as int)[k]);
        } else {
            assert(is_placeholder(filled[counted.len() + (k - counted.len())]@, add[k - counted.len()]));
        }
    }
    assert(problem_ids_of(filled) =~= problem_ids_of(counted) + add);
}

/// Adds an empty job for each problem of `pids` that `counted` has no job on.
pub fn fill_tasks(counted: Vec<Task>, pids: &Vec<u64>) -> (r: Vec<Task>)
    ensures
        is_filled(r@, counted@, pids@),
{
    let ghost c = counted@;
    let mut r = counted;
    proof {
        assert(r@.take(c.len() as int) =~= c);
        assert(fill_ids(problem_ids_of(c), pids@.take(0)) =~= Seq::<u64>::empty());
    }
    for i in 0..pids.len()
        invariant
            is_filled(r@, c, pids@.take(i as int)),
    {
        let pid = pids[i];
        proof {
            assert(pids@.take(i + 1).drop_last() =~= pids@.take(i as int));
            assert(pids@.take(i + 1).last() == pid);
            lemma_filled_ids(r@, c, pids@.take(i as int));
        }
        let mut j: usize = 0;
        while j < r.len() && r[j].submission.problem_id != pid
            invariant
                j <= r@.len(),
                forall|k: int| 0 <= k < j ==> (#[trigger] r@[k]).submission.problem_id != pid,
            decreases r@.len() - j,
        {
            j = j + 1;
        }
        let ghost ids = problem_ids_of(r@);
        let ghost add = fill_ids(problem_ids_of(c), pids@.take(i as int));
        if j == r.len() {
            proof {
                assert(!ids.contains(pid)) by {
                    if ids.contains(pid) {
                        let k = choose|k: int| 0 <= k < ids.len() && ids[k] == pid;
                        assert(r@[k].submission.problem_id == pid);
                    }
                }
                assert(!problem_ids_of(c).contains(pid)) by {
                    if problem_ids_of(c).contains(pid) {
                        let k = choose|k: int| 0 <= k < problem_ids_of(c).len() && problem_ids_of(c)[k] == pid;
                        assert(ids[k] == pid);
                    }
                }
                assert(!add.contains(pid)) by {
                    if add.contains(pid) {
                        let k = choose|k: int| 0 <= k < add.len() && add[k] == pid;
                        assert(ids[c.len() + k] == pid);
                    }
                }
            }
            let ghost before = r@;
            r.push(placeholder(pid));
            proof {
                let add2 = fill_ids(problem_ids_of(c), pids@.take(i + 1));
                assert(add2 == add.push(pid));
                assert(r@.take(c.len() as int) =~= before.take(c.len() as int));
                assert forall|k: int| 0 <= k < add2.len() implies is_placeholder(#[trigger] r@[c.len() + k]@, add2[k]) by {
                    if k < add.len() {
                        assert(r@[c.len() + k] == before[c.len() + k]);
                    }
                }
            }
        } else {
            proof {
                assert(ids[j as int] == pid);
                if j < c.len() {
                    assert(problem_ids_of(c)[j as int] == pid);
                } else {
                    assert(add[j - c.len()] == pid);
                }
                assert(fill_ids(problem_ids_of(c), pids@.take(i + 1)) == add);
            }
        }
    }
    proof {
        assert(pids@.take(pids@.len() as int) =~= pids@);
    }
    r
}

/// The place of a problem's column, see [`task_key`].
pub fn task_key_of(contest_id: usize, contest: &Contest, problems: &Vec<Problem>, t: &Task) -> (r: i128)
    ensures
        r == task_key(contest_id, contest@, problems@, t@),
{
    let pid = t.submission.problem_id;
    if contest_id != 0 {
        let f = find(&contest.problem_ids, pid);
        f as i128
    } else {
        match crate::jobs::find_problem(problems, pid) {
            Some(k) => {
                proof {
                    let w = choose|i: int| crate::jobs::is_first_problem(problems@, pid, i);
                    assert(crate::jobs::is_first_problem(problems@, pid, w));
                    if w < k {
                        assert(problems@[w].id != pid);
                    } else if w > k {
                        assert(problems@[k as int].id != pid);
                    }
                }
                k as i128
            },
            None => 0,
        }
    }
}

fn user_gt_exec(tie: Option<TieBreaker>, a: &RankedUserTemp, b: &RankedUserTemp) -> (r: bool)
    ensures
        r == user_gt(tie, *a, *b),
{
    let ka = score_key_of(a.total_score_bits);
    let kb = score_key_of(b.total_score_bits);
    if ka < kb {
        return true;
    }
    if ka != kb {
        return false;
    }
    match tie {
        Some(TieBreaker::SubmissionCount) => a.total_sub > b.total_sub,
        Some(TieBreaker::SubmissionTime) => str_lt(b.latest_sub.as_str(), a.latest_sub.as_str()),
        _ => match (a.user.id, b.user.id) {
            (Some(x), Some(y)) => x > y,
            (Some(_), None) => true,
            _ => false,
        },
    }
}

fn complete_user(
    u: RankedUserTemp,
    pids: &Vec<u64>,
    contest_id: usize,
    contest: &Contest,
    problems: &Vec<Problem>,
) -> (c: RankedUserTemp)
    ensures
        is_completed_user(c, u, pids@, contest_id, contest@, problems@),
{
    let ghost orig = u;
    let RankedUserTemp { user, rank, total_score_bits, submission_time, counted_task, latest_sub, total_sub } = u;
    let mut tasks = fill_tasks(counted_task, pids);
    let ghost filled = tasks@;
    proof {
        lemma_task_order(contest_id, contest@, problems@);
    }
    let out_of_order = |a: &Task, b: &Task| -> (r: bool)
        ensures
            r == (task_order(contest_id, contest@, problems@))(*a, *b),
        {
            task_key_of(contest_id, contest, problems, a) > task_key_of(contest_id, contest, problems, b)
        };
    stable_sort(&mut tasks, out_of_order, Ghost(task_order(contest_id, contest@, problems@)));
    let c = RankedUserTemp { user, rank, total_score_bits, submission_time, counted_task: tasks, latest_sub, total_sub };
    proof {
        assert(is_filled(filled, orig.counted_task@, pids@));
    }
    c
}

/// The rank list's users once completed, see [`is_completed_user`].
pub open spec fn is_completed_list(
    completed: Seq<RankedUserTemp>,
    users: Seq<RankedUserTemp>,
    contest_id: usize,
    contest: ContestView,
    problems: Seq<Problem>,
) -> bool {
    &&& completed.len() == users.len()
    &&& forall|i: int|
        0 <= i < users.len() ==> is_completed_user(
            #[trigger] completed[i],
            users[i],
            ranked_problem_ids(contest_id, contest, problems),
            contest_id,
            contest,
            problems,
        )
}

/// `r` is `sorted` with the rank of each place filled in.
pub open spec fn is_ranked(r: Seq<RankedUserTemp>, sorted: Seq<RankedUserTemp>, tie: Option<TieBreaker>) -> bool {
    &&& r.len() == sorted.len()
    &&& forall|i: int|
        0 <= i < r.len() ==> #[trigger] r[i] == (RankedUserTemp {
            rank: rank_at(sorted, i, tie),
            ..sorted[i]
        })
}

/// No user of `s` comes after one that should follow them.
pub open spec fn in_user_order(s: Seq<RankedUserTemp>, tie: Option<TieBreaker>) -> bool {
    forall|p: int, q: int| 0 <= p < q < s.len() ==> !user_gt(tie, #[trigger] s[p], #[trigger] s[q])
}

proof fn lemma_rank_step(s: Seq<RankedUserTemp>, tie: Option<TieBreaker>, i: int)
    requires
        in_user_order(s, tie),
        0 <= i < s.len(),
        s.len() <= u64::MAX,
    ensures
        1 <= rank_at(s, i, tie) <= i + 1,
        i > 0 ==> rank_at(s, i - 1, tie) <= rank_at(s, i, tie),
    decreases i,
{
    if i > 0 {
        lemma_rank_step(s, tie, i - 1);
        assert(!user_gt(tie, s[i - 1], s[i]));
    }
}

proof fn lemma_rank_monotone(s: Seq<RankedUserTemp>, tie: Option<TieBreaker>, i: int, j: int)
    requires
        in_user_order(s, tie),
        0 <= i <= j < s.len(),
        s.len() <= u64::MAX,
    ensures
        rank_at(s, i, tie) <= rank_at(s, j, tie),
    decreases j - i,
{
    if i < j {
        lemma_rank_monotone(s, tie, i, j - 1);
        lemma_rank_step(s, tie, j);
    }
}

proof fn lemma_rank_below_higher(s: Seq<RankedUserTemp>, tie: Option<TieBreaker>, i: int, j: int)
    requires
        in_user_order(s, tie),
        0 <= i < j < s.len(),
        s.len() <= u64::MAX,
        score_key(s[j].total_score_bits) < score_key(s[i].total_score_bits),
    ensures
        rank_at(s, j, tie) >= i + 2,
    decreases j,
{
    assert(!user_gt(tie, s[j - 1], s[j]));
    assert(!user_gt(tie, s[i], s[j - 1]) || j - 1 == i);
    if score_key(s[j].total_score_bits) < score_key(s[j - 1].total_score_bits) {
    } else if j - 1 > i {
        lemma_rank_below_higher(s, tie, i, j - 1);
    }
}

/// Ranks follow the order of the rank list: the first user has rank 1, no
/// user's rank is above their place (counting from 1), ranks never decrease
/// down the list, and a user with a lower total score than an earlier user has
/// a larger rank.
pub proof fn ranks_follow_order(
    r: Seq<RankedUserTemp>,
    sorted: Seq<RankedUserTemp>,
    completed: Seq<RankedUserTemp>,
    tie: Option<TieBreaker>,
)
    requires
        is_stable_sort(sorted, completed, user_order(tie)),
        is_ranked(r, sorted, tie),
        r.len() <= u64::MAX,
    ensures
        r.len() > 0 ==> r[0].rank == 1,
        forall|i: int| 0 <= i < r.len() ==> 1 <= #[trigger] r[i].rank <= i + 1,
        forall|i: int, j: int| 0 <= i < j < r.len() ==> #[trigger] r[i].rank <= #[trigger] r[j].rank,
        forall|i: int, j: int|
            0 <= i < j < r.len() && score_key(#[trigger] r[j].total_score_bits) < score_key(
                #[trigger] r[i].total_score_bits,
            ) ==> r[i].rank < r[j].rank,
{
    let perm = choose|perm: Seq<int>| is_stable_sort_by(sorted, completed, user_order(tie), perm);
    assert(in_user_order(sorted, tie)) by {
        assert forall|p: int, q: int| 0 <= p < q < sorted.len() implies !user_gt(
            tie,
            #[trigger] sorted[p],
            #[trigger] sorted[q],
        ) by {
            assert(!user_order(tie)(sorted[p], sorted[q]));
        }
    }
    assert forall|i: int| 0 <= i < r.len() implies 1 <= #[trigger] r[i].rank <= i + 1 by {
        assert(r[i] == (RankedUserTemp { rank: rank_at(sorted, i, tie), ..sorted[i] }));
        lemma_rank_step(sorted, tie, i);
    }
    assert forall|i: int, j: int| 0 <= i < j < r.len() implies #[trigger] r[i].rank
        <= #[trigger] r[j].rank by {
        assert(r[i] == (RankedUserTemp { rank: rank_at(sorted, i, tie), ..sorted[i] }));
        assert(r[j] == (RankedUserTemp { rank: rank_at(sorted, j, tie), ..sorted[j] }));
        lemma_rank_monotone(sorted, tie, i, j);
    }
    assert forall|i: int, j: int|
        0 <= i < j < r.len() && score_key(#[trigger] r[j].total_score_bits) < score_key(
            #[trigger] r[i].total_score_bits,
        ) implies r[i].rank < r[j].rank by {
        assert(r[i] == (RankedUserTemp { rank: rank_at(sorted, i, tie), ..sorted[i] }));
        assert(r[j] == (RankedUserTemp { rank: rank_at(sorted, j, tie), ..sorted[j] }));
        lemma_rank_step(sorted, tie, i);
        lemma_rank_below_higher(sorted, tie, i, j);
    }
    if r.len() > 0 {
        assert(r[0] == (RankedUserTemp { rank: rank_at(sorted, 0, tie), ..sorted[0] }));
    }
}

/// Completes, orders and ranks the users of a rank list whose total scores are known.
///
/// Each user gets an empty job for every problem of the rank list they have no
/// job on, and their jobs are ordered by the place of the problem (in the
/// contest's problem list, or in the configuration for contest 0). Users are
/// then ordered by total score, highest first, then by the tie breaker (fewest
/// submissions, earliest latest time, or smallest user id; smallest user id when
/// there is none), keeping the order of users that compare equal. The first user
/// has rank 1; a user with a lower score than the one before has their place as
/// rank; otherwise the user shares the rank before when the tie breaker finds
/// them equal (equal latest time, equal submission count, or, without a tie
/// breaker, equal score), and has their place as rank when it does not (always
/// with the user id).
pub fn order_ranked_users(
    users: Vec<RankedUserTemp>,
    contest_id: usize,
    contest: &Contest,
    problems: &Vec<Problem>,
    tie: Option<TieBreaker>,
) -> (r: Vec<RankedUserTemp>)
    ensures
        exists|completed: Seq<RankedUserTemp>, sorted: Seq<RankedUserTemp>|
            {
                &&& is_completed_list(completed, users@, contest_id, contest@, problems@)
                &&& is_stable_sort(sorted, completed, user_order(tie))
                &&& is_ranked(r@, sorted, tie)
            },
{
    let pids = ranked_problem_id_list(contest_id, contest, problems);
    let ghost orig = users@;
    let mut completed: Vec<RankedUserTemp> = Vec::new();
    for u in it: users.into_iter()
        invariant
            it.seq() == orig,
            pids@ == ranked_problem_ids(contest_id, contest@, problems@),
            completed@.len() == it.index(),
            forall|k: int|
                0 <= k < it.index() ==> is_completed_user(
                    #[trigger] completed@[k],
                    orig[k],
                    pids@,
                    contest_id,
                    contest@,
                    problems@,
                ),
    {
        let c = complete_user(u, &pids, contest_id, contest, problems);
        completed.push(c);
    }
    let ghost completed_v = completed@;
    proof {
        lemma_user_order(tie);
    }
    let out_of_order = |a: &RankedUserTemp, b: &RankedUserTemp| -> (r: bool)
        ensures
            r == (user_order(tie))(*a, *b),
        {
            user_gt_exec(tie, a, b)
        };
    stable_sort(&mut completed, out_of_order, Ghost(user_order(tie)));
    let ghost sorted = completed@;
    let mut ranked: Vec<RankedUserTemp> = Vec::new();
    let mut prev_key: u64 = 0;
    let mut prev_latest = String::new();
    let mut prev_total_sub: u64 = 0;
    let mut prev_rank: u64 = 0;
    let n = completed.len();
    for u in it: completed.into_iter()
        invariant
            it.seq() == sorted,
            n == sorted.len(),
            ranked@.len() == it.index(),
            forall|k: int| 0 <= k < it.index() ==> #[trigger] ranked@[k] == (RankedUserTemp {
                rank: rank_at(sorted, k, tie),
                ..sorted[k]
            }),
            it.index() > 0 ==> {
                &&& prev_key == score_key(sorted[it.index() - 1].total_score_bits)
                &&& prev_latest@ == sorted[it.index() - 1].latest_sub@
                &&& prev_total_sub == sorted[it.index() - 1].total_sub
                &&& prev_rank == rank_at(sorted, it.index() - 1, tie)
            },
    {
        let i = ranked.len();
        let key = score_key_of(u.total_score_bits);
        let rank = if i == 0 {
            1
        } else if key < prev_key {
            i as u64 + 1
        } else {
            match tie {
                Some(TieBreaker::SubmissionTime) => if u.latest_sub == prev_latest {
                    prev_rank
                } else {
                    i as u64 + 1
                },
                Some(TieBreaker::SubmissionCount) => if u.total_sub == prev_total_sub {
                    prev_rank
                } else {
                    i as u64 + 1
                },
                Some(TieBreaker::UserId) => i as u64 + 1,
                None => if key == prev_key {
                    prev_rank
                } else {
                    u.rank
                },
            }
        };
        prev_key = key;
        prev_latest = u.latest_sub.clone();
        prev_total_sub = u.total_sub;
        prev_rank = rank;
        let mut v = u;
        v.rank = rank;
        ranked.push(v);
    }
    proof {
        assert(is_ranked(ranked@, sorted, tie));
        assert(is_completed_list(completed_v, orig, contest_id, contest@, problems@));
    }
    ranked
}

/// The published lines of a rank list: each user's id and name from the user
/// list, their rank, and the score of each of their jobs.
pub fn ranked_list(ranked: Vec<RankedUserTemp>, users: &Vec<User>) -> (r: Vec<RankedUser>)
    requires
        forall|i: int|
            0 <= i < ranked@.len() ==> (#[trigger] ranked@[i]).user.id is Some && ranked@[i].user.id.unwrap()
                < users@.len(),
    ensures
        r@.len() == ranked@.len(),
        forall|i: int|
            0 <= i < r@.len() ==> {
                &&& (#[trigger] r@[i]).user == users@[ranked@[i].user.id.unwrap() as int]
                &&& r@[i].rank == ranked@[i].rank
                &&& r@[i].scores@ == ranked@[i].counted_task@.map_values(|t: Task| t.score_bits)
            },
{
    let ghost orig = ranked@;
    let mut r: Vec<RankedUser> = Vec::new();
    for u in it: ranked.into_iter()
        invariant
            it.seq() == orig,
            forall|i: int|
                0 <= i < orig.len() ==> (#[trigger] orig[i]).user.id is Some && orig[i].user.id.unwrap()
                    < users@.len(),
            r@.len() == it.index(),
            forall|i: int|
                0 <= i < it.index() ==> {
                    &&& (#[trigger] r@[i]).user == users@[orig[i].user.id.unwrap() as int]
                    &&& r@[i].rank == orig[i].rank
                    &&& r@[i].scores@ == orig[i].counted_task@.map_values(|t: Task| t.score_bits)
                },
    {
        let n = users.len();
        let k = u.user.id.unwrap() as usize;
        assert(k as int == u.user.id.unwrap() as int);
        let mut scores: Vec<u64> = Vec::new();
        for j in 0..u.counted_task.len()
            invariant
                scores@ == u.counted_task@.take(j as int).map_values(|t: Task| t.score_bits),
        {
            proof {
                assert(u.counted_task@.take(j + 1).map_values(|t: Task| t.score_bits) =~= u.counted_task@.take(
                    j as int,
                ).map_values(|t: Task| t.score_bits).push(u.counted_task@[j as int].score_bits));
            }
            scores.push(u.counted_task[j].score_bits);
        }
        proof {
            assert(u.counted_task@.take(u.counted_task@.len() as int) =~= u.counted_task@);
        }
        r.push(RankedUser { user: users[k].clone(), rank: u.rank, scores });
    }
    r
}

} // verus!
