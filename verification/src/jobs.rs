//! The job list: submitting, reading, listing, cancelling and rejudging jobs.

use vstd::prelude::*;
use crate::clock::{current_time, parse_time, parsed_time, time_format, time_lt, instant_lt};
use crate::config::{Config, Language, LanguageView, Problem, ProblemView};
use crate::contests::{contest_not_found, contest_not_found_message, problem_not_found, problem_not_found_message};
use crate::text::{decimal, join2, join3, push_decimal, seq_lt, str_lt};
use crate::types::{
    error_is, invalid_argument, invalid_state, not_found, rate_limit, Case, Contest, Error,
    EvaluatePara, EvaluateParaView, Result, State, Submission, Task, TaskView, User,
};
use crate::users::{user_not_found, user_not_found_message};

verus! {

/// Each job's id is its place in the list.
pub open spec fn jobs_wf(jobs: Seq<Task>) -> bool {
    forall|i: int| 0 <= i < jobs.len() ==> (#[trigger] jobs[i]).id == i as usize
}

/// `i` is the first place of a job with id `id`.
pub open spec fn is_first_job(jobs: Seq<Task>, id: usize, i: int) -> bool {
    &&& 0 <= i < jobs.len()
    &&& jobs[i].id == id
    &&& forall|j: int| 0 <= j < i ==> (#[trigger] jobs[j]).id != id
}

/// Some job has id `id`.
pub open spec fn job_known(jobs: Seq<Task>, id: usize) -> bool {
    exists|i: int| 0 <= i < jobs.len() && (#[trigger] jobs[i]).id == id
}

/// `i` is the first language called `name`.
pub open spec fn is_first_language(langs: Seq<Language>, name: Seq<char>, i: int) -> bool {
    &&& 0 <= i < langs.len()
    &&& langs[i].name@ == name
    &&& forall|j: int| 0 <= j < i ==> (#[trigger] langs[j]).name@ != name
}

/// Some language is called `name`.
pub open spec fn language_known(langs: Seq<Language>, name: Seq<char>) -> bool {
    exists|i: int| 0 <= i < langs.len() && (#[trigger] langs[i]).name@ == name
}

/// `i` is the first problem with id `id`.
pub open spec fn is_first_problem(problems: Seq<Problem>, id: u64, i: int) -> bool {
    &&& 0 <= i < problems.len()
    &&& problems[i].id == id
    &&& forall|j: int| 0 <= j < i ==> (#[trigger] problems[j]).id != id
}

/// Case `i` of a job that has not been judged yet.
pub open spec fn is_fresh_case(c: Case, i: int) -> bool {
    &&& c.id == i as u64
    &&& c.result == Result::Waiting
    &&& c.time == 0
    &&& c.memory == 0
    &&& c.info@ == Seq::<char>::empty()
}

/// `n` cases that have not been judged yet, numbered from 0.
pub open spec fn fresh_cases(cases: Seq<Case>, n: int) -> bool {
    &&& cases.len() == n
    &&& forall|i: int| 0 <= i < n ==> is_fresh_case(#[trigger] cases[i], i)
}

/// Two submissions are for the same user, problem and contest.
pub open spec fn same_target(a: Submission, b: Submission) -> bool {
    &&& a.user_id == b.user_id
    &&& a.problem_id == b.problem_id
    &&& a.contest_id == b.contest_id
}

/// How many of `jobs` were submitted by the user of `s`, for its problem and contest.
pub open spec fn trials(jobs: Seq<Task>, s: Submission) -> nat
    decreases jobs.len(),
{
    if jobs.len() == 0 {
        0
    } else {
        trials(jobs.drop_last(), s) + if same_target(jobs.last().submission, s) {
            1nat
        } else {
            0nat
        }
    }
}

/// The message for an unknown language.
pub open spec fn language_not_found_message(name: Seq<char>) -> Seq<char> {
    "Language "@ + name + " not found."@
}

/// The message for an unknown job.
pub open spec fn job_not_found_message(id: usize) -> Seq<char> {
    "Job "@ + decimal(id as nat) + " not found."@
}

/// The first place of a language called `name`, if any.
pub fn find_language(langs: &Vec<Language>, name: &String) -> (r: Option<usize>)
    ensures
        match r {
            Some(i) => is_first_language(langs@, name@, i as int),
            None => !language_known(langs@, name@),
        },
{
    for i in 0..langs.len()
        invariant
            forall|j: int| 0 <= j < i ==> (#[trigger] langs@[j]).name@ != name@,
    {
        if langs[i].name == *name {
            return Some(i);
        }
    }
    None
}

/// The first place of a problem with id `id`, if any.
pub fn find_problem(problems: &Vec<Problem>, id: u64) -> (r: Option<usize>)
    ensures
        match r {
            Some(i) => is_first_problem(problems@, id, i as int),
            None => !crate::contests::problem_known(problems@, id),
        },
{
    for i in 0..problems.len()
        invariant
            forall|j: int| 0 <= j < i ==> (#[trigger] problems@[j]).id != id,
    {
        if problems[i].id == id {
            return Some(i);
        }
    }
    None
}

/// The first place of a job with id `id`, if any.
pub fn find_job(jobs: &Vec<Task>, id: usize) -> (r: Option<usize>)
    ensures
        match r {
            Some(i) => is_first_job(jobs@, id, i as int),
            None => !job_known(jobs@, id),
        },
{
    for i in 0..jobs.len()
        invariant
            forall|j: int| 0 <= j < i ==> (#[trigger] jobs@[j]).id != id,
    {
        if jobs[i].id == id {
            return Some(i);
        }
    }
    None
}

/// Whether `x` occurs in `v`.
pub fn contains_number(v: &Vec<u64>, x: u64) -> (r: bool)
    ensures
        r == v@.contains(x),
{
    for i in 0..v.len()
        invariant
            forall|j: int| 0 <= j < i ==> v@[j] != x,
    {
        if v[i] == x {
            return true;
        }
    }
    false
}

fn count_trials(jobs: &Vec<Task>, s: &Submission) -> (r: u64)
    ensures
        r == trials(jobs@, *s),
{
    let mut n: u64 = 0;
    for i in 0..jobs.len()
        invariant
            n == trials(jobs@.take(i as int), *s),
            n <= i,
    {
        proof {
            assert(jobs@.take(i + 1).drop_last() =~= jobs@.take(i as int));
        }
        let t = &jobs[i];
        if t.submission.user_id == s.user_id && t.submission.problem_id == s.problem_id
            && t.submission.contest_id == s.contest_id {
            n = n + 1;
        }
    }
    proof {
        assert(jobs@.take(jobs@.len() as int) =~= jobs@);
    }
    n
}

/// `n` fresh cases, numbered from 0.
pub fn fresh_case_list(n: usize) -> (r: Vec<Case>)
    ensures
        fresh_cases(r@, n as int),
{
    let mut cases: Vec<Case> = Vec::new();
    for i in 0..n
        invariant
            fresh_cases(cases@, i as int),
    {
        let mut c = Case::new();
        c.id = i as u64;
        cases.push(c);
    }
    cases
}

/// The job that a successful submission creates.
pub open spec fn is_submitted_task(
    t: TaskView,
    id: usize,
    now: Seq<char>,
    item: Submission,
    n_cases: int,
) -> bool {
    &&& t.id == id
    &&& t.created_time@ == now
    &&& t.updated_time@ == Seq::<char>::empty()
    &&& t.submission == item
    &&& t.state == State::Queueing
    &&& t.result == Result::Waiting
    &&& t.score_bits == 0
    &&& fresh_cases(t.cases, n_cases)
}

/// The checks on a submission to a contest, in the order they are made.
pub open spec fn contest_refusal(
    jobs: Seq<Task>,
    c: Contest,
    item: Submission,
    now: Seq<char>,
    e: Error,
) -> bool {
    if !c.user_ids@.contains(item.user_id) {
        error_is(e, 1, invalid_argument(), "User not in the contest."@)
    } else if !c.problem_ids@.contains(item.problem_id) {
        error_is(e, 1, invalid_argument(), "Problem not in the contest."@)
    } else if trials(jobs, item) >= c.submission_limit && c.submission_limit != 0 {
        error_is(e, 4, rate_limit(), "Submission limit exceeded"@)
    } else {
        error_is(e, 1, invalid_argument(), "Not within the competition time"@)
    }
}

/// A submission to a contest passes that contest's checks at time `now`.
pub open spec fn contest_accepts(jobs: Seq<Task>, c: Contest, item: Submission, now: Seq<char>) -> bool {
    &&& c.user_ids@.contains(item.user_id)
    &&& c.problem_ids@.contains(item.problem_id)
    &&& !(trials(jobs, item) >= c.submission_limit && c.submission_limit != 0)
    &&& !seq_lt(now, c.from@)
    &&& !seq_lt(c.to@, now)
}

/// What submitting `item` at time `now` does, given the job list before and
/// after and the answer: the first failing check gives its error and leaves the
/// list as it was; otherwise a fresh queueing job is added at the end and
/// returned with the first language and problem of the configuration it names.
pub open spec fn post_outcome(
    old_jobs: Seq<Task>,
    new_jobs: Seq<Task>,
    users: Seq<User>,
    contests: Seq<Contest>,
    config: Config,
    item: Submission,
    now: Seq<char>,
    res: std::result::Result<(Task, EvaluatePara), Error>,
) -> bool {
    let lang_ok = language_known(config.languages@, item.language@);
    let problem_ok = crate::contests::problem_known(config.problems@, item.problem_id);
    let user_ok = item.user_id < users.len();
    let contest_exists = item.contest_id <= contests.len();
    &&& !lang_ok ==> (res matches Err(e) && error_is(
        e,
        3,
        not_found(),
        language_not_found_message(item.language@),
    ))
    &&& lang_ok && !problem_ok ==> (res matches Err(e) && error_is(
        e,
        3,
        not_found(),
        problem_not_found_message(item.problem_id),
    ))
    &&& lang_ok && problem_ok && !user_ok ==> (res matches Err(e) && error_is(
        e,
        3,
        not_found(),
        user_not_found_message(item.user_id),
    ))
    &&& lang_ok && problem_ok && user_ok && item.contest_id != 0 && !contest_exists ==> (res matches Err(
        e,
    ) && error_is(e, 3, not_found(), contest_not_found_message(item.contest_id)))
    &&& lang_ok && problem_ok && user_ok && item.contest_id != 0 && contest_exists && !contest_accepts(
        old_jobs,
        contests[item.contest_id - 1],
        item,
        now,
    ) ==> (res matches Err(e) && contest_refusal(old_jobs, contests[item.contest_id - 1], item, now, e))
    &&& res is Err ==> new_jobs == old_jobs
    &&& res is Ok <==> {
        &&& lang_ok
        &&& problem_ok
        &&& user_ok
        &&& item.contest_id != 0 ==> contest_exists && contest_accepts(
            old_jobs,
            contests[item.contest_id - 1],
            item,
            now,
        )
    }
    &&& res matches Ok(r) ==> exists|li: int, pi: int|
        {
            &&& is_first_language(config.languages@, item.language@, li)
            &&& is_first_problem(config.problems@, item.problem_id, pi)
            &&& is_submitted_task(
                r.0@,
                old_jobs.len() as usize,
                now,
                item,
                config.problems@[pi].cases@.len() + 1int,
            )
            &&& new_jobs.drop_last() == old_jobs
            &&& new_jobs.len() == old_jobs.len() + 1
            &&& new_jobs.last()@ == r.0@
            &&& r.1@ == (EvaluateParaView {
                language: config.languages@[li]@,
                submission: item,
                problem: config.problems@[pi]@,
                index: old_jobs.len() as usize,
            })
        }
}

/// Submits `item` at time `now`: checks it, adds a queueing job and returns the
/// job with what the judging worker needs for it.
///
/// The language, then the problem, then the user must exist; a submission to a
/// contest (id other than 0) must name an existing contest that lists the user
/// and the problem, stay within the contest's submission limit (0 means none)
/// and fall between the contest's start and end.
pub fn post_jobs_at(
    jobs: &mut Vec<Task>,
    users: &Vec<User>,
    contests: &Vec<Contest>,
    config: &Config,
    item: Submission,
    now: String,
) -> (res: std::result::Result<(Task, EvaluatePara), Error>)
    ensures
        post_outcome(old(jobs)@, final(jobs)@, users@, contests@, *config, item, now@, res),
        jobs_wf(old(jobs)@) ==> jobs_wf(final(jobs)@),
        jobs_wf(old(jobs)@) && res is Ok ==> is_first_job(
            final(jobs)@,
            old(jobs)@.len() as usize,
            old(jobs)@.len() as int,
        ),
        res is Ok && item.contest_id != 0 && contests@[item.contest_id - 1].submission_limit != 0
            ==> trials(final(jobs)@, item) <= contests@[item.contest_id - 1].submission_limit,
{
    let li = match find_language(&config.languages, &item.language) {
        Some(i) => i,
        None => {
            return Err(Error::not_found(join3("Language ", item.language.as_str(), " not found.")));
        },
    };
    let pi = match find_problem(&config.problems, item.problem_id) {
        Some(i) => i,
        None => {
            return Err(problem_not_found(item.problem_id));
        },
    };
    if item.user_id >= users.len() as u64 {
        return Err(user_not_found(item.user_id));
    }
    if item.contest_id != 0 {
        if item.contest_id > contests.len() as u64 {
            return Err(contest_not_found(item.contest_id));
        }
        let c = &contests[(item.contest_id - 1) as usize];
        if !contains_number(&c.user_ids, item.user_id) {
            return Err(Error::invalid_argument(String::from_str("User not in the contest.")));
        }
        if !contains_number(&c.problem_ids, item.problem_id) {
            return Err(Error::invalid_argument(String::from_str("Problem not in the contest.")));
        }
        let trial_times = count_trials(jobs, &item);
        if trial_times >= c.submission_limit && c.submission_limit != 0 {
            return Err(Error::rate_limit(String::from_str("Submission limit exceeded")));
        }
        if str_lt(now.as_str(), c.from.as_str()) || str_lt(c.to.as_str(), now.as_str()) {
            return Err(
                Error::invalid_argument(String::from_str("Not within the competition time")),
            );
        }
    }
    let problem = &config.problems[pi];
    let mut cases: Vec<Case> = Vec::new();
    cases.push(Case::new());
    for i in 0..problem.cases.len()
        invariant
            fresh_cases(cases@, i + 1),
    {
        let mut c = Case::new();
        c.id = (i + 1) as u64;
        cases.push(c);
    }
    let index = jobs.len();
    let task = Task {
        id: index,
        created_time: now,
        updated_time: String::new(),
        submission: item.clone(),
        state: State::Queueing,
        result: Result::Waiting,
        score_bits: 0,
        cases,
    };
    let answer = task.clone();
    jobs.push(task);
    proof {
        assert(jobs@.drop_last() =~= old(jobs)@);
        assert(trials(jobs@, item) == trials(old(jobs)@, item) + 1);
        if jobs_wf(old(jobs)@) {
            assert forall|j: int| 0 <= j < index implies (#[trigger] jobs@[j]).id != index by {
                assert(jobs@[j] == old(jobs)@[j]);
            }
        }
    }
    let para = EvaluatePara {
        language: config.languages[li].clone(),
        submission: item,
        problem: problem.clone(),
        index,
    };
    Ok((answer, para))
}

/// Submits `item` now (see [`post_jobs_at`]): at a time stamp read from the
/// clock in the judge's format, which the created job keeps as its creation time.
pub fn post_jobs(
    jobs: &mut Vec<Task>,
    users: &Vec<User>,
    contests: &Vec<Contest>,
    config: &Config,
    item: Submission,
) -> (res: std::result::Result<(Task, EvaluatePara), Error>)
    ensures
        exists|now: Seq<char>|
            parsed_time(now, time_format()) is Some && post_outcome(
                old(jobs)@,
                final(jobs)@,
                users@,
                contests@,
                *config,
                item,
                now,
                res,
            ),
        jobs_wf(old(jobs)@) ==> jobs_wf(final(jobs)@),
{
    let now = current_time("%Y-%m-%dT%H:%M:%S%.3fZ");
    let ghost now_v = now@;
    let res = post_jobs_at(jobs, users, contests, config, item, now);
    assert(post_outcome(old(jobs)@, jobs@, users@, contests@, *config, item, now_v, res));
    res
}

/// A submitted job reads back by the id it was given: some job has that id,
/// and the first one is the job the submission answered with.
pub proof fn submitted_job_reads_back(
    old_jobs: Seq<Task>,
    new_jobs: Seq<Task>,
    users: Seq<User>,
    contests: Seq<Contest>,
    config: Config,
    item: Submission,
    now: Seq<char>,
    res: std::result::Result<(Task, EvaluatePara), Error>,
)
    requires
        jobs_wf(old_jobs),
        old_jobs.len() < usize::MAX,
        post_outcome(old_jobs, new_jobs, users, contests, config, item, now, res),
        res is Ok,
    ensures
        job_known(new_jobs, res->Ok_0.0.id),
        forall|i: int| is_first_job(new_jobs, res->Ok_0.0.id, i) ==> new_jobs[i]@ == res->Ok_0.0@,
{
    let r = res->Ok_0;
    let n = old_jobs.len() as int;
    let (li, pi) = choose|li: int, pi: int|
        {
            &&& is_first_language(config.languages@, item.language@, li)
            &&& is_first_problem(config.problems@, item.problem_id, pi)
            &&& is_submitted_task(
                r.0@,
                old_jobs.len() as usize,
                now,
                item,
                config.problems@[pi].cases@.len() + 1int,
            )
            &&& new_jobs.drop_last() == old_jobs
            &&& new_jobs.len() == old_jobs.len() + 1
            &&& new_jobs.last()@ == r.0@
            &&& r.1@ == (EvaluateParaView {
                language: config.languages@[li]@,
                submission: item,
                problem: config.problems@[pi]@,
                index: old_jobs.len() as usize,
            })
        };
    assert(r.0.id == n);
    assert(new_jobs[n] == new_jobs.last());
    assert forall|j: int| 0 <= j < n implies (#[trigger] new_jobs[j]).id != r.0.id by {
        assert(new_jobs[j] == new_jobs.drop_last()[j]);
    }
    assert forall|i: int| is_first_job(new_jobs, r.0.id, i) implies new_jobs[i]@ == r.0@ by {
        if i < n {
            assert(new_jobs[i].id != r.0.id);
        }
    }
}

/// The jobs of `jobs` with the user, the problem and the contest of `s`.
pub open spec fn same_target_jobs(jobs: Seq<Task>, s: Submission) -> Seq<Task> {
    jobs.filter(
        |t: Task|
            t.submission.user_id == s.user_id && t.submission.problem_id == s.problem_id
                && t.submission.contest_id == s.contest_id,
    )
}

/// The trials counted against a submission's limit are exactly the earlier jobs
/// with its user, its problem and its contest.
pub proof fn trials_are_same_target_jobs(jobs: Seq<Task>, s: Submission)
    ensures
        trials(jobs, s) == same_target_jobs(jobs, s).len(),
    decreases jobs.len(),
{
    reveal_with_fuel(Seq::<_>::filter, 1);
    if jobs.len() > 0 {
        trials_are_same_target_jobs(jobs.drop_last(), s);
    }
}

/// A successful submission counts as a trial only for submissions with its own
/// user, problem and contest: for any other submission, such as one by the same
/// user to another problem of the same contest, the trials stay as they were.
pub proof fn submission_counts_only_for_its_target(
    old_jobs: Seq<Task>,
    new_jobs: Seq<Task>,
    users: Seq<User>,
    contests: Seq<Contest>,
    config: Config,
    item: Submission,
    now: Seq<char>,
    res: std::result::Result<(Task, EvaluatePara), Error>,
    other: Submission,
)
    requires
        post_outcome(old_jobs, new_jobs, users, contests, config, item, now, res),
        res is Ok,
    ensures
        other.user_id != item.user_id || other.problem_id != item.problem_id || other.contest_id
            != item.contest_id ==> trials(new_jobs, other) == trials(old_jobs, other),
        other.user_id == item.user_id && other.problem_id == item.problem_id && other.contest_id
            == item.contest_id ==> trials(new_jobs, other) == trials(old_jobs, other) + 1,
{
    let r = res->Ok_0;
    let (li, pi) = choose|li: int, pi: int|
        {
            &&& is_first_language(config.languages@, item.language@, li)
            &&& is_first_problem(config.problems@, item.problem_id, pi)
            &&& is_submitted_task(
                r.0@,
                old_jobs.len() as usize,
                now,
                item,
                config.problems@[pi].cases@.len() + 1int,
            )
            &&& new_jobs.drop_last() == old_jobs
            &&& new_jobs.len() == old_jobs.len() + 1
            &&& new_jobs.last()@ == r.0@
            &&& r.1@ == (EvaluateParaView {
                language: config.languages@[li]@,
                submission: item,
                problem: config.problems@[pi]@,
                index: old_jobs.len() as usize,
            })
        };
    assert(new_jobs.last().submission == item);
    assert(new_jobs.drop_last() == old_jobs);
}

/// Every listed job passes every filter the query gives: its contest, user,
/// user name, problem, language, state and result are the ones asked for.
pub proof fn listed_jobs_match_the_query(
    jobs: Seq<Task>,
    users: Seq<User>,
    q: Info,
    res: std::result::Result<Vec<Task>, Error>,
)
    requires
        get_jobs_outcome(jobs, users, q, res),
        res is Ok,
    ensures
        forall|k: int|
            0 <= k < res->Ok_0@.len() ==> {
                let t = #[trigger] res->Ok_0@[k];
                &&& (q.contest_id matches Some(c) ==> t.submission.contest_id == c)
                &&& (q.user_id matches Some(u) ==> t.submission.user_id == u)
                &&& (q.user_name matches Some(n) ==> users[t.submission.user_id as int].name@ == n@)
                &&& (q.problem_id matches Some(p) ==> t.submission.problem_id == p)
                &&& (q.language matches Some(l) ==> t.submission.language@ == l@)
                &&& (q.state matches Some(s) ==> t.state == s)
                &&& (q.result matches Some(r) ==> t.result == r)
            },
{
    let r = res->Ok_0;
    let pred = |t: TaskView| job_selected(q, t, users);
    let all = jobs.map_values(|t: Task| t@);
    assert forall|k: int| 0 <= k < r@.len() implies {
        let t = #[trigger] r@[k];
        &&& (q.contest_id matches Some(c) ==> t.submission.contest_id == c)
        &&& (q.user_id matches Some(u) ==> t.submission.user_id == u)
        &&& (q.user_name matches Some(n) ==> users[t.submission.user_id as int].name@ == n@)
        &&& (q.problem_id matches Some(p) ==> t.submission.problem_id == p)
        &&& (q.language matches Some(l) ==> t.submission.language@ == l@)
        &&& (q.state matches Some(s) ==> t.state == s)
        &&& (q.result matches Some(r) ==> t.result == r)
    } by {
        assert(r.deep_view()[k] == r@[k]@);
        all.lemma_filter_pred(pred, k);
        assert(pred(all.filter(pred)[k]));
    }
}

/// Reads the first job with id `id`.
pub fn get_jobs_by_id(jobs: &Vec<Task>, id: usize) -> (res: std::result::Result<Task, Error>)
    ensures
        res is Ok <==> job_known(jobs@, id),
        res matches Ok(t) ==> exists|i: int| is_first_job(jobs@, id, i) && t@ == jobs@[i]@,
        res matches Err(e) ==> error_is(e, 3, "reason=ERR_NOT_FOUND"@, job_not_found_message(id)),
{
    match find_job(jobs, id) {
        Some(i) => Ok(jobs[i].clone()),
        None => {
            let mut m = String::from_str("Job ");
            push_decimal(&mut m, id as u64);
            m.append(" not found.");
            Err(
                Error {
                    code: 3,
                    reason: String::from_str("reason=ERR_NOT_FOUND"),
                    message: m,
                },
            )
        },
    }
}

/// What cancelling job `job_id` does, given the job list before and after and
/// the answer (see [`delete_jobs`]).
pub open spec fn cancel_outcome(
    old_jobs: Seq<Task>,
    new_jobs: Seq<Task>,
    job_id: usize,
    res: std::result::Result<(), Error>,
) -> bool {
    &&& (job_id >= old_jobs.len() ==> (res matches Err(e) && error_is(
        e,
        3,
        not_found(),
        job_not_found_message(job_id),
    )))
    &&& (job_id < old_jobs.len() && old_jobs[job_id as int].state != State::Queueing
        ==> (res matches Err(e) && error_is(
        e,
        2,
        invalid_state(),
        "Job "@ + decimal(job_id as nat) + " not queuing."@,
    )))
    &&& (res is Ok <==> job_id < old_jobs.len() && old_jobs[job_id as int].state
        == State::Queueing)
    &&& (res is Err ==> new_jobs == old_jobs)
    &&& (res is Ok ==> new_jobs == old_jobs.update(
        job_id as int,
        Task { state: State::Canceled, result: Result::Skipped, ..old_jobs[job_id as int] },
    ))
}

/// Cancels job `job_id` (its place in the list) while it is still queueing.
pub fn delete_jobs(jobs: &mut Vec<Task>, job_id: usize) -> (res: std::result::Result<(), Error>)
    ensures
        cancel_outcome(old(jobs)@, final(jobs)@, job_id, res),
        jobs_wf(old(jobs)@) ==> jobs_wf(final(jobs)@),
{
    if job_id >= jobs.len() {
        let mut m = String::from_str("Job ");
        push_decimal(&mut m, job_id as u64);
        m.append(" not found.");
        return Err(Error::not_found(m));
    }
    if jobs[job_id].state != State::Queueing {
        let mut m = String::from_str("Job ");
        push_decimal(&mut m, job_id as u64);
        m.append(" not queuing.");
        return Err(Error::invalid_state(m));
    }
    let mut t = jobs.remove(job_id);
    t.state = State::Canceled;
    t.result = Result::Skipped;
    jobs.insert(job_id, t);
    proof {
        assert(jobs@ =~= old(jobs)@.update(
            job_id as int,
            Task { state: State::Canceled, result: Result::Skipped, ..old(jobs)@[job_id as int] },
        ));
    }
    Ok(())
}

/// The job as a rejudge leaves it: queueing, waiting, score 0.0, every case fresh.
pub open spec fn is_reset_task(t: TaskView, before: TaskView) -> bool {
    &&& t.id == before.id
    &&& t.created_time == before.created_time
    &&& t.updated_time == before.updated_time
    &&& t.submission == before.submission
    &&& t.state == State::Queueing
    &&& t.result == Result::Waiting
    &&& t.score_bits == 0
    &&& fresh_cases(t.cases, before.cases.len() as int)
}

/// What queueing job `id` again does, given the job list before and after and
/// the answer (see [`put_jobs_by_id`]).
pub open spec fn requeue_outcome(
    old_jobs: Seq<Task>,
    new_jobs: Seq<Task>,
    config: Config,
    id: usize,
    res: std::result::Result<(Task, EvaluatePara), Error>,
) -> bool {
    &&& (!job_known(old_jobs, id) ==> (res matches Err(e) && error_is(
        e,
        3,
        not_found(),
        "Job "@ + decimal(id as nat) + " not found"@,
    )))
    &&& (forall|i: int|
        is_first_job(old_jobs, id, i) && old_jobs[i].state != State::Finished
            ==> (res matches Err(e) && error_is(
            e,
            2,
            invalid_state(),
            "Job "@ + decimal(id as nat) + " not finished."@,
        )))
    &&& (res is Err ==> new_jobs == old_jobs)
    &&& (res is Ok <==> exists|i: int|
        is_first_job(old_jobs, id, i) && old_jobs[i].state == State::Finished)
    &&& (res matches Ok(r) ==> exists|i: int|
        {
            &&& is_first_job(old_jobs, id, i)
            &&& new_jobs.len() == old_jobs.len()
            &&& forall|k: int|
                0 <= k < old_jobs.len() && k != i ==> #[trigger] new_jobs[k]
                    == old_jobs[k]
            &&& is_reset_task(new_jobs[i]@, old_jobs[i]@)
            &&& r.0@ == new_jobs[i]@
            &&& r.1.index == i
            &&& r.1.submission == old_jobs[i].submission
            &&& (language_known(config.languages@, old_jobs[i].submission.language@)
                ==> exists|li: int|
                is_first_language(config.languages@, old_jobs[i].submission.language@, li)
                    && r.1.language@ == config.languages@[li]@)
            &&& (!language_known(config.languages@, old_jobs[i].submission.language@)
                ==> r.1.language.name@ == Seq::<char>::empty()
                && r.1.language.file_name@ == Seq::<char>::empty()
                && r.1.language.command@.len() == 0)
            &&& (crate::contests::problem_known(
                config.problems@,
                old_jobs[i].submission.problem_id,
            ) ==> exists|pi: int|
                is_first_problem(config.problems@, old_jobs[i].submission.problem_id, pi)
                    && r.1.problem@ == config.problems@[pi]@)
            &&& (!crate::contests::problem_known(
                config.problems@,
                old_jobs[i].submission.problem_id,
            ) ==> r.1.problem.id == 0 && r.1.problem.name@ == Seq::<char>::empty()
                && r.1.problem.ty == crate::config::ProblemType::Standard
                && r.1.problem.misc is None && r.1.problem.cases@.len() == 0)
        })
}

/// Queues the first job with id `id` again, when it has finished.
///
/// The job goes back to queueing with fresh cases; the language and problem it
/// is judged with are the first of the configuration with its language name and
/// problem id, or empty ones where there is none.
pub fn put_jobs_by_id(jobs: &mut Vec<Task>, config: &Config, id: usize) -> (res: std::result::Result<
    (Task, EvaluatePara),
    Error,
>)
    ensures
        requeue_outcome(old(jobs)@, final(jobs)@, *config, id, res),
        jobs_wf(old(jobs)@) ==> jobs_wf(final(jobs)@),
{
    let i = match find_job(jobs, id) {
        Some(i) => i,
        None => {
            let mut m = String::from_str("Job ");
            push_decimal(&mut m, id as u64);
            m.append(" not found");
            return Err(Error::not_found(m));
        },
    };
    if jobs[i].state != State::Finished {
        let mut m = String::from_str("Job ");
        push_decimal(&mut m, id as u64);
        m.append(" not finished.");
        return Err(Error::invalid_state(m));
    }
    let submission = jobs[i].submission.clone();
    let language = match find_language(&config.languages, &submission.language) {
        Some(li) => config.languages[li].clone(),
        None => Language::new(),
    };
    let problem = match find_problem(&config.problems, submission.problem_id) {
        Some(pi) => config.problems[pi].clone(),
        None => Problem::new(),
    };
    let mut t = jobs.remove(i);
    t.state = State::Queueing;
    t.result = Result::Waiting;
    t.score_bits = 0;
    t.cases = fresh_case_list(t.cases.len());
    let answer = t.clone();
    jobs.insert(i, t);
    proof {
        assert forall|k: int|
            0 <= k < old(jobs)@.len() && k != i implies #[trigger] jobs@[k] == old(jobs)@[k] by {
            if k < i {
                assert(jobs@[k] == old(jobs)@[k]);
            } else {
                assert(jobs@[k] == old(jobs)@[k]);
            }
        }
    }
    Ok((answer, EvaluatePara { language, submission, problem, index: i }))
}

/// The filters of a job listing; every one that is present must hold.
pub struct Info {
    pub user_id: Option<u64>,
    pub user_name: Option<String>,
    pub contest_id: Option<u64>,
    pub problem_id: Option<u64>,
    pub language: Option<String>,
    pub from: Option<String>,
    pub to: Option<String>,
    pub state: Option<State>,
    pub result: Option<Result>,
}

/// The job passes the contest and user id filters.
pub open spec fn passes_ids(q: Info, t: TaskView) -> bool {
    &&& (q.contest_id matches Some(c) ==> t.submission.contest_id == c)
    &&& (q.user_id matches Some(u) ==> t.submission.user_id == u)
}

/// The job passes every filter that comes before the time filters.
pub open spec fn passes_names(q: Info, t: TaskView, users: Seq<User>) -> bool {
    &&& passes_ids(q, t)
    &&& (q.user_name matches Some(n) ==> users[t.submission.user_id as int].name@ == n@)
    &&& (q.problem_id matches Some(p) ==> t.submission.problem_id == p)
    &&& (q.language matches Some(l) ==> t.submission.language@ == l@)
}

/// A time filter, read with the judge's time format.
pub open spec fn query_time(s: Option<String>) -> Option<(i64, u32)> {
    match s {
        Some(x) => parsed_time(x@, time_format()),
        None => None,
    }
}

/// Both time filters that are present can be read.
pub open spec fn query_times_ok(q: Info) -> bool {
    &&& (q.from is Some ==> query_time(q.from) is Some)
    &&& (q.to is Some ==> query_time(q.to) is Some)
}

/// When the job was created, read with the judge's time format.
pub open spec fn created_at(t: TaskView) -> Option<(i64, u32)> {
    parsed_time(t.created_time@, time_format())
}

/// The job is listed.
pub open spec fn job_selected(q: Info, t: TaskView, users: Seq<User>) -> bool {
    &&& passes_names(q, t, users)
    &&& (query_time(q.from) matches Some(f) ==> !time_lt(created_at(t).unwrap(), f))
    &&& (query_time(q.to) matches Some(x) ==> !time_lt(x, created_at(t).unwrap()))
    &&& (q.state matches Some(s) ==> t.state == s)
    &&& (q.result matches Some(r) ==> t.result == r)
}

/// The listing can be made: once both time filters are read, every job checked
/// by user name names an existing user, and every job checked against a time
/// filter has a readable creation time. (An unreadable time filter is refused
/// before any job is looked at.)
pub open spec fn jobs_query_defined(jobs: Seq<Task>, users: Seq<User>, q: Info) -> bool {
    query_times_ok(q) ==> {
        &&& forall|i: int|
            0 <= i < jobs.len() && passes_ids(q, #[trigger] jobs[i]@) && q.user_name is Some
                ==> jobs[i].submission.user_id < users.len()
        &&& (q.from is Some || q.to is Some) ==> forall|i: int|
            0 <= i < jobs.len() && passes_names(q, #[trigger] jobs[i]@, users)
                ==> created_at(jobs[i]@) is Some
    }
}

/// What listing jobs answers.
pub open spec fn get_jobs_outcome(
    jobs: Seq<Task>,
    users: Seq<User>,
    q: Info,
    res: std::result::Result<Vec<Task>, Error>,
) -> bool {
    if q.from is Some && query_time(q.from) is None {
        res matches Err(e) && error_is(
            e,
            1,
            invalid_argument(),
            "Invalid argument from="@ + q.from.unwrap()@,
        )
    } else if q.to is Some && query_time(q.to) is None {
        res matches Err(e) && error_is(e, 1, invalid_argument(), "Invalid argument to="@ + q.to.unwrap()@)
    } else {
        res matches Ok(r) && r.deep_view() == jobs.map_values(|t: Task| t@).filter(
            |t: TaskView| job_selected(q, t, users),
        )
    }
}

fn read_query_time(s: &Option<String>) -> (r: Option<(i64, u32)>)
    ensures
        r == query_time(*s),
{
    match s {
        Some(x) => parse_time(x.as_str(), "%Y-%m-%dT%H:%M:%S%.3fZ"),
        None => None,
    }
}

fn check_ids(q: &Info, t: &Task) -> (r: bool)
    ensures
        r == passes_ids(*q, t@),
{
    if let Some(c) = q.contest_id {
        if t.submission.contest_id != c {
            return false;
        }
    }
    if let Some(u) = q.user_id {
        if t.submission.user_id != u {
            return false;
        }
    }
    true
}

fn check_names(q: &Info, t: &Task, users: &Vec<User>) -> (r: bool)
    requires
        passes_ids(*q, t@) && q.user_name is Some ==> t.submission.user_id < users@.len(),
    ensures
        r == passes_names(*q, t@, users@),
{
    if !check_ids(q, t) {
        return false;
    }
    if let Some(n) = &q.user_name {
        let count = users.len();
        let k = t.submission.user_id as usize;
        assert(k as int == t.submission.user_id as int);
        if users[k].name != *n {
            return false;
        }
    }
    if let Some(p) = q.problem_id {
        if t.submission.problem_id != p {
            return false;
        }
    }
    if let Some(l) = &q.language {
        if t.submission.language != *l {
            return false;
        }
    }
    true
}

fn check_job(
    q: &Info,
    t: &Task,
    users: &Vec<User>,
    from: Option<(i64, u32)>,
    to: Option<(i64, u32)>,
) -> (r: bool)
    requires
        from == query_time(q.from),
        to == query_time(q.to),
        passes_ids(*q, t@) && q.user_name is Some ==> t.submission.user_id < users@.len(),
        passes_names(*q, t@, users@) && (from is Some || to is Some) ==> created_at(t@) is Some,
    ensures
        r == job_selected(*q, t@, users@),
{
    if !check_names(q, t, users) {
        return false;
    }
    if let Some(f) = from {
        let created = parse_time(t.created_time.as_str(), "%Y-%m-%dT%H:%M:%S%.3fZ").unwrap();
        if instant_lt(created, f) {
            return false;
        }
    }
    if let Some(x) = to {
        let created = parse_time(t.created_time.as_str(), "%Y-%m-%dT%H:%M:%S%.3fZ").unwrap();
        if instant_lt(x, created) {
            return false;
        }
    }
    if let Some(s) = q.state {
        if t.state != s {
            return false;
        }
    }
    if let Some(r) = q.result {
        if t.result != r {
            return false;
        }
    }
    true
}

/// Lists the jobs that pass every filter of `q`, in list order.
///
/// A time filter that cannot be read is refused, `from` before `to`.
pub fn get_jobs(jobs: &Vec<Task>, users: &Vec<User>, q: &Info) -> (res: std::result::Result<
    Vec<Task>,
    Error,
>)
    requires
        jobs_query_defined(jobs@, users@, *q),
    ensures
        get_jobs_outcome(jobs@, users@, *q, res),
{
    let from = read_query_time(&q.from);
    if q.from.is_some() && from.is_none() {
        let f = q.from.as_ref().unwrap();
        return Err(Error::invalid_argument(join2("Invalid argument from=", f.as_str())));
    }
    let to = read_query_time(&q.to);
    if q.to.is_some() && to.is_none() {
        let x = q.to.as_ref().unwrap();
        return Err(Error::invalid_argument(join2("Invalid argument to=", x.as_str())));
    }
    let ghost pred = |t: TaskView| job_selected(*q, t, users@);
    let ghost all = jobs@.map_values(|t: Task| t@);
    let mut selected: Vec<Task> = Vec::new();
    for i in 0..jobs.len()
        invariant
            jobs_query_defined(jobs@, users@, *q),
            from == query_time(q.from),
            to == query_time(q.to),
            query_times_ok(*q),
            all == jobs@.map_values(|t: Task| t@),
            pred == (|t: TaskView| job_selected(*q, t, users@)),
            selected.deep_view() == all.take(i as int).filter(pred),
    {
        proof {
            assert(all.take(i + 1).drop_last() =~= all.take(i as int));
            reveal_with_fuel(Seq::<_>::filter, 1);
            assert(all[i as int] == jobs@[i as int]@);
        }
        if check_job(q, &jobs[i], users, from, to) {
            selected.push(jobs[i].clone());
            proof {
                assert(selected.deep_view() =~= all.take(i as int).filter(pred).push(jobs@[i as int]@));
            }
        }
    }
    proof {
        assert(all.take(jobs@.len() as int) =~= all);
    }
    Ok(selected)
}

/// Lists jobs as [`get_jobs`] does, or gives `None` where the listing cannot be
/// made: both time filters read, and a job checked by user name names no user,
/// or a job checked against a time filter has a creation time that cannot be read.
pub fn get_jobs_checked(jobs: &Vec<Task>, users: &Vec<User>, q: &Info) -> (res: Option<
    std::result::Result<Vec<Task>, Error>,
>)
    ensures
        res is Some <==> jobs_query_defined(jobs@, users@, *q),
        res matches Some(r) ==> get_jobs_outcome(jobs@, users@, *q, r),
{
    let from = read_query_time(&q.from);
    let to = read_query_time(&q.to);
    let times_ok = (q.from.is_none() || from.is_some()) && (q.to.is_none() || to.is_some());
    if times_ok {
        for i in 0..jobs.len()
            invariant
                query_times_ok(*q),
                forall|k: int|
                    0 <= k < i && passes_ids(*q, #[trigger] jobs@[k]@) && q.user_name is Some
                        ==> jobs@[k].submission.user_id < users@.len(),
        {
            if check_ids(q, &jobs[i]) && q.user_name.is_some() && jobs[i].submission.user_id
                >= users.len() as u64 {
                return None;
            }
        }
        if q.from.is_some() || q.to.is_some() {
            for i in 0..jobs.len()
                invariant
                    query_times_ok(*q),
                    q.from is Some || q.to is Some,
                    forall|k: int|
                        0 <= k < jobs@.len() && passes_ids(*q, #[trigger] jobs@[k]@) && q.user_name is Some
                            ==> jobs@[k].submission.user_id < users@.len(),
                    forall|k: int|
                        0 <= k < i && passes_names(*q, #[trigger] jobs@[k]@, users@) ==> created_at(
                            jobs@[k]@,
                        ) is Some,
            {
                if check_names(q, &jobs[i], users) && parse_time(
                    jobs[i].created_time.as_str(),
                    "%Y-%m-%dT%H:%M:%S%.3fZ",
                ).is_none() {
                    return None;
                }
            }
        }
    }
    Some(get_jobs(jobs, users, q))
}

} // verus!
