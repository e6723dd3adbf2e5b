use oj::config::{Config, Language, Problem, ProblemCase, ProblemType, Server};
use oj::jobs::{delete_jobs, get_jobs, get_jobs_by_id, get_jobs_checked, post_jobs, post_jobs_at, put_jobs_by_id, Info};
use oj::types::{Contest, Result, State, Submission, Task, User};

fn case(score: f64) -> ProblemCase {
    ProblemCase {
        score_bits: score.to_bits(),
        input_file: "in".to_string(),
        answer_file: "ans".to_string(),
        time_limit: 1000,
        memory_limit: 0,
    }
}

fn config() -> Config {
    Config {
        server: Server { bind_address: None, bind_port: None },
        problems: vec![
            Problem { id: 0, name: "a".to_string(), ty: ProblemType::Standard, misc: None, cases: vec![case(50.0), case(50.0)] },
            Problem { id: 5, name: "b".to_string(), ty: ProblemType::Strict, misc: None, cases: vec![case(100.0)] },
        ],
        languages: vec![Language {
            name: "Rust".to_string(),
            file_name: "main.rs".to_string(),
            command: vec!["rustc".to_string(), "-o".to_string(), "%OUTPUT%".to_string(), "%INPUT%".to_string()],
        }],
    }
}

fn users() -> Vec<User> {
    vec![User { id: Some(0), name: "root".to_string() }, User { id: Some(1), name: "bob".to_string() }]
}

fn submission(user: u64, contest: u64, problem: u64, lang: &str) -> Submission {
    Submission { source_code: "fn main() {}".to_string(), language: lang.to_string(), user_id: user, contest_id: contest, problem_id: problem }
}

fn contest(limit: u64) -> Contest {
    Contest {
        id: Some(1),
        name: "c".to_string(),
        from: "2022-08-27T02:05:29.000Z".to_string(),
        to: "2022-08-28T02:05:29.000Z".to_string(),
        problem_ids: vec![0],
        user_ids: vec![1],
        submission_limit: limit,
    }
}

const NOW: &str = "2022-08-27T10:00:00.000Z";

fn empty_info() -> Info {
    Info { user_id: None, user_name: None, contest_id: None, problem_id: None, language: None, from: None, to: None, state: None, result: None }
}

#[test]
fn submission_creates_queueing_job_with_one_case_more_than_the_problem() {
    let mut jobs = vec![];
    let (t, para) = post_jobs_at(&mut jobs, &users(), &vec![], &config(), submission(1, 0, 0, "Rust"), NOW.to_string()).ok().unwrap();
    assert_eq!(t.id, 0);
    assert_eq!(t.state, State::Queueing);
    assert_eq!(t.result, Result::Waiting);
    assert_eq!(t.created_time, NOW);
    assert_eq!(t.cases.len(), 3);
    assert_eq!(t.cases[2].id, 2);
    assert_eq!(t.cases[2].result, Result::Waiting);
    assert_eq!(para.index, 0);
    assert_eq!(para.language.file_name, "main.rs");
    assert_eq!(para.problem.id, 0);
    assert_eq!(jobs.len(), 1);
    let (t2, _) = post_jobs_at(&mut jobs, &users(), &vec![], &config(), submission(1, 0, 5, "Rust"), NOW.to_string()).ok().unwrap();
    assert_eq!(t2.id, 1);
    assert_eq!(t2.cases.len(), 2);
    let read = get_jobs_by_id(&jobs, 1).ok().unwrap();
    assert_eq!(read.submission.problem_id, 5);
}

#[test]
fn submission_now_uses_the_clock() {
    let mut jobs = vec![];
    let (t, _) = post_jobs(&mut jobs, &users(), &vec![], &config(), submission(0, 0, 0, "Rust")).ok().unwrap();
    assert_eq!(t.created_time.len(), NOW.len());
    assert!(t.created_time.ends_with('Z'));
}

#[test]
fn submission_errors_in_order() {
    let mut jobs = vec![];
    let e = post_jobs_at(&mut jobs, &users(), &vec![], &config(), submission(9, 0, 9, "C"), NOW.to_string()).err().unwrap();
    assert_eq!((e.code, e.reason.as_str(), e.message.as_str()), (3, "ERR_NOT_FOUND", "Language C not found."));
    let e = post_jobs_at(&mut jobs, &users(), &vec![], &config(), submission(9, 0, 9, "Rust"), NOW.to_string()).err().unwrap();
    assert_eq!(e.message, "Problem 9 not found.");
    let e = post_jobs_at(&mut jobs, &users(), &vec![], &config(), submission(9, 0, 0, "Rust"), NOW.to_string()).err().unwrap();
    assert_eq!(e.message, "User 9 not found.");
    let e = post_jobs_at(&mut jobs, &users(), &vec![], &config(), submission(1, 4, 0, "Rust"), NOW.to_string()).err().unwrap();
    assert_eq!(e.message, "Contest 4 not found.");
    assert!(jobs.is_empty());
}

#[test]
fn contest_submission_checks() {
    let contests = vec![contest(1)];
    let mut jobs = vec![];
    let e = post_jobs_at(&mut jobs, &users(), &contests, &config(), submission(0, 1, 0, "Rust"), NOW.to_string()).err().unwrap();
    assert_eq!((e.code, e.reason.as_str(), e.message.as_str()), (1, "ERR_INVALID_ARGUMENT", "User not in the contest."));
    let e = post_jobs_at(&mut jobs, &users(), &contests, &config(), submission(1, 1, 5, "Rust"), NOW.to_string()).err().unwrap();
    assert_eq!(e.message, "Problem not in the contest.");
    let e = post_jobs_at(&mut jobs, &users(), &contests, &config(), submission(1, 1, 0, "Rust"), "2022-08-26T10:00:00.000Z".to_string()).err().unwrap();
    assert_eq!((e.code, e.message.as_str()), (1, "Not within the competition time"));
    let e = post_jobs_at(&mut jobs, &users(), &contests, &config(), submission(1, 1, 0, "Rust"), "2022-08-29T10:00:00.000Z".to_string()).err().unwrap();
    assert_eq!(e.message, "Not within the competition time");
    post_jobs_at(&mut jobs, &users(), &contests, &config(), submission(1, 1, 0, "Rust"), NOW.to_string()).ok().unwrap();
    let e = post_jobs_at(&mut jobs, &users(), &contests, &config(), submission(1, 1, 0, "Rust"), NOW.to_string()).err().unwrap();
    assert_eq!((e.code, e.reason.as_str(), e.message.as_str()), (4, "ERR_RATE_LIMIT", "Submission limit exceeded"));
    assert_eq!(jobs.len(), 1);
}

#[test]
fn unlimited_contest_accepts_many_submissions() {
    let contests = vec![contest(0)];
    let mut jobs = vec![];
    for _ in 0..3 {
        post_jobs_at(&mut jobs, &users(), &contests, &config(), submission(1, 1, 0, "Rust"), NOW.to_string()).ok().unwrap();
    }
    assert_eq!(jobs.len(), 3);
}

fn job_list() -> Vec<Task> {
    let mut jobs = vec![];
    post_jobs_at(&mut jobs, &users(), &vec![], &config(), submission(0, 0, 0, "Rust"), "2022-08-27T02:05:29.000Z".to_string()).ok().unwrap();
    post_jobs_at(&mut jobs, &users(), &vec![], &config(), submission(1, 0, 5, "Rust"), "2022-08-27T03:05:29.000Z".to_string()).ok().unwrap();
    post_jobs_at(&mut jobs, &users(), &vec![], &config(), submission(1, 0, 0, "Rust"), "2022-08-27T04:05:29.000Z".to_string()).ok().unwrap();
    jobs
}

#[test]
fn unknown_job_has_odd_reason() {
    let jobs = job_list();
    let e = get_jobs_by_id(&jobs, 3).err().unwrap();
    assert_eq!((e.code, e.reason.as_str(), e.message.as_str()), (3, "reason=ERR_NOT_FOUND", "Job 3 not found."));
}

#[test]
fn cancel_queueing_job() {
    let mut jobs = job_list();
    assert!(delete_jobs(&mut jobs, 1).is_ok());
    assert_eq!(jobs[1].state, State::Canceled);
    assert_eq!(jobs[1].result, Result::Skipped);
    let e = delete_jobs(&mut jobs, 1).err().unwrap();
    assert_eq!((e.code, e.reason.as_str(), e.message.as_str()), (2, "ERR_INVALID_STATE", "Job 1 not queuing."));
    let e = delete_jobs(&mut jobs, 3).err().unwrap();
    assert_eq!((e.code, e.message.as_str()), (3, "Job 3 not found."));
}

#[test]
fn rejudge_finished_job_only() {
    let mut jobs = job_list();
    let e = put_jobs_by_id(&mut jobs, &config(), 0).err().unwrap();
    assert_eq!((e.code, e.message.as_str()), (2, "Job 0 not finished."));
    let e = put_jobs_by_id(&mut jobs, &config(), 8).err().unwrap();
    assert_eq!((e.code, e.message.as_str()), (3, "Job 8 not found"));
    jobs[0].state = State::Finished;
    jobs[0].result = Result::WrongAnswer;
    jobs[0].score_bits = 50.0f64.to_bits();
    jobs[0].cases[1].result = Result::Accepted;
    jobs[0].cases[1].time = 5;
    let (t, para) = put_jobs_by_id(&mut jobs, &config(), 0).ok().unwrap();
    assert_eq!(t.state, State::Queueing);
    assert_eq!(t.result, Result::Waiting);
    assert_eq!(t.score_bits, 0);
    assert_eq!(t.cases.len(), 3);
    assert_eq!(t.cases[1].result, Result::Waiting);
    assert_eq!(t.cases[1].time, 0);
    assert_eq!(t.cases[1].id, 1);
    assert_eq!(t.created_time, "2022-08-27T02:05:29.000Z");
    assert_eq!(para.index, 0);
    assert_eq!(para.problem.cases.len(), 2);
    assert_eq!(jobs[0].state, State::Queueing);
}

#[test]
fn rejudge_with_unknown_language_uses_empty_one() {
    let mut jobs = job_list();
    jobs[2].state = State::Finished;
    jobs[2].submission.language = "Go".to_string();
    jobs[2].submission.problem_id = 77;
    let (_, para) = put_jobs_by_id(&mut jobs, &config(), 2).ok().unwrap();
    assert_eq!(para.language.name, "");
    assert!(para.language.command.is_empty());
    assert_eq!(para.problem.id, 0);
    assert!(para.problem.cases.is_empty());
}

#[test]
fn list_jobs_by_filters() {
    let jobs = job_list();
    let all = get_jobs(&jobs, &users(), &empty_info()).ok().unwrap();
    assert_eq!(all.len(), 3);
    let mut q = empty_info();
    q.user_name = Some("bob".to_string());
    let r = get_jobs(&jobs, &users(), &q).ok().unwrap();
    assert_eq!(r.iter().map(|t| t.id).collect::<Vec<_>>(), vec![1, 2]);
    q.problem_id = Some(0);
    let r = get_jobs(&jobs, &users(), &q).ok().unwrap();
    assert_eq!(r.iter().map(|t| t.id).collect::<Vec<_>>(), vec![2]);
    let mut q = empty_info();
    q.state = Some(State::Finished);
    assert!(get_jobs(&jobs, &users(), &q).ok().unwrap().is_empty());
}

#[test]
fn list_jobs_by_time() {
    let jobs = job_list();
    let mut q = empty_info();
    q.from = Some("2022-08-27T03:05:29.000Z".to_string());
    let r = get_jobs(&jobs, &users(), &q).ok().unwrap();
    assert_eq!(r.iter().map(|t| t.id).collect::<Vec<_>>(), vec![1, 2]);
    q.to = Some("2022-08-27T03:30:00.000Z".to_string());
    let r = get_jobs(&jobs, &users(), &q).ok().unwrap();
    assert_eq!(r.iter().map(|t| t.id).collect::<Vec<_>>(), vec![1]);
}

#[test]
fn unreadable_time_filter_is_refused() {
    let jobs = job_list();
    let mut q = empty_info();
    q.from = Some("yesterday".to_string());
    q.to = Some("never".to_string());
    let e = get_jobs(&jobs, &users(), &q).err().unwrap();
    assert_eq!((e.code, e.reason.as_str(), e.message.as_str()), (1, "ERR_INVALID_ARGUMENT", "Invalid argument from=yesterday"));
    q.from = None;
    let e = get_jobs(&jobs, &users(), &q).err().unwrap();
    assert_eq!(e.message, "Invalid argument to=never");
}

#[test]
fn listing_that_cannot_be_made_is_none() {
    let mut jobs = job_list();
    jobs[1].created_time = "garbage".to_string();
    let mut q = empty_info();
    q.from = Some("2022-08-27T00:00:00.000Z".to_string());
    assert!(get_jobs_checked(&jobs, &users(), &q).is_none());
    q.user_id = Some(0);
    let r = get_jobs_checked(&jobs, &users(), &q).unwrap().ok().unwrap();
    assert_eq!(r.len(), 1);
    jobs[0].submission.user_id = 40;
    let mut q = empty_info();
    q.user_name = Some("root".to_string());
    assert!(get_jobs_checked(&jobs, &users(), &q).is_none());
}

#[test]
fn submitted_job_reads_back_by_its_id() {
    let mut jobs = vec![];
    for k in 0..3 {
        let (t, _) = post_jobs_at(&mut jobs, &users(), &vec![], &config(), submission(k % 2, 0, 5, "Rust"), NOW.to_string()).ok().unwrap();
        assert_eq!(t.id, k as usize);
        let back = get_jobs_by_id(&jobs, t.id).ok().unwrap();
        assert_eq!(back.id, t.id);
        assert_eq!(back.submission.user_id, k % 2);
        assert_eq!(back.created_time, NOW);
        assert_eq!(back.cases.len(), 2);
        assert_eq!(back.state, State::Queueing);
    }
}

#[test]
fn unreadable_time_filter_is_refused_before_jobs_are_looked_at() {
    let mut jobs = job_list();
    jobs[0].submission.user_id = 40;
    jobs[1].created_time = "garbage".to_string();
    let mut q = empty_info();
    q.user_name = Some("root".to_string());
    q.to = Some("never".to_string());
    let e = get_jobs_checked(&jobs, &users(), &q).unwrap().err().unwrap();
    assert_eq!((e.code, e.reason.as_str(), e.message.as_str()), (1, "ERR_INVALID_ARGUMENT", "Invalid argument to=never"));
}

#[test]
fn cancelled_jobs_are_skipped_and_requeued_jobs_judged() {
    let mut jobs = job_list();
    delete_jobs(&mut jobs, 1).ok().unwrap();
    assert!(!oj::evaluate::should_evaluate(jobs[1].state));
    jobs[2].state = State::Finished;
    let (_, para) = put_jobs_by_id(&mut jobs, &config(), 2).ok().unwrap();
    assert!(oj::evaluate::should_evaluate(jobs[para.index].state));
    let (_, para) = post_jobs_at(&mut jobs, &users(), &vec![], &config(), submission(0, 0, 0, "Rust"), NOW.to_string()).ok().unwrap();
    assert!(oj::evaluate::should_evaluate(jobs[para.index].state));
}
