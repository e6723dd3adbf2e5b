use oj::config::{Problem, ProblemType};
use oj::ranklist::{collect_ranked_users, find, order_ranked_users, rank_standard, ranked_list, ranklist_is_defined, score_key_of};
use oj::types::{Contest, RankStandard, RankedUserTemp, Result, ScoringRule, State, Submission, Task, TieBreaker, User};

fn task(id: usize, user: u64, contest: u64, problem: u64, score: f64, created: &str) -> Task {
    Task {
        id,
        created_time: created.to_string(),
        updated_time: created.to_string(),
        submission: Submission { source_code: String::new(), language: "Rust".to_string(), user_id: user, contest_id: contest, problem_id: problem },
        state: State::Finished,
        result: Result::Accepted,
        score_bits: score.to_bits(),
        cases: vec![],
    }
}

fn users() -> Vec<User> {
    vec![
        User { id: Some(0), name: "root".to_string() },
        User { id: Some(1), name: "bob".to_string() },
        User { id: Some(2), name: "carol".to_string() },
    ]
}

fn problems() -> Vec<Problem> {
    vec![
        Problem { id: 0, name: "a".to_string(), ty: ProblemType::Standard, misc: None, cases: vec![] },
        Problem { id: 5, name: "b".to_string(), ty: ProblemType::Standard, misc: None, cases: vec![] },
    ]
}

fn jobs() -> Vec<Task> {
    vec![
        task(0, 0, 0, 0, 50.0, "2022-08-27T01:00:00.000Z"),
        task(1, 1, 0, 0, 100.0, "2022-08-27T02:00:00.000Z"),
        task(2, 1, 0, 5, 30.0, "2022-08-27T03:00:00.000Z"),
        task(3, 2, 0, 5, 100.0, "2022-08-27T04:00:00.000Z"),
        task(4, 1, 0, 0, 20.0, "2022-08-27T05:00:00.000Z"),
        task(5, 1, 0, 9, 70.0, "2022-08-27T06:00:00.000Z"),
    ]
}

fn with_totals(mut v: Vec<RankedUserTemp>) -> Vec<RankedUserTemp> {
    for u in v.iter_mut() {
        let mut total = 0.0f64;
        for t in &u.counted_task {
            total += f64::from_bits(t.score_bits);
        }
        u.total_score_bits = total.to_bits();
    }
    v
}

/// (user id, rank, scores)
fn ranklist(contest_id: usize, contests: &Vec<Contest>, jobs: &Vec<Task>, rule: ScoringRule, tie: Option<TieBreaker>) -> Vec<(u64, u64, Vec<f64>)> {
    let (temps, contest) = collect_ranked_users(contest_id, contests, jobs, &problems(), &users(), rule).ok().unwrap();
    let ordered = order_ranked_users(with_totals(temps), contest_id, &contest, &problems(), tie);
    ranked_list(ordered, &users())
        .into_iter()
        .map(|r| (r.user.id.unwrap(), r.rank, r.scores.iter().map(|b| f64::from_bits(*b)).collect()))
        .collect()
}

#[test]
fn find_gives_first_place_or_minus_one() {
    assert_eq!(find(&vec![4, 7, 7, 1], 7), 1);
    assert_eq!(find(&vec![4, 7, 7, 1], 4), 0);
    assert_eq!(find(&vec![4, 7], 3), -1);
    assert_eq!(find(&vec![], 3), -1);
}

#[test]
fn score_keys_order_as_scores() {
    let scores = [f64::NEG_INFINITY, -3.5f64, -1.0, -1e-300, -0.0, 0.0, 1e-300, 0.25, 1.0, 100.0, 1e300, f64::INFINITY];
    for i in 0..scores.len() {
        for j in 0..scores.len() {
            assert_eq!(
                score_key_of(scores[i].to_bits()) < score_key_of(scores[j].to_bits()),
                scores[i] < scores[j]
            );
            assert_eq!(
                score_key_of(scores[i].to_bits()) == score_key_of(scores[j].to_bits()),
                scores[i] == scores[j]
            );
        }
    }
}

#[test]
fn default_standard_is_latest_without_tie_breaker() {
    let s = rank_standard(&RankStandard { scoring_rule: None, tie_breaker: None });
    assert_eq!(s.scoring_rule, Some(ScoringRule::Latest));
    assert_eq!(s.tie_breaker, None);
    let s = rank_standard(&RankStandard { scoring_rule: Some(ScoringRule::Highest), tie_breaker: Some(TieBreaker::UserId) });
    assert_eq!(s.scoring_rule, Some(ScoringRule::Highest));
    assert_eq!(s.tie_breaker, Some(TieBreaker::UserId));
}

#[test]
fn latest_rule_without_tie_breaker_shares_ranks() {
    let r = ranklist(0, &vec![], &jobs(), ScoringRule::Latest, None);
    assert_eq!(
        r,
        vec![(2, 1, vec![0.0, 100.0]), (0, 2, vec![50.0, 0.0]), (1, 2, vec![20.0, 30.0])]
    );
}

#[test]
fn highest_rule_keeps_best_job() {
    let r = ranklist(0, &vec![], &jobs(), ScoringRule::Highest, None);
    assert_eq!(
        r,
        vec![(1, 1, vec![100.0, 30.0]), (2, 2, vec![0.0, 100.0]), (0, 3, vec![50.0, 0.0])]
    );
}

#[test]
fn submission_count_breaks_ties() {
    let r = ranklist(0, &vec![], &jobs(), ScoringRule::Latest, Some(TieBreaker::SubmissionCount));
    assert_eq!(r.iter().map(|x| (x.0, x.1)).collect::<Vec<_>>(), vec![(2, 1), (0, 2), (1, 3)]);
}

#[test]
fn submission_time_breaks_ties() {
    let r = ranklist(0, &vec![], &jobs(), ScoringRule::Latest, Some(TieBreaker::SubmissionTime));
    assert_eq!(r.iter().map(|x| (x.0, x.1)).collect::<Vec<_>>(), vec![(2, 1), (0, 2), (1, 3)]);
}

#[test]
fn user_id_gives_distinct_ranks() {
    let r = ranklist(0, &vec![], &jobs(), ScoringRule::Latest, Some(TieBreaker::UserId));
    assert_eq!(r.iter().map(|x| (x.0, x.1)).collect::<Vec<_>>(), vec![(2, 1), (0, 2), (1, 3)]);
}

#[test]
fn users_without_jobs_come_last_by_time() {
    let jobs = vec![task(0, 2, 0, 0, 0.0, "2022-08-27T01:00:00.000Z")];
    let r = ranklist(0, &vec![], &jobs, ScoringRule::Latest, Some(TieBreaker::SubmissionTime));
    assert_eq!(r.iter().map(|x| (x.0, x.1)).collect::<Vec<_>>(), vec![(2, 1), (0, 2), (1, 2)]);
}

#[test]
fn contest_rank_list_follows_contest_order() {
    let contest = Contest {
        id: Some(1),
        name: "c".to_string(),
        from: String::new(),
        to: String::new(),
        problem_ids: vec![5, 0],
        user_ids: vec![2, 1],
        submission_limit: 0,
    };
    let jobs = vec![
        task(0, 1, 1, 0, 10.0, "2022-08-27T01:00:00.000Z"),
        task(1, 0, 0, 0, 90.0, "2022-08-27T01:00:00.000Z"),
        task(2, 2, 1, 5, 5.0, "2022-08-27T02:00:00.000Z"),
    ];
    let r = ranklist(1, &vec![contest], &jobs, ScoringRule::Latest, None);
    // problems in configuration order for the filling, then sorted by contest order (5, 0)
    assert_eq!(r, vec![(1, 1, vec![0.0, 10.0]), (2, 2, vec![5.0, 0.0])]);
}

#[test]
fn unknown_contest_rank_list_is_not_found() {
    let e = collect_ranked_users(3, &vec![], &jobs(), &problems(), &users(), ScoringRule::Latest).err().unwrap();
    assert_eq!((e.code, e.message.as_str()), (3, "Contest 3 not found."));
}

#[test]
fn ranks_start_at_one_and_never_go_down() {
    for tie in [None, Some(TieBreaker::SubmissionCount), Some(TieBreaker::SubmissionTime), Some(TieBreaker::UserId)] {
        for rule in [ScoringRule::Latest, ScoringRule::Highest] {
            let r = ranklist(0, &vec![], &jobs(), rule, tie);
            assert_eq!(r[0].1, 1);
            for i in 0..r.len() {
                assert!(1 <= r[i].1 && r[i].1 <= i as u64 + 1);
                if i > 0 {
                    assert!(r[i - 1].1 <= r[i].1);
                    let above: f64 = r[i - 1].2.iter().sum();
                    let here: f64 = r[i].2.iter().sum();
                    if here < above {
                        assert!(r[i - 1].1 < r[i].1);
                    }
                }
            }
        }
    }
}

#[test]
fn rank_list_needs_known_submitters() {
    assert!(ranklist_is_defined(0, &vec![], &jobs(), &problems(), &users()));
    // a job on a configured problem by a user that does not exist
    let bad = vec![task(0, 7, 0, 0, 1.0, "2022-08-27T01:00:00.000Z")];
    assert!(!ranklist_is_defined(0, &vec![], &bad, &problems(), &users()));
    // a job on a problem outside the configuration does not count
    let other = vec![task(0, 7, 0, 9, 1.0, "2022-08-27T01:00:00.000Z")];
    assert!(ranklist_is_defined(0, &vec![], &other, &problems(), &users()));
    let contest = Contest {
        id: Some(1),
        name: "c".to_string(),
        from: String::new(),
        to: String::new(),
        problem_ids: vec![0],
        user_ids: vec![1],
        submission_limit: 0,
    };
    let outsider = vec![task(0, 2, 1, 0, 1.0, "2022-08-27T01:00:00.000Z")];
    assert!(!ranklist_is_defined(1, &vec![contest.clone()], &outsider, &problems(), &users()));
    let member = vec![task(0, 1, 1, 0, 1.0, "2022-08-27T01:00:00.000Z")];
    assert!(ranklist_is_defined(1, &vec![contest.clone()], &member, &problems(), &users()));
    // an unknown contest is answered by the rank list itself
    assert!(ranklist_is_defined(4, &vec![contest], &outsider, &problems(), &users()));
}

#[test]
fn equal_users_keep_their_order() {
    let make = |id: u64, score: f64, subs: u64| {
        let mut u = RankedUserTemp::new();
        u.user = User { id: Some(id), name: String::new() };
        u.total_score_bits = score.to_bits();
        u.total_sub = subs;
        u
    };
    let input = || vec![make(2, 10.0, 1), make(0, 20.0, 3), make(1, 10.0, 1), make(3, 10.0, 0)];
    let order = |v: Vec<RankedUserTemp>| -> Vec<(u64, u64)> {
        order_ranked_users(v, 0, &Contest::new(), &problems(), Some(TieBreaker::SubmissionCount))
            .into_iter()
            .map(|u| (u.user.id.unwrap(), u.rank))
            .collect()
    };
    let first = order(input());
    // 3 has fewer submissions; 2 and 1 tie on score and count and keep their order
    assert_eq!(first, vec![(0, 1), (3, 2), (2, 3), (1, 3)]);
    assert_eq!(order(input()), first);
}
