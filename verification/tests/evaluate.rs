use oj::config::{Language, Misc, Problem, ProblemCase, ProblemType, Server};
use oj::evaluate::{lines_match, should_evaluate, EvalAction, EvalEvent, Evaluation, Phase};
use oj::jobs::post_jobs_at;
use oj::config::Config;
use oj::types::{EvaluatePara, Result, State, Submission, User};

fn case(score: f64, n: usize) -> ProblemCase {
    ProblemCase {
        score_bits: score.to_bits(),
        input_file: format!("in{}", n),
        answer_file: format!("ans{}", n),
        time_limit: 1000,
        memory_limit: 0,
    }
}

fn para(ty: ProblemType, misc: Option<Misc>, n_cases: usize) -> EvaluatePara {
    let problem = Problem { id: 0, name: "a".to_string(), ty, misc, cases: (0..n_cases).map(|i| case(10.0 * (i + 1) as f64, i)).collect() };
    let config = Config {
        server: Server { bind_address: None, bind_port: None },
        problems: vec![problem],
        languages: vec![Language {
            name: "Rust".to_string(),
            file_name: "main.rs".to_string(),
            command: vec!["rustc".to_string(), "-o".to_string(), "%OUTPUT%".to_string(), "%INPUT%".to_string()],
        }],
    };
    let users = vec![User { id: Some(0), name: "root".to_string() }];
    let mut jobs = vec![];
    let sub = Submission { source_code: "x".to_string(), language: "Rust".to_string(), user_id: 0, contest_id: 0, problem_id: 0 };
    let (_, p) = post_jobs_at(&mut jobs, &users, &vec![], &config, sub, "2022-08-27T02:05:29.000Z".to_string()).ok().unwrap();
    p
}

fn machine(p: &EvaluatePara) -> Evaluation {
    let mut task = oj::types::Task::new();
    task.cases = (0..=p.problem.cases.len()).map(|i| {
        let mut c = oj::types::Case::new();
        c.id = i as u64;
        c
    }).collect();
    Evaluation::new(task, "tmp".to_string())
}

fn misc(packing: Option<Vec<Vec<u64>>>, spj: Option<Vec<String>>) -> Option<Misc> {
    Some(Misc { packing, special_judge: spj, dynamic_ranking_ratio_bits: None })
}

fn compile_ok(m: &mut Evaluation, p: &EvaluatePara) {
    assert!(matches!(m.step(p, EvalEvent::Proceed), EvalAction::MakeDir(d) if d == "tmp"));
    assert_eq!(m.task.state, State::Running);
    assert!(matches!(m.step(p, EvalEvent::DirMade { ok: true }), EvalAction::WriteSource(f) if f == "tmp/main.rs"));
    match m.step(p, EvalEvent::SourceWritten { ok: true }) {
        EvalAction::Compile(c) => assert_eq!(c, vec!["rustc", "-o", "tmp/temp", "tmp/main.rs"]),
        _ => panic!("expected a compile action"),
    }
    assert_eq!(m.task.cases[0].result, Result::Running);
    assert!(matches!(m.step(p, EvalEvent::Compiled { started: true, code: Some(0), micros: 7 }), EvalAction::Proceed));
    assert_eq!(m.task.cases[0].result, Result::CompilationSuccess);
    assert_eq!(m.task.cases[0].time, 7);
}

fn lines(v: &[&str]) -> Vec<String> {
    v.iter().map(|s| s.to_string()).collect()
}

#[test]
fn standard_judging_of_two_single_case_groups() {
    let p = para(ProblemType::Standard, misc(None, None), 2);
    let mut m = machine(&p);
    compile_ok(&mut m, &p);
    assert!(matches!(m.step(&p, EvalEvent::Proceed), EvalAction::Proceed));
    match m.step(&p, EvalEvent::Proceed) {
        EvalAction::Run { program, input, output, time_limit } => {
            assert_eq!((program.as_str(), input.as_str(), output.as_str(), time_limit), ("./tmp/temp", "in0", "tmp/test_0.out", 1000));
        }
        _ => panic!("expected a run"),
    }
    assert_eq!(m.task.cases[1].result, Result::Running);
    match m.step(&p, EvalEvent::Ran { timed_out: false, started: true, status: Some(0), micros: 3 }) {
        EvalAction::ReadLines { output, answer } => assert_eq!((output.as_str(), answer.as_str()), ("tmp/test_0.out", "ans0")),
        _ => panic!("expected reading lines"),
    }
    assert!(matches!(m.step(&p, EvalEvent::LinesRead { output: lines(&["1 2 ", "x\t", "", "  "]), answer: lines(&["1 2", "x"]) }), EvalAction::Proceed));
    assert_eq!(m.task.cases[1].result, Result::Accepted);
    assert_eq!(m.task.cases[1].time, 3);
    match m.step(&p, EvalEvent::Proceed) {
        EvalAction::AddScore(c) => assert_eq!(c, vec![0]),
        _ => panic!("expected a score"),
    }
    assert!(matches!(m.step(&p, EvalEvent::ScoreAdded { score_bits: 10.0f64.to_bits() }), EvalAction::Proceed));
    assert!(matches!(m.step(&p, EvalEvent::Proceed), EvalAction::Proceed));
    assert!(matches!(m.step(&p, EvalEvent::Proceed), EvalAction::Run { .. }));
    assert!(matches!(m.step(&p, EvalEvent::Ran { timed_out: false, started: true, status: Some(1), micros: 4 }), EvalAction::Proceed));
    assert_eq!(m.task.cases[2].result, Result::RuntimeError);
    assert_eq!(m.task.result, Result::RuntimeError);
    assert!(matches!(m.step(&p, EvalEvent::Proceed), EvalAction::Proceed));
    assert!(matches!(m.step(&p, EvalEvent::Proceed), EvalAction::CleanUp(d) if d == "tmp"));
    assert!(matches!(m.step(&p, EvalEvent::CleanedUp { now: "later".to_string() }), EvalAction::Stop));
    assert_eq!(m.phase, Phase::Done);
    assert_eq!(m.task.state, State::Finished);
    assert_eq!(m.task.result, Result::RuntimeError);
    assert_eq!(m.task.updated_time, "later");
    assert_eq!(f64::from_bits(m.task.score_bits), 10.0);
}

#[test]
fn failed_case_skips_rest_of_group() {
    let p = para(ProblemType::Standard, misc(Some(vec![vec![2, 1]]), None), 2);
    let mut m = machine(&p);
    compile_ok(&mut m, &p);
    m.step(&p, EvalEvent::Proceed);
    assert!(matches!(m.step(&p, EvalEvent::Proceed), EvalAction::Run { input, .. } if input == "in1"));
    assert!(matches!(m.step(&p, EvalEvent::Ran { started: true, timed_out: true, status: None, micros: 2000 }), EvalAction::Proceed));
    assert_eq!(m.task.cases[2].result, Result::TimeLimitExceeded);
    assert!(matches!(m.step(&p, EvalEvent::Proceed), EvalAction::Proceed));
    assert_eq!(m.task.cases[1].result, Result::Skipped);
    // the group failed: no score is added
    assert!(matches!(m.step(&p, EvalEvent::Proceed), EvalAction::Proceed));
    assert!(matches!(m.step(&p, EvalEvent::Proceed), EvalAction::CleanUp(_)));
    m.step(&p, EvalEvent::CleanedUp { now: "t".to_string() });
    assert_eq!(m.task.result, Result::TimeLimitExceeded);
}

#[test]
fn first_erroneous_case_gives_the_verdict() {
    let p = para(ProblemType::Standard, misc(None, None), 2);
    let mut m = machine(&p);
    compile_ok(&mut m, &p);
    m.step(&p, EvalEvent::Proceed);
    m.step(&p, EvalEvent::Proceed);
    m.step(&p, EvalEvent::Ran { timed_out: false, started: true, status: Some(0), micros: 1 });
    m.step(&p, EvalEvent::LinesRead { output: lines(&["1"]), answer: lines(&["2"]) });
    assert_eq!(m.task.result, Result::WrongAnswer);
    m.step(&p, EvalEvent::Proceed);
    m.step(&p, EvalEvent::Proceed);
    m.step(&p, EvalEvent::Proceed);
    m.step(&p, EvalEvent::Ran { timed_out: false, started: false, status: None, micros: 0 });
    assert_eq!(m.task.cases[2].result, Result::SystemError);
    assert_eq!(m.task.result, Result::WrongAnswer);
}

#[test]
fn compilation_error_skips_judging() {
    let p = para(ProblemType::Standard, misc(None, None), 2);
    let mut m = machine(&p);
    m.step(&p, EvalEvent::Proceed);
    m.step(&p, EvalEvent::DirMade { ok: true });
    m.step(&p, EvalEvent::SourceWritten { ok: true });
    m.step(&p, EvalEvent::Compiled { started: true, code: Some(1), micros: 9 });
    assert_eq!(m.task.result, Result::CompilationError);
    assert_eq!(m.task.cases[0].result, Result::CompilationError);
    assert!(matches!(m.step(&p, EvalEvent::Proceed), EvalAction::Proceed));
    assert!(matches!(m.step(&p, EvalEvent::Proceed), EvalAction::Proceed));
    assert!(matches!(m.step(&p, EvalEvent::Proceed), EvalAction::CleanUp(_)));
    m.step(&p, EvalEvent::CleanedUp { now: "t".to_string() });
    assert_eq!(m.task.result, Result::CompilationError);
    assert_eq!(m.task.cases[1].result, Result::Waiting);
}

#[test]
fn missing_directory_fails_every_case() {
    let p = para(ProblemType::Standard, misc(None, None), 2);
    let mut m = machine(&p);
    m.step(&p, EvalEvent::Proceed);
    assert!(matches!(m.step(&p, EvalEvent::DirMade { ok: false }), EvalAction::Stop));
    assert_eq!(m.task.state, State::Finished);
    assert_eq!(m.task.result, Result::SystemError);
    assert!(m.task.cases.iter().all(|c| c.result == Result::SystemError));
    assert!(matches!(m.step(&p, EvalEvent::Proceed), EvalAction::Stop));
}

#[test]
fn compiler_that_cannot_start_is_a_system_error() {
    let p = para(ProblemType::Standard, misc(None, None), 1);
    let mut m = machine(&p);
    m.step(&p, EvalEvent::Proceed);
    m.step(&p, EvalEvent::DirMade { ok: true });
    m.step(&p, EvalEvent::SourceWritten { ok: true });
    assert!(matches!(m.step(&p, EvalEvent::Compiled { started: false, code: None, micros: 0 }), EvalAction::Stop));
    assert_eq!(m.task.result, Result::SystemError);
    assert_eq!(m.task.cases[0].result, Result::Running);
}

#[test]
fn no_settings_judges_each_case_alone() {
    let p = para(ProblemType::Standard, None, 2);
    let mut m = machine(&p);
    compile_ok(&mut m, &p);
    assert!(matches!(m.step(&p, EvalEvent::Proceed), EvalAction::Proceed));
    assert!(matches!(m.step(&p, EvalEvent::Proceed), EvalAction::Run { input, .. } if input == "in0"));
    m.step(&p, EvalEvent::Ran { timed_out: false, started: true, status: Some(0), micros: 1 });
    m.step(&p, EvalEvent::LinesRead { output: lines(&["1"]), answer: lines(&["1"]) });
    assert!(matches!(m.step(&p, EvalEvent::Proceed), EvalAction::AddScore(c) if c == vec![0]));
    m.step(&p, EvalEvent::ScoreAdded { score_bits: 10.0f64.to_bits() });
    assert!(matches!(m.step(&p, EvalEvent::Proceed), EvalAction::Proceed));
    assert!(matches!(m.step(&p, EvalEvent::Proceed), EvalAction::Run { input, .. } if input == "in1"));
    assert_eq!(m.task.cases[1].result, Result::Accepted);
    assert_eq!(m.task.cases[2].result, Result::Running);
}

#[test]
fn strict_judging_adds_score_by_place_in_group() {
    let p = para(ProblemType::Strict, misc(Some(vec![vec![2]]), None), 2);
    let mut m = machine(&p);
    compile_ok(&mut m, &p);
    m.step(&p, EvalEvent::Proceed);
    m.step(&p, EvalEvent::Proceed);
    match m.step(&p, EvalEvent::Ran { timed_out: false, started: true, status: Some(0), micros: 1 }) {
        EvalAction::Diff { output, answer } => assert_eq!((output.as_str(), answer.as_str()), ("tmp/test_1.out", "ans1")),
        _ => panic!("expected diff"),
    }
    m.step(&p, EvalEvent::Diffed { started: true, code: Some(0) });
    assert_eq!(m.task.cases[2].result, Result::Accepted);
    match m.step(&p, EvalEvent::Proceed) {
        EvalAction::AddScore(c) => assert_eq!(c, vec![0]),
        _ => panic!("expected a score"),
    }
}

#[test]
fn special_judge_verdict_and_information() {
    let spj = vec!["judge".to_string(), "%OUTPUT%".to_string(), "%ANSWER%".to_string()];
    let p = para(ProblemType::Spj, misc(None, Some(spj)), 2);
    let mut m = machine(&p);
    compile_ok(&mut m, &p);
    m.step(&p, EvalEvent::Proceed);
    m.step(&p, EvalEvent::Proceed);
    match m.step(&p, EvalEvent::Ran { timed_out: false, started: true, status: Some(0), micros: 1 }) {
        EvalAction::SpecialJudge { command, outcome } => {
            assert_eq!(command, vec!["judge", "tmp/test_0.out", "ans0"]);
            assert_eq!(outcome, "tmp/outcome.txt");
        }
        _ => panic!("expected special judge"),
    }
    m.step(&p, EvalEvent::Judged { started: true, outcome: Some(lines(&["Accepted", "fine"])) });
    assert_eq!(m.task.cases[1].result, Result::Accepted);
    assert_eq!(m.task.cases[1].info, "fine");
    m.step(&p, EvalEvent::Proceed);
    m.step(&p, EvalEvent::ScoreAdded { score_bits: 10.0f64.to_bits() });
    m.step(&p, EvalEvent::Proceed);
    m.step(&p, EvalEvent::Proceed);
    m.step(&p, EvalEvent::Ran { timed_out: false, started: true, status: Some(0), micros: 1 });
    m.step(&p, EvalEvent::Judged { started: true, outcome: Some(lines(&["only one line"])) });
    assert_eq!(m.task.cases[2].result, Result::SPJError);
    assert_eq!(m.task.result, Result::SPJError);
}

#[test]
fn special_judge_without_command_is_a_system_error() {
    let p = para(ProblemType::Spj, misc(None, None), 1);
    let mut m = machine(&p);
    compile_ok(&mut m, &p);
    m.step(&p, EvalEvent::Proceed);
    m.step(&p, EvalEvent::Proceed);
    assert!(matches!(m.step(&p, EvalEvent::Ran { timed_out: false, started: true, status: Some(0), micros: 1 }), EvalAction::Proceed));
    assert_eq!(m.task.cases[1].result, Result::SystemError);
}

#[test]
fn dynamic_ranking_cases_stay_running() {
    let p = para(ProblemType::DynamicRanking, misc(None, None), 1);
    let mut m = machine(&p);
    compile_ok(&mut m, &p);
    m.step(&p, EvalEvent::Proceed);
    m.step(&p, EvalEvent::Proceed);
    assert!(matches!(m.step(&p, EvalEvent::Ran { timed_out: false, started: true, status: Some(0), micros: 1 }), EvalAction::Proceed));
    assert_eq!(m.task.cases[1].result, Result::Running);
    match m.step(&p, EvalEvent::Proceed) {
        EvalAction::AddScore(c) => assert!(c.is_empty()),
        _ => panic!("expected a score"),
    }
}

#[test]
fn only_queueing_jobs_are_judged() {
    assert!(should_evaluate(State::Queueing));
    assert!(!should_evaluate(State::Canceled));
    assert!(!should_evaluate(State::Finished));
    assert!(!should_evaluate(State::Running));
}

#[test]
fn only_reached_cases_must_exist() {
    // every case the packing names exists
    let p = para(ProblemType::Standard, misc(Some(vec![vec![1, 2]]), None), 2);
    let mut m = machine(&p);
    compile_ok(&mut m, &p);
    assert!(m.step_is_defined(&p, &EvalEvent::Proceed));
    let p0 = para(ProblemType::Standard, misc(Some(vec![vec![1, 0]]), None), 2);
    let mut m0 = machine(&p0);
    compile_ok(&mut m0, &p0);
    m0.step(&p0, EvalEvent::Proceed);
    m0.step(&p0, EvalEvent::Proceed);
    m0.step(&p0, EvalEvent::Ran { started: true, timed_out: true, status: None, micros: 5 });
    // case 0 is reached after a failure: it is only marked skipped, which is fine
    assert!(m0.step_is_defined(&p0, &EvalEvent::Proceed));
    m0.step(&p0, EvalEvent::Proceed);
    assert_eq!(m0.task.cases[0].result, Result::Skipped);
    // case 0 reached while the group is fine would be run: not defined
    let p1 = para(ProblemType::Standard, misc(Some(vec![vec![0]]), None), 2);
    let mut m1 = machine(&p1);
    compile_ok(&mut m1, &p1);
    m1.step(&p1, EvalEvent::Proceed);
    assert!(!m1.step_is_defined(&p1, &EvalEvent::Proceed));
    // a case beyond the job's cases is never defined
    let p2 = para(ProblemType::Standard, misc(Some(vec![vec![7]]), None), 2);
    let mut m2 = machine(&p2);
    compile_ok(&mut m2, &p2);
    m2.step(&p2, EvalEvent::Proceed);
    assert!(!m2.step_is_defined(&p2, &EvalEvent::Proceed));
    // an event that does not answer the action is not defined
    assert!(!m2.step_is_defined(&p2, &EvalEvent::DirMade { ok: true }));
}

#[test]
fn output_lines_compare_without_trailing_blanks() {
    assert!(lines_match(&lines(&["a"]), &lines(&["a", ""])));
    assert!(lines_match(&lines(&["a  ", "b\t", " "]), &lines(&["a", "b"])));
    assert!(!lines_match(&lines(&[" a"]), &lines(&["a"])));
    assert!(!lines_match(&lines(&["a", "", "b"]), &lines(&["a", "b"])));
    assert!(lines_match(&lines(&[]), &lines(&["", "  "])));
}

#[test]
fn judging_reaches_done_when_every_case_passes() {
    let p = para(ProblemType::Standard, misc(Some(vec![vec![1, 2], vec![3]]), None), 3);
    let mut m = machine(&p);
    let mut event = EvalEvent::Proceed;
    let mut steps = 0;
    loop {
        let action = m.step(&p, event);
        steps += 1;
        assert!(steps < 100);
        event = match action {
            EvalAction::Stop => break,
            EvalAction::Proceed => EvalEvent::Proceed,
            EvalAction::MakeDir(_) => EvalEvent::DirMade { ok: true },
            EvalAction::WriteSource(_) => EvalEvent::SourceWritten { ok: true },
            EvalAction::Compile(_) => EvalEvent::Compiled { started: true, code: Some(0), micros: 1 },
            EvalAction::Run { .. } => EvalEvent::Ran { timed_out: false, started: true, status: Some(0), micros: 1 },
            EvalAction::ReadLines { .. } => EvalEvent::LinesRead { output: lines(&["ok "]), answer: lines(&["ok"]) },
            EvalAction::AddScore(ks) => {
                let mut s = f64::from_bits(m.task.score_bits);
                for k in ks {
                    s += f64::from_bits(p.problem.cases[k].score_bits);
                }
                EvalEvent::ScoreAdded { score_bits: s.to_bits() }
            }
            EvalAction::CleanUp(_) => EvalEvent::CleanedUp { now: "end".to_string() },
            _ => panic!("unexpected action"),
        };
    }
    assert_eq!(m.phase, Phase::Done);
    assert_eq!(m.task.state, State::Finished);
    assert_eq!(m.task.result, Result::Accepted);
    assert_eq!(f64::from_bits(m.task.score_bits), 60.0);
    assert!(m.task.cases[1..].iter().all(|c| c.result == Result::Accepted));
}

#[test]
fn signal_before_the_limit_is_a_runtime_error() {
    let p = para(ProblemType::Standard, misc(None, None), 2);
    let mut m = machine(&p);
    compile_ok(&mut m, &p);
    m.step(&p, EvalEvent::Proceed);
    m.step(&p, EvalEvent::Proceed);
    m.step(&p, EvalEvent::Ran { started: true, timed_out: false, status: None, micros: 12 });
    assert_eq!(m.task.cases[1].result, Result::RuntimeError);
    assert_eq!(m.task.cases[1].time, 12);
    assert_eq!(m.task.result, Result::RuntimeError);
    // a run stopped at its limit is a time-out, whatever its exit status
    let mut m = machine(&p);
    compile_ok(&mut m, &p);
    m.step(&p, EvalEvent::Proceed);
    m.step(&p, EvalEvent::Proceed);
    m.step(&p, EvalEvent::Ran { started: true, timed_out: true, status: Some(0), micros: 1_100_000 });
    assert_eq!(m.task.cases[1].result, Result::TimeLimitExceeded);
}

#[test]
fn no_settings_judge_as_empty_settings() {
    let run = |misc: Option<Misc>| {
        let p = para(ProblemType::Spj, misc, 2);
        let mut m = machine(&p);
        compile_ok(&mut m, &p);
        let mut event = EvalEvent::Proceed;
        for _ in 0..12 {
            let a = m.step(&p, event);
            event = match a {
                EvalAction::Run { .. } => EvalEvent::Ran { started: true, timed_out: false, status: Some(0), micros: 1 },
                EvalAction::CleanUp(_) => EvalEvent::CleanedUp { now: "t".to_string() },
                EvalAction::Stop => break,
                _ => EvalEvent::Proceed,
            };
        }
        (m.phase, m.task.result, m.task.cases.iter().map(|c| c.result).collect::<Vec<_>>())
    };
    let without = run(None);
    assert_eq!(without, run(misc(None, None)));
    assert_eq!(without.0, Phase::Done);
    assert_eq!(without.2[1..], [Result::SystemError, Result::SystemError]);
}
