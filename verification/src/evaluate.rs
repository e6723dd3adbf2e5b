//! Judging one job, as a state machine: the worker performs each action this
//! machine asks for (making directories, compiling, running, comparing) and
//! hands back what happened; the machine decides the verdicts.

use vstd::prelude::*;
use crate::config::{Language, MiscView, Problem, ProblemType, ProblemView};
use crate::text::{decimal, is_blank, push_decimal, trim_end, trimmed_end_eq};
use crate::types::{Case, EvaluatePara, EvaluateParaView, Result, State, Task, TaskView};

verus! {

/// Where the judging of a job stands.
#[derive(Clone, Copy, Debug, PartialEq, Eq, Structural)]
pub enum Phase {
    Start,
    MakingDir,
    WritingSource,
    Compiling,
    NextGroup,
    NextCase,
    Running,
    Comparing,
    Diffing,
    Judging,
    AddingScore,
    CleaningUp,
    Done,
}

/// What the worker does next.
pub enum EvalAction {
    /// Nothing outside; answer with `Proceed`.
    Proceed,
    /// Create the job's working directory.
    MakeDir(String),
    /// Write the submitted source code to this file.
    WriteSource(String),
    /// Run the compile command.
    Compile(Vec<String>),
    /// Run the compiled program on one case, with a time limit in microseconds.
    Run { program: String, input: String, output: String, time_limit: u64 },
    /// Read the program's output and the answer, line by line.
    ReadLines { output: String, answer: String },
    /// Compare the program's output with the answer using `diff`.
    Diff { output: String, answer: String },
    /// Run the special judge, its standard output going to `outcome`, then read that file.
    SpecialJudge { command: Vec<String>, outcome: String },
    /// Add the scores of these problem cases, summed in this order, to the job's score.
    AddScore(Vec<usize>),
    /// Remove the working directory and read the clock.
    CleanUp(String),
    /// The job is judged.
    Stop,
}

/// What happened when the worker performed an action.
pub enum EvalEvent {
    Proceed,
    DirMade { ok: bool },
    SourceWritten { ok: bool },
    /// Whether the compiler could be started, its exit code, and how long it took.
    Compiled { started: bool, code: Option<i32>, micros: u64 },
    /// Whether the program could be started, whether it was stopped for running
    /// past its time limit, its exit code (`None` when a signal stopped it), and
    /// how long it ran.
    Ran { started: bool, timed_out: bool, status: Option<i32>, micros: u64 },
    LinesRead { output: Vec<String>, answer: Vec<String> },
    /// Whether `diff` could be started, and its exit code.
    Diffed { started: bool, code: Option<i32> },
    /// Whether the special judge could be started, and the lines of its outcome
    /// (`None` when the outcome file could not be opened).
    Judged { started: bool, outcome: Option<Vec<String>> },
    /// The job's new score, as the bits of an `f64`.
    ScoreAdded { score_bits: u64 },
    /// The time the judging finished.
    CleanedUp { now: String },
}

/// The judging of one job.
pub struct Evaluation {
    /// The job as judged so far.
    pub task: Task,
    pub phase: Phase,
    /// The working directory.
    pub dir: String,
    /// Groups of case numbers judged together.
    pub groups: Vec<Vec<u64>>,
    /// The group being judged.
    pub group: usize,
    /// The place in the group of the case being judged.
    pub pos: usize,
    pub compilation_error: bool,
    /// The job already has an erroneous case (or failed to compile).
    pub task_error: bool,
    /// No case of the group has failed.
    pub group_ok: bool,
    /// The problem cases whose scores the group adds, in order.
    pub group_cases: Vec<usize>,
}

/// Plain view of an [`Evaluation`].
#[verifier::ext_equal]
pub struct EvaluationView {
    pub task: TaskView,
    pub phase: Phase,
    pub dir: Seq<char>,
    pub groups: Seq<Seq<u64>>,
    pub group: int,
    pub pos: int,
    pub compilation_error: bool,
    pub task_error: bool,
    pub group_ok: bool,
    pub group_cases: Seq<usize>,
}

/// Plain view of an [`EvalAction`].
pub enum ActionView {
    Proceed,
    MakeDir(Seq<char>),
    WriteSource(Seq<char>),
    Compile(Seq<Seq<char>>),
    Run { program: Seq<char>, input: Seq<char>, output: Seq<char>, time_limit: u64 },
    ReadLines { output: Seq<char>, answer: Seq<char> },
    Diff { output: Seq<char>, answer: Seq<char> },
    SpecialJudge { command: Seq<Seq<char>>, outcome: Seq<char> },
    AddScore(Seq<usize>),
    CleanUp(Seq<char>),
    Stop,
}

/// Plain view of an [`EvalEvent`].
pub enum EventView {
    Proceed,
    DirMade { ok: bool },
    SourceWritten { ok: bool },
    Compiled { started: bool, code: Option<i32>, micros: u64 },
    Ran { started: bool, timed_out: bool, status: Option<i32>, micros: u64 },
    LinesRead { output: Seq<String>, answer: Seq<String> },
    Diffed { started: bool, code: Option<i32> },
    Judged { started: bool, outcome: Option<Seq<String>> },
    ScoreAdded { score_bits: u64 },
    CleanedUp { now: String },
}

/// The views of a list of strings.
pub open spec fn texts(v: Seq<String>) -> Seq<Seq<char>> {
    v.map_values(|s: String| s@)
}

impl View for Evaluation {
    type V = EvaluationView;

    open spec fn view(&self) -> EvaluationView {
        EvaluationView {
            task: self.task@,
            phase: self.phase,
            dir: self.dir@,
            groups: self.groups@.map_values(|g: Vec<u64>| g@),
            group: self.group as int,
            pos: self.pos as int,
            compilation_error: self.compilation_error,
            task_error: self.task_error,
            group_ok: self.group_ok,
            group_cases: self.group_cases@,
        }
    }
}

impl View for EvalAction {
    type V = ActionView;

    open spec fn view(&self) -> ActionView {
        match self {
            EvalAction::Proceed => ActionView::Proceed,
            EvalAction::MakeDir(d) => ActionView::MakeDir(d@),
            EvalAction::WriteSource(p) => ActionView::WriteSource(p@),
            EvalAction::Compile(c) => ActionView::Compile(texts(c@)),
            EvalAction::Run { program, input, output, time_limit } => ActionView::Run {
                program: program@,
                input: input@,
                output: output@,
                time_limit: *time_limit,
            },
            EvalAction::ReadLines { output, answer } => ActionView::ReadLines {
                output: output@,
                answer: answer@,
            },
            EvalAction::Diff { output, answer } => ActionView::Diff { output: output@, answer: answer@ },
            EvalAction::SpecialJudge { command, outcome } => ActionView::SpecialJudge {
                command: texts(command@),
                outcome: outcome@,
            },
            EvalAction::AddScore(c) => ActionView::AddScore(c@),
            EvalAction::CleanUp(d) => ActionView::CleanUp(d@),
            EvalAction::Stop => ActionView::Stop,
        }
    }
}

impl View for EvalEvent {
    type V = EventView;

    open spec fn view(&self) -> EventView {
        match self {
            EvalEvent::Proceed => EventView::Proceed,
            EvalEvent::DirMade { ok } => EventView::DirMade { ok: *ok },
            EvalEvent::SourceWritten { ok } => EventView::SourceWritten { ok: *ok },
            EvalEvent::Compiled { started, code, micros } => EventView::Compiled {
                started: *started,
                code: *code,
                micros: *micros,
            },
            EvalEvent::Ran { started, timed_out, status, micros } => EventView::Ran {
                started: *started,
                timed_out: *timed_out,
                status: *status,
                micros: *micros,
            },
            EvalEvent::LinesRead { output, answer } => EventView::LinesRead {
                output: output@,
                answer: answer@,
            },
            EvalEvent::Diffed { started, code } => EventView::Diffed { started: *started, code: *code },
            EvalEvent::Judged { started, outcome } => EventView::Judged {
                started: *started,
                outcome: match outcome {
                    Some(o) => Some(o@),
                    None => None,
                },
            },
            EvalEvent::ScoreAdded { score_bits } => EventView::ScoreAdded { score_bits: *score_bits },
            EvalEvent::CleanedUp { now } => EventView::CleanedUp { now: *now },
        }
    }
}

/// Where the source code goes.
pub open spec fn source_path(dir: Seq<char>, file_name: Seq<char>) -> Seq<char> {
    dir + "/"@ + file_name
}

/// Where the compiled program goes.
pub open spec fn program_file(dir: Seq<char>) -> Seq<char> {
    dir + "/temp"@
}

/// How the compiled program is started.
pub open spec fn program_command(dir: Seq<char>) -> Seq<char> {
    "./"@ + dir + "/temp"@
}

/// Where the output of problem case `k` goes.
pub open spec fn case_output(dir: Seq<char>, k: nat) -> Seq<char> {
    dir + "/test_"@ + decimal(k) + ".out"@
}

/// Where the special judge's outcome goes.
pub open spec fn outcome_path(dir: Seq<char>) -> Seq<char> {
    dir + "/outcome.txt"@
}

/// `cmd` with every argument equal to `k1` replaced by `v1`, and every other
/// argument equal to `k2` replaced by `v2`.
pub open spec fn substitute(
    cmd: Seq<String>,
    k1: Seq<char>,
    v1: Seq<char>,
    k2: Seq<char>,
    v2: Seq<char>,
) -> Seq<Seq<char>> {
    cmd.map_values(
        |s: String|
            if s@ == k1 {
                v1
            } else if s@ == k2 {
                v2
            } else {
                s@
            },
    )
}

/// Each case of `p` in a group of its own, in order.
pub open spec fn single_groups(p: ProblemView) -> Seq<Seq<u64>> {
    Seq::new(p.cases.len(), |i: int| seq![(i + 1) as u64])
}

/// The groups a problem is judged in: the packing when given, else each case alone.
pub open spec fn groups_of(p: ProblemView) -> Seq<Seq<u64>> {
    match p.misc {
        Some(m) => match m.packing {
            Some(g) => g,
            None => single_groups(p),
        },
        None => single_groups(p),
    }
}

/// The job with the verdict of case `i` set.
pub open spec fn with_case_result(t: TaskView, i: int, r: Result) -> TaskView {
    TaskView { cases: t.cases.update(i, Case { result: r, ..t.cases[i] }), ..t }
}

/// The job with the time of case `i` set.
pub open spec fn with_case_time(t: TaskView, i: int, micros: u64) -> TaskView {
    TaskView { cases: t.cases.update(i, Case { time: micros, ..t.cases[i] }), ..t }
}

/// The job with the information of case `i` set.
pub open spec fn with_case_info(t: TaskView, i: int, info: String) -> TaskView {
    TaskView { cases: t.cases.update(i, Case { info: info, ..t.cases[i] }), ..t }
}

/// The case number being judged.
pub open spec fn current_id(v: EvaluationView) -> int {
    v.groups[v.group][v.pos] as int
}

/// Case `id` fails with verdict `r`: the group fails, the job takes the verdict
/// unless it already has an erroneous case, and now has one. The next case follows.
pub open spec fn fail_case(v: EvaluationView, t: TaskView, id: int, r: Result) -> EvaluationView {
    let t1 = with_case_result(t, id, r);
    EvaluationView {
        task: if v.task_error { t1 } else { TaskView { result: r, ..t1 } },
        group_ok: false,
        task_error: true,
        pos: v.pos + 1,
        phase: Phase::NextCase,
        ..v
    }
}

/// Case `id` is accepted and problem case `k`'s score joins the group's.
pub open spec fn accept_case(v: EvaluationView, t: TaskView, id: int, k: usize) -> EvaluationView {
    EvaluationView {
        task: with_case_result(t, id, Result::Accepted),
        group_cases: v.group_cases.push(k),
        pos: v.pos + 1,
        phase: Phase::NextCase,
        ..v
    }
}

/// The judging stops before compiling: the job and every case fail with a system error.
pub open spec fn fail_all(v: EvaluationView) -> EvaluationView {
    EvaluationView {
        task: TaskView {
            state: State::Finished,
            result: Result::SystemError,
            cases: v.task.cases.map_values(|c: Case| Case { result: Result::SystemError, ..c }),
            ..v.task
        },
        phase: Phase::Done,
        ..v
    }
}

/// The step the machine takes on `e`: its next state and the action it asks for.
pub open spec fn next(v: EvaluationView, p: EvaluateParaView, e: EventView) -> (EvaluationView, ActionView) {
    let dir = v.dir;
    match v.phase {
        Phase::Start => (
            EvaluationView {
                task: TaskView { state: State::Running, result: Result::Running, ..v.task },
                phase: Phase::MakingDir,
                ..v
            },
            ActionView::MakeDir(dir),
        ),
        Phase::MakingDir => if e->DirMade_ok {
            (
                EvaluationView { phase: Phase::WritingSource, ..v },
                ActionView::WriteSource(source_path(dir, p.language.file_name@)),
            )
        } else {
            (fail_all(v), ActionView::Stop)
        },
        Phase::WritingSource => if e->SourceWritten_ok {
            (
                EvaluationView {
                    task: with_case_result(v.task, 0, Result::Running),
                    phase: Phase::Compiling,
                    ..v
                },
                ActionView::Compile(
                    substitute(
                        p.language.command,
                        "%INPUT%"@,
                        source_path(dir, p.language.file_name@),
                        "%OUTPUT%"@,
                        program_file(dir),
                    ),
                ),
            )
        } else {
            (fail_all(v), ActionView::Stop)
        },
        Phase::Compiling => if !e->Compiled_started {
            (
                EvaluationView {
                    task: TaskView { result: Result::SystemError, state: State::Finished, ..v.task },
                    phase: Phase::Done,
                    ..v
                },
                ActionView::Stop,
            )
        } else {
            let code = e->Compiled_code.unwrap();
            let t = if code == 0 {
                with_case_result(v.task, 0, Result::CompilationSuccess)
            } else if code == 1 {
                TaskView {
                    result: Result::CompilationError,
                    ..with_case_result(v.task, 0, Result::CompilationError)
                }
            } else {
                v.task
            };
            (
                EvaluationView {
                    task: with_case_time(t, 0, e->Compiled_micros),
                    compilation_error: v.compilation_error || code == 1,
                    task_error: v.task_error || code == 1,
                    groups: groups_of(p.problem),
                    group: 0,
                    phase: Phase::NextGroup,
                    ..v
                },
                ActionView::Proceed,
            )
        },
        Phase::NextGroup => if v.group >= v.groups.len() {
            (EvaluationView { phase: Phase::CleaningUp, ..v }, ActionView::CleanUp(dir))
        } else if v.compilation_error {
            (EvaluationView { group: v.group + 1, ..v }, ActionView::Proceed)
        } else {
            (
                EvaluationView {
                    group_ok: true,
                    group_cases: Seq::empty(),
                    pos: 0,
                    phase: Phase::NextCase,
                    ..v
                },
                ActionView::Proceed,
            )
        },
        Phase::NextCase => if v.pos >= v.groups[v.group].len() {
            if v.group_ok {
                (EvaluationView { phase: Phase::AddingScore, ..v }, ActionView::AddScore(v.group_cases))
            } else {
                (EvaluationView { group: v.group + 1, phase: Phase::NextGroup, ..v }, ActionView::Proceed)
            }
        } else {
            let id = current_id(v);
            if !v.group_ok {
                (
                    EvaluationView {
                        task: with_case_result(v.task, id, Result::Skipped),
                        pos: v.pos + 1,
                        ..v
                    },
                    ActionView::Proceed,
                )
            } else {
                let c = p.problem.cases[id - 1];
                (
                    EvaluationView {
                        task: with_case_result(v.task, id, Result::Running),
                        phase: Phase::Running,
                        ..v
                    },
                    ActionView::Run {
                        program: program_command(dir),
                        input: c.input_file@,
                        output: case_output(dir, (id - 1) as nat),
                        time_limit: c.time_limit,
                    },
                )
            }
        },
        Phase::Running => {
            let id = current_id(v);
            let c = p.problem.cases[id - 1];
            if !e->Ran_started {
                (fail_case(v, v.task, id, Result::SystemError), ActionView::Proceed)
            } else {
                let t = with_case_time(v.task, id, e->Ran_micros);
                if e->Ran_timed_out {
                    (fail_case(v, t, id, Result::TimeLimitExceeded), ActionView::Proceed)
                } else if e->Ran_status != Some(0i32) {
                    (fail_case(v, t, id, Result::RuntimeError), ActionView::Proceed)
                } else {
                    let out = case_output(dir, (id - 1) as nat);
                    match p.problem.ty {
                        ProblemType::Standard => (
                            EvaluationView { task: t, phase: Phase::Comparing, ..v },
                            ActionView::ReadLines { output: out, answer: c.answer_file@ },
                        ),
                        ProblemType::Strict => (
                            EvaluationView { task: t, phase: Phase::Diffing, ..v },
                            ActionView::Diff { output: out, answer: c.answer_file@ },
                        ),
                        ProblemType::Spj => match p.problem.misc {
                            Some(m) => match m.special_judge {
                                Some(cmd) => (
                                    EvaluationView { task: t, phase: Phase::Judging, ..v },
                                    ActionView::SpecialJudge {
                                        command: substitute(
                                            cmd,
                                            "%ANSWER%"@,
                                            c.answer_file@,
                                            "%OUTPUT%"@,
                                            out,
                                        ),
                                        outcome: outcome_path(dir),
                                    },
                                ),
                                None => (fail_case(v, t, id, Result::SystemError), ActionView::Proceed),
                            },
                            None => (fail_case(v, t, id, Result::SystemError), ActionView::Proceed),
                        },
                        ProblemType::DynamicRanking => (
                            EvaluationView { task: t, pos: v.pos + 1, phase: Phase::NextCase, ..v },
                            ActionView::Proceed,
                        ),
                    }
                }
            }
        },
        Phase::Comparing => {
            let id = current_id(v);
            let out = e->LinesRead_output;
            let ans = e->LinesRead_answer;
            if lines_agree(out, ans) {
                (accept_case(v, v.task, id, (id - 1) as usize), ActionView::Proceed)
            } else {
                (fail_case(v, v.task, id, Result::WrongAnswer), ActionView::Proceed)
            }
        },
        Phase::Diffing => {
            let id = current_id(v);
            if !e->Diffed_started {
                (fail_case(v, v.task, id, Result::SystemError), ActionView::Proceed)
            } else if e->Diffed_code.unwrap() == 0 {
                (accept_case(v, v.task, id, v.pos as usize), ActionView::Proceed)
            } else {
                (fail_case(v, v.task, id, Result::WrongAnswer), ActionView::Proceed)
            }
        },
        Phase::Judging => {
            let id = current_id(v);
            match e->Judged_outcome {
                Some(lines) => if e->Judged_started && lines.len() == 2 {
                    let t = with_case_info(v.task, id, lines[1]);
                    if lines[0]@ == "Accepted"@ {
                        (accept_case(v, t, id, (id - 1) as usize), ActionView::Proceed)
                    } else {
                        (fail_case(v, t, id, Result::WrongAnswer), ActionView::Proceed)
                    }
                } else {
                    (fail_case(v, v.task, id, Result::SPJError), ActionView::Proceed)
                },
                None => (fail_case(v, v.task, id, Result::SPJError), ActionView::Proceed),
            }
        },
        Phase::AddingScore => (
            EvaluationView {
                task: TaskView { score_bits: e->ScoreAdded_score_bits, ..v.task },
                group: v.group + 1,
                phase: Phase::NextGroup,
                ..v
            },
            ActionView::Proceed,
        ),
        Phase::CleaningUp => (
            EvaluationView {
                task: TaskView {
                    updated_time: e->CleanedUp_now,
                    state: State::Finished,
                    result: if v.task.result == Result::Running {
                        Result::Accepted
                    } else {
                        v.task.result
                    },
                    ..v.task
                },
                phase: Phase::Done,
                ..v
            },
            ActionView::Stop,
        ),
        Phase::Done => (v, ActionView::Stop),
    }
}

/// The event is the answer to the action of `phase`.
pub open spec fn event_fits(phase: Phase, e: EventView) -> bool {
    match phase {
        Phase::Start | Phase::NextGroup | Phase::NextCase | Phase::Done => e is Proceed,
        Phase::MakingDir => e is DirMade,
        Phase::WritingSource => e is SourceWritten,
        Phase::Compiling => e is Compiled && (e->Compiled_started ==> e->Compiled_code is Some),
        Phase::Running => e is Ran,
        Phase::Comparing => e is LinesRead,
        Phase::Diffing => e is Diffed && (e->Diffed_started ==> e->Diffed_code is Some),
        Phase::Judging => e is Judged,
        Phase::AddingScore => e is ScoreAdded,
        Phase::CleaningUp => e is CleanedUp,
    }
}

/// The case being judged names a case of the job and a case of the problem.
pub open spec fn case_runnable(v: EvaluationView, p: EvaluateParaView) -> bool {
    1 <= current_id(v) < v.task.cases.len() && current_id(v) - 1 < p.problem.cases.len()
}

/// The machine's state is consistent with the job's problem.
pub open spec fn eval_wf(v: EvaluationView, p: EvaluateParaView) -> bool {
    &&& v.task.cases.len() >= 1
    &&& v.phase != Phase::Start ==> v.task.result != Result::Waiting
    &&& v.phase != Phase::Start && v.phase != Phase::Done ==> v.task.state == State::Running
    &&& v.phase == Phase::Done ==> v.task.state == State::Finished && v.task.result != Result::Running
    &&& v.group <= v.groups.len()
    &&& forall|k: int| 0 <= k < v.group_cases.len() ==> #[trigger] v.group_cases[k] < p.problem.cases.len()
    &&& match v.phase {
        Phase::NextCase => v.group < v.groups.len() && v.pos <= v.groups[v.group].len()
            && !v.compilation_error,
        Phase::Running | Phase::Comparing | Phase::Diffing | Phase::Judging => v.group
            < v.groups.len() && v.pos < v.groups[v.group].len() && !v.compilation_error
            && case_runnable(v, p),
        Phase::AddingScore => v.group < v.groups.len(),
        _ => true,
    }
}

/// What a step guarantees: the machine moves as [`next`] says, stays
/// consistent, and keeps the job's id, submission, creation time and number of cases.
pub open spec fn step_post(
    old: EvaluationView,
    new: EvaluationView,
    p: EvaluateParaView,
    e: EventView,
    a: ActionView,
) -> bool {
    &&& (new, a) == next(old, p, e)
    &&& eval_wf(new, p)
    &&& new.task.id == old.task.id
    &&& new.task.submission == old.task.submission
    &&& new.task.created_time == old.task.created_time
    &&& new.task.cases.len() == old.task.cases.len()
}

/// The step can be taken: the event answers the action asked for; a case that
/// is reached names a case of the job, and one that is run also a case of the
/// problem; and a strict comparison that succeeds finds a problem case at the
/// case's place in its group, whose score it adds.
pub open spec fn step_defined(v: EvaluationView, p: EvaluateParaView, e: EventView) -> bool {
    &&& event_fits(v.phase, e)
    &&& v.phase == Phase::NextCase && v.pos < v.groups[v.group].len() ==> {
        &&& current_id(v) < v.task.cases.len()
        &&& v.group_ok ==> case_runnable(v, p)
    }
    &&& v.phase == Phase::Diffing && e->Diffed_started && e->Diffed_code == Some(0i32) ==> v.pos
        < p.problem.cases.len()
}

/// `cmd` with its placeholders replaced, see [`substitute`].
pub fn substitute_command(cmd: &Vec<String>, k1: &str, v1: &String, k2: &str, v2: &String) -> (r: Vec<String>)
    ensures
        texts(r@) == substitute(cmd@, k1@, v1@, k2@, v2@),
{
    let key1 = String::from_str(k1);
    let key2 = String::from_str(k2);
    let mut r: Vec<String> = Vec::new();
    for i in 0..cmd.len()
        invariant
            key1@ == k1@,
            key2@ == k2@,
            r@.len() == i,
            forall|k: int| 0 <= k < i ==> (#[trigger] r@[k])@ == substitute(cmd@, k1@, v1@, k2@, v2@)[k],
    {
        if cmd[i] == key1 {
            r.push(v1.clone());
        } else if cmd[i] == key2 {
            r.push(v2.clone());
        } else {
            r.push(cmd[i].clone());
        }
    }
    assert(texts(r@) =~= substitute(cmd@, k1@, v1@, k2@, v2@));
    r
}

/// How many lines of `lines` are left once trailing lines that are empty
/// (after their trailing whitespace is cut) are dropped.
pub open spec fn kept_lines(lines: Seq<String>) -> nat
    decreases lines.len(),
{
    if lines.len() == 0 {
        0
    } else if trim_end(lines.last()@).len() == 0 {
        kept_lines(lines.drop_last())
    } else {
        lines.len()
    }
}

/// The lines compared: trailing whitespace cut from each line, trailing empty lines dropped.
pub open spec fn normal_lines(lines: Seq<String>) -> Seq<Seq<char>> {
    Seq::new(kept_lines(lines), |i: int| trim_end(lines[i]@))
}

/// The output matches the answer: equal once both are normalised.
pub open spec fn lines_agree(output: Seq<String>, answer: Seq<String>) -> bool {
    normal_lines(output) == normal_lines(answer)
}

/// How many lines are kept, see [`kept_lines`].
pub fn kept_count(lines: &Vec<String>) -> (r: usize)
    ensures
        r == kept_lines(lines@),
{
    let mut k: usize = lines.len();
    proof {
        assert(lines@.take(k as int) =~= lines@);
    }
    while k > 0 && is_blank(lines[k - 1].as_str())
        invariant
            k <= lines@.len(),
            kept_lines(lines@) == kept_lines(lines@.take(k as int)),
        decreases k,
    {
        proof {
            let t = lines@.take(k as int);
            assert(t.drop_last() =~= lines@.take(k - 1));
            assert(t.last() == lines@[k - 1]);
        }
        k = k - 1;
    }
    proof {
        let t = lines@.take(k as int);
        if k > 0 {
            assert(t.last() == lines@[k - 1]);
        }
    }
    k
}

/// Whether the output matches the answer, see [`lines_agree`].
pub fn lines_match(output: &Vec<String>, answer: &Vec<String>) -> (r: bool)
    ensures
        r == lines_agree(output@, answer@),
{
    let n = kept_count(output);
    let m = kept_count(answer);
    proof {
        lemma_kept_lines_bound(output@);
        lemma_kept_lines_bound(answer@);
    }
    if n != m {
        proof {
            if lines_agree(output@, answer@) {
                assert(normal_lines(output@).len() == normal_lines(answer@).len());
            }
        }
        return false;
    }
    for i in 0..n
        invariant
            n == kept_lines(output@),
            n == kept_lines(answer@),
            n <= output@.len(),
            n <= answer@.len(),
            forall|k: int| 0 <= k < i ==> trim_end((#[trigger] output@[k])@) == trim_end(answer@[k]@),
    {
        if !trimmed_end_eq(output[i].as_str(), answer[i].as_str()) {
            proof {
                if lines_agree(output@, answer@) {
                    assert(normal_lines(output@)[i as int] == normal_lines(answer@)[i as int]);
                }
            }
            return false;
        }
    }
    proof {
        assert(normal_lines(output@) =~= normal_lines(answer@));
    }
    true
}

proof fn lemma_kept_lines_bound(lines: Seq<String>)
    ensures
        kept_lines(lines) <= lines.len(),
    decreases lines.len(),
{
    if lines.len() > 0 {
        lemma_kept_lines_bound(lines.drop_last());
    }
}

fn clone_indices(v: &Vec<usize>) -> (r: Vec<usize>)
    ensures
        r@ == v@,
{
    let r = v.clone();
    assert(r@ =~= v@);
    r
}

fn case_output_path(dir: &String, k: usize) -> (r: String)
    ensures
        r@ == case_output(dir@, k as nat),
{
    let mut r = dir.clone();
    r.append("/test_");
    push_decimal(&mut r, k as u64);
    r.append(".out");
    r
}

/// Each case of `p` in a group of its own, see [`single_groups`].
fn single_case_groups(p: &Problem) -> (r: Vec<Vec<u64>>)
    ensures
        r@.map_values(|g: Vec<u64>| g@) == single_groups(p@),
{
    let n = p.cases.len();
    let mut r: Vec<Vec<u64>> = Vec::new();
    for i in 0..n
        invariant
            n == p.cases@.len(),
            r@.len() == i,
            forall|k: int| 0 <= k < i ==> (#[trigger] r@[k])@ == seq![(k + 1) as u64],
    {
        let g = vec![i as u64 + 1];
        assert(g@ =~= seq![(i + 1) as u64]);
        r.push(g);
    }
    assert(r@.map_values(|g: Vec<u64>| g@) =~= single_groups(p@));
    r
}

/// The groups a problem is judged in, see [`groups_of`].
pub fn problem_groups(p: &Problem) -> (r: Vec<Vec<u64>>)
    ensures
        r@.map_values(|g: Vec<u64>| g@) == groups_of(p@),
{
    match &p.misc {
        Some(m) => match &m.packing {
            Some(g) => crate::config::clone_groups(g),
            None => single_case_groups(p),
        },
        None => single_case_groups(p),
    }
}

impl Evaluation {
    /// Starts judging `task` in the working directory `dir`.
    pub fn new(task: Task, dir: String) -> (r: Evaluation)
        ensures
            r.task == task,
            r.dir == dir,
            r.phase == Phase::Start,
            r.groups@.len() == 0,
            r.group == 0,
            r.pos == 0,
            !r.compilation_error,
            !r.task_error,
            r.group_ok,
            r.group_cases@.len() == 0,
            task.cases@.len() >= 1 ==> forall|p: EvaluateParaView| #[trigger] eval_wf(r@, p),
    {
        Evaluation {
            task,
            phase: Phase::Start,
            dir,
            groups: Vec::new(),
            group: 0,
            pos: 0,
            compilation_error: false,
            task_error: false,
            group_ok: true,
            group_cases: Vec::new(),
        }
    }

    /// The case number being judged.
    fn current_case(&self, Ghost(p): Ghost<EvaluateParaView>) -> (id: usize)
        requires
            eval_wf(self@, p),
            self.phase == Phase::Running || self.phase == Phase::Comparing || self.phase
                == Phase::Diffing || self.phase == Phase::Judging || self.phase == Phase::NextCase,
            self.pos < self.groups@[self.group as int]@.len(),
            current_id(self@) < self.task.cases@.len(),
        ensures
            id as int == current_id(self@),
            self.pos < self.groups@[self.group as int]@.len(),
            self.pos < usize::MAX,
    {
        let g = &self.groups[self.group];
        let n = g.len();
        let v = g[self.pos];
        let nc = self.task.cases.len();
        proof {
            let gs = self@.groups;
            assert(gs[self.group as int] == self.groups@[self.group as int]@);
            assert(gs[self.group as int][self.pos as int] < self.task.cases@.len());
        }
        assert(v < nc);
        let id = v as usize;
        assert(id as int == v as int);
        id
    }

    fn set_case_result(&mut self, i: usize, r: Result)
        requires
            i < old(self).task.cases@.len(),
        ensures
            final(self)@ == (EvaluationView { task: with_case_result(old(self)@.task, i as int, r), ..old(self)@ }),
    {
        let mut c = self.task.cases[i].clone();
        c.result = r;
        let ghost before = self.task.cases@;
        self.task.cases.set(i, c);
        assert(self.task.cases@ =~= before.update(i as int, Case { result: r, ..before[i as int] }));
    }

    fn set_case_time(&mut self, i: usize, micros: u64)
        requires
            i < old(self).task.cases@.len(),
        ensures
            final(self)@ == (EvaluationView { task: with_case_time(old(self)@.task, i as int, micros), ..old(self)@ }),
    {
        let mut c = self.task.cases[i].clone();
        c.time = micros;
        let ghost before = self.task.cases@;
        self.task.cases.set(i, c);
        assert(self.task.cases@ =~= before.update(i as int, Case { time: micros, ..before[i as int] }));
    }

    fn set_case_info(&mut self, i: usize, info: String)
        requires
            i < old(self).task.cases@.len(),
        ensures
            final(self)@ == (EvaluationView { task: with_case_info(old(self)@.task, i as int, info), ..old(self)@ }),
    {
        let mut c = self.task.cases[i].clone();
        c.info = info;
        let ghost before = self.task.cases@;
        self.task.cases.set(i, c);
        assert(self.task.cases@ =~= before.update(i as int, Case { info: info, ..before[i as int] }));
    }

    fn fail_case(&mut self, id: usize, r: Result)
        requires
            id < old(self).task.cases@.len(),
            old(self).pos < usize::MAX,
        ensures
            final(self)@ == fail_case(old(self)@, old(self)@.task, id as int, r),
    {
        self.set_case_result(id, r);
        if !self.task_error {
            self.task.result = r;
        }
        self.group_ok = false;
        self.task_error = true;
        self.pos = self.pos + 1;
        self.phase = Phase::NextCase;
    }

    fn accept_case(&mut self, id: usize, k: usize)
        requires
            id < old(self).task.cases@.len(),
            old(self).pos < usize::MAX,
        ensures
            final(self)@ == accept_case(old(self)@, old(self)@.task, id as int, k),
    {
        self.set_case_result(id, Result::Accepted);
        self.group_cases.push(k);
        self.pos = self.pos + 1;
        self.phase = Phase::NextCase;
    }

    fn fail_all(&mut self)
        ensures
            final(self)@ == fail_all(old(self)@),
    {
        let ghost before = self.task.cases@;
        let mut cases: Vec<Case> = Vec::new();
        for i in 0..self.task.cases.len()
            invariant
                self.task.cases@ == before,
                cases@.len() == i,
                forall|k: int| 0 <= k < i ==> #[trigger] cases@[k] == (Case { result: Result::SystemError, ..before[k] }),
        {
            let mut c = self.task.cases[i].clone();
            c.result = Result::SystemError;
            cases.push(c);
        }
        assert(cases@ =~= before.map_values(|c: Case| Case { result: Result::SystemError, ..c }));
        self.task.cases = cases;
        self.task.state = State::Finished;
        self.task.result = Result::SystemError;
        self.phase = Phase::Done;
    }

    /// Whether [`Evaluation::step`] can be taken on `event`, see [`step_defined`].
    pub fn step_is_defined(&self, para: &EvaluatePara, event: &EvalEvent) -> (r: bool)
        requires
            eval_wf(self@, para@),
        ensures
            r == step_defined(self@, para@, event@),
    {
        let fits = match (self.phase, event) {
            (Phase::Start, EvalEvent::Proceed) => true,
            (Phase::NextGroup, EvalEvent::Proceed) => true,
            (Phase::NextCase, EvalEvent::Proceed) => true,
            (Phase::Done, EvalEvent::Proceed) => true,
            (Phase::MakingDir, EvalEvent::DirMade { .. }) => true,
            (Phase::WritingSource, EvalEvent::SourceWritten { .. }) => true,
            (Phase::Compiling, EvalEvent::Compiled { started, code, .. }) => !*started || code.is_some(),
            (Phase::Running, EvalEvent::Ran { .. }) => true,
            (Phase::Comparing, EvalEvent::LinesRead { .. }) => true,
            (Phase::Diffing, EvalEvent::Diffed { started, code }) => !*started || code.is_some(),
            (Phase::Judging, EvalEvent::Judged { .. }) => true,
            (Phase::AddingScore, EvalEvent::ScoreAdded { .. }) => true,
            (Phase::CleaningUp, EvalEvent::CleanedUp { .. }) => true,
            _ => false,
        };
        if !fits {
            return false;
        }
        match self.phase {
            Phase::NextCase => {
                let g = &self.groups[self.group];
                proof {
                    assert(self@.groups[self.group as int] == self.groups@[self.group as int]@);
                }
                if self.pos < g.len() {
                    let id = g[self.pos];
                    if id >= self.task.cases.len() as u64 {
                        return false;
                    }
                    if self.group_ok && (id < 1 || id - 1 >= para.problem.cases.len() as u64) {
                        return false;
                    }
                }
                true
            },
            Phase::Diffing => match event {
                EvalEvent::Diffed { started, code } => match code {
                    Some(c) => !*started || *c != 0 || self.pos < para.problem.cases.len(),
                    None => true,
                },
                _ => true,
            },
            _ => true,
        }
    }

    /// Takes one step on `event`, the answer to the previous action, and gives
    /// the next action (see [`next`]).
    pub fn step(&mut self, para: &EvaluatePara, event: EvalEvent) -> (a: EvalAction)
        requires
            eval_wf(old(self)@, para@),
            step_defined(old(self)@, para@, event@),
        ensures
            step_post(old(self)@, final(self)@, para@, event@, a@),
    {
        match self.phase {
            Phase::Start => self.on_start(para),
            Phase::MakingDir => self.on_dir_made(para, event),
            Phase::WritingSource => self.on_source_written(para, event),
            Phase::Compiling => self.on_compiled(para, event),
            Phase::NextGroup => self.on_next_group(para),
            Phase::NextCase => self.on_next_case(para),
            Phase::Running => self.on_ran(para, event),
            Phase::Comparing => self.on_lines_read(para, event),
            Phase::Diffing => self.on_diffed(para, event),
            Phase::Judging => self.on_judged(para, event),
            Phase::AddingScore => self.on_score_added(para, event),
            Phase::CleaningUp => self.on_cleaned_up(para, event),
            Phase::Done => EvalAction::Stop,
        }
    }

    fn on_start(&mut self, para: &EvaluatePara) -> (a: EvalAction)
        requires
            eval_wf(old(self)@, para@),
            old(self).phase == Phase::Start,
        ensures
            step_post(old(self)@, final(self)@, para@, EventView::Proceed, a@),
    {
        self.task.state = State::Running;
        self.task.result = Result::Running;
        self.phase = Phase::MakingDir;
        EvalAction::MakeDir(self.dir.clone())
    }

    fn on_dir_made(&mut self, para: &EvaluatePara, event: EvalEvent) -> (a: EvalAction)
        requires
            eval_wf(old(self)@, para@),
            old(self).phase == Phase::MakingDir,
            step_defined(old(self)@, para@, event@),
        ensures
            step_post(old(self)@, final(self)@, para@, event@, a@),
    {
        let ok = match event {
            EvalEvent::DirMade { ok } => ok,
            _ => false,
        };
        if ok {
            self.phase = Phase::WritingSource;
            EvalAction::WriteSource(
                crate::text::join3(self.dir.as_str(), "/", para.language.file_name.as_str()),
            )
        } else {
            self.fail_all();
            EvalAction::Stop
        }
    }

    fn on_source_written(&mut self, para: &EvaluatePara, event: EvalEvent) -> (a: EvalAction)
        requires
            eval_wf(old(self)@, para@),
            old(self).phase == Phase::WritingSource,
            step_defined(old(self)@, para@, event@),
        ensures
            step_post(old(self)@, final(self)@, para@, event@, a@),
    {
        let ok = match event {
            EvalEvent::SourceWritten { ok } => ok,
            _ => false,
        };
        if ok {
            self.set_case_result(0, Result::Running);
            self.phase = Phase::Compiling;
            let source = crate::text::join3(self.dir.as_str(), "/", para.language.file_name.as_str());
            let program = crate::text::join2(self.dir.as_str(), "/temp");
            EvalAction::Compile(
                substitute_command(&para.language.command, "%INPUT%", &source, "%OUTPUT%", &program),
            )
        } else {
            self.fail_all();
            EvalAction::Stop
        }
    }

    fn on_compiled(&mut self, para: &EvaluatePara, event: EvalEvent) -> (a: EvalAction)
        requires
            eval_wf(old(self)@, para@),
            old(self).phase == Phase::Compiling,
            step_defined(old(self)@, para@, event@),
        ensures
            step_post(old(self)@, final(self)@, para@, event@, a@),
    {
        let (started, code, micros) = match event {
            EvalEvent::Compiled { started, code, micros } => (started, code, micros),
            _ => (false, None, 0),
        };
        if !started {
            self.task.result = Result::SystemError;
            self.task.state = State::Finished;
            self.phase = Phase::Done;
            return EvalAction::Stop;
        }
        let code = code.unwrap();
        if code == 0 {
            self.set_case_result(0, Result::CompilationSuccess);
        } else if code == 1 {
            self.set_case_result(0, Result::CompilationError);
            self.task.result = Result::CompilationError;
            self.compilation_error = true;
            self.task_error = true;
        }
        self.set_case_time(0, micros);
        self.groups = problem_groups(&para.problem);
        self.group = 0;
        self.phase = Phase::NextGroup;
        EvalAction::Proceed
    }

    fn on_next_group(&mut self, para: &EvaluatePara) -> (a: EvalAction)
        requires
            eval_wf(old(self)@, para@),
            old(self).phase == Phase::NextGroup,
        ensures
            step_post(old(self)@, final(self)@, para@, EventView::Proceed, a@),
    {
        let n_groups = self.groups.len();
        if self.group >= n_groups {
            self.phase = Phase::CleaningUp;
            EvalAction::CleanUp(self.dir.clone())
        } else if self.compilation_error {
            self.group = self.group + 1;
            EvalAction::Proceed
        } else {
            self.group_ok = true;
            self.group_cases = Vec::new();
            self.pos = 0;
            self.phase = Phase::NextCase;
            EvalAction::Proceed
        }
    }

    fn on_next_case(&mut self, para: &EvaluatePara) -> (a: EvalAction)
        requires
            eval_wf(old(self)@, para@),
            old(self).phase == Phase::NextCase,
            step_defined(old(self)@, para@, EventView::Proceed),
        ensures
            step_post(old(self)@, final(self)@, para@, EventView::Proceed, a@),
    {
        let n_groups = self.groups.len();
        let g = self.group;
        let n = self.groups[g].len();
        proof {
            assert(self@.groups[g as int] == self.groups@[g as int]@);
        }
        if self.pos >= n {
            if self.group_ok {
                self.phase = Phase::AddingScore;
                EvalAction::AddScore(clone_indices(&self.group_cases))
            } else {
                self.group = self.group + 1;
                self.phase = Phase::NextGroup;
                EvalAction::Proceed
            }
        } else {
            let id = self.current_case(Ghost(para@));
            if !self.group_ok {
                self.set_case_result(id, Result::Skipped);
                self.pos = self.pos + 1;
                EvalAction::Proceed
            } else {
                self.set_case_result(id, Result::Running);
                self.phase = Phase::Running;
                let c = &para.problem.cases[id - 1];
                EvalAction::Run {
                    program: crate::text::join3("./", self.dir.as_str(), "/temp"),
                    input: c.input_file.clone(),
                    output: case_output_path(&self.dir, id - 1),
                    time_limit: c.time_limit,
                }
            }
        }
    }

    fn on_ran(&mut self, para: &EvaluatePara, event: EvalEvent) -> (a: EvalAction)
        requires
            eval_wf(old(self)@, para@),
            old(self).phase == Phase::Running,
            step_defined(old(self)@, para@, event@),
        ensures
            step_post(old(self)@, final(self)@, para@, event@, a@),
    {
        let id = self.current_case(Ghost(para@));
        let (started, timed_out, status, micros) = match event {
            EvalEvent::Ran { started, timed_out, status, micros } => (started, timed_out, status, micros),
            _ => (false, false, None, 0),
        };
        if !started {
            self.fail_case(id, Result::SystemError);
            return EvalAction::Proceed;
        }
        self.set_case_time(id, micros);
        if timed_out {
            self.fail_case(id, Result::TimeLimitExceeded);
            return EvalAction::Proceed;
        }
        match status {
            None => {
                self.fail_case(id, Result::RuntimeError);
                EvalAction::Proceed
            },
            Some(s) => {
                if s != 0 {
                    self.fail_case(id, Result::RuntimeError);
                    return EvalAction::Proceed;
                }
                let c = &para.problem.cases[id - 1];
                let out = case_output_path(&self.dir, id - 1);
                match para.problem.ty {
                    ProblemType::Standard => {
                        self.phase = Phase::Comparing;
                        EvalAction::ReadLines { output: out, answer: c.answer_file.clone() }
                    },
                    ProblemType::Strict => {
                        self.phase = Phase::Diffing;
                        EvalAction::Diff { output: out, answer: c.answer_file.clone() }
                    },
                    ProblemType::Spj => {
                        match &para.problem.misc {
                            Some(m) => match &m.special_judge {
                                Some(cmd) => {
                                    self.phase = Phase::Judging;
                                    let command = substitute_command(
                                        cmd,
                                        "%ANSWER%",
                                        &c.answer_file,
                                        "%OUTPUT%",
                                        &out,
                                    );
                                    EvalAction::SpecialJudge {
                                        command,
                                        outcome: crate::text::join2(self.dir.as_str(), "/outcome.txt"),
                                    }
                                },
                                None => {
                                    self.fail_case(id, Result::SystemError);
                                    EvalAction::Proceed
                                },
                            },
                            None => {
                                self.fail_case(id, Result::SystemError);
                                EvalAction::Proceed
                            },
                        }
                    },
                    ProblemType::DynamicRanking => {
                        self.pos = self.pos + 1;
                        self.phase = Phase::NextCase;
                        EvalAction::Proceed
                    },
                }
            },
        }
    }

    fn on_lines_read(&mut self, para: &EvaluatePara, event: EvalEvent) -> (a: EvalAction)
        requires
            eval_wf(old(self)@, para@),
            old(self).phase == Phase::Comparing,
            step_defined(old(self)@, para@, event@),
        ensures
            step_post(old(self)@, final(self)@, para@, event@, a@),
    {
        let id = self.current_case(Ghost(para@));
        let (output, answer) = match event {
            EvalEvent::LinesRead { output, answer } => (output, answer),
            _ => (Vec::new(), Vec::new()),
        };
        if lines_match(&output, &answer) {
            self.accept_case(id, id - 1);
        } else {
            self.fail_case(id, Result::WrongAnswer);
        }
        EvalAction::Proceed
    }

    fn on_diffed(&mut self, para: &EvaluatePara, event: EvalEvent) -> (a: EvalAction)
        requires
            eval_wf(old(self)@, para@),
            old(self).phase == Phase::Diffing,
            step_defined(old(self)@, para@, event@),
        ensures
            step_post(old(self)@, final(self)@, para@, event@, a@),
    {
        let id = self.current_case(Ghost(para@));
        let (started, code) = match event {
            EvalEvent::Diffed { started, code } => (started, code),
            _ => (false, None),
        };
        if !started {
            self.fail_case(id, Result::SystemError);
        } else if code.unwrap() == 0 {
            let k = self.pos;
            self.accept_case(id, k);
        } else {
            self.fail_case(id, Result::WrongAnswer);
        }
        EvalAction::Proceed
    }

    fn on_judged(&mut self, para: &EvaluatePara, event: EvalEvent) -> (a: EvalAction)
        requires
            eval_wf(old(self)@, para@),
            old(self).phase == Phase::Judging,
            step_defined(old(self)@, para@, event@),
        ensures
            step_post(old(self)@, final(self)@, para@, event@, a@),
    {
        let id = self.current_case(Ghost(para@));
        let (started, outcome) = match event {
            EvalEvent::Judged { started, outcome } => (started, outcome),
            _ => (false, None),
        };
        match outcome {
            Some(lines) => {
                if started && lines.len() == 2 {
                    let mut lines = lines;
                    let info = lines.remove(1);
                    let accepted = lines[0] == String::from_str("Accepted");
                    self.set_case_info(id, info);
                    if accepted {
                        self.accept_case(id, id - 1);
                    } else {
                        self.fail_case(id, Result::WrongAnswer);
                    }
                } else {
                    self.fail_case(id, Result::SPJError);
                }
            },
            None => {
                self.fail_case(id, Result::SPJError);
            },
        }
        EvalAction::Proceed
    }

    fn on_score_added(&mut self, para: &EvaluatePara, event: EvalEvent) -> (a: EvalAction)
        requires
            eval_wf(old(self)@, para@),
            old(self).phase == Phase::AddingScore,
            step_defined(old(self)@, para@, event@),
        ensures
            step_post(old(self)@, final(self)@, para@, event@, a@),
    {
        let n_groups = self.groups.len();
        let score_bits = match event {
            EvalEvent::ScoreAdded { score_bits } => score_bits,
            _ => 0,
        };
        self.task.score_bits = score_bits;
        self.group = self.group + 1;
        self.phase = Phase::NextGroup;
        EvalAction::Proceed
    }

    fn on_cleaned_up(&mut self, para: &EvaluatePara, event: EvalEvent) -> (a: EvalAction)
        requires
            eval_wf(old(self)@, para@),
            old(self).phase == Phase::CleaningUp,
            step_defined(old(self)@, para@, event@),
        ensures
            step_post(old(self)@, final(self)@, para@, event@, a@),
    {
        let now = match event {
            EvalEvent::CleanedUp { now } => now,
            _ => String::new(),
        };
        self.task.updated_time = now;
        self.task.state = State::Finished;
        if self.task.result == Result::Running {
            self.task.result = Result::Accepted;
        }
        self.phase = Phase::Done;
        EvalAction::Stop
    }
}

/// Once judging is done, the job is in state `Finished` with a result other than `Waiting` and `Running`.
pub proof fn judged_job_is_settled(v: EvaluationView, p: EvaluateParaView)
    requires
        eval_wf(v, p),
        v.phase == Phase::Done,
    ensures
        v.task.state == State::Finished,
        v.task.result != Result::Waiting,
        v.task.result != Result::Running,
{
}

/// Once judged, a job stays as it is.
pub proof fn judged_job_stays(v: EvaluationView, p: EvaluateParaView, e: EventView)
    requires
        v.phase == Phase::Done,
    ensures
        next(v, p, e) == (v, ActionView::Stop),
{
}

/// How much of the judging is left, read from left to right: the stage (before
/// compiling, judging the groups, cleaning up, done), the groups left, whether a
/// group is about to start, the cases left in the group, and the step within a case.
pub open spec fn remaining_work(v: EvaluationView) -> (int, int, int, int, int) {
    let in_groups = match v.phase {
        Phase::NextGroup | Phase::NextCase | Phase::Running | Phase::Comparing | Phase::Diffing
        | Phase::Judging | Phase::AddingScore => true,
        _ => false,
    };
    let stage = match v.phase {
        Phase::Start => 6int,
        Phase::MakingDir => 5,
        Phase::WritingSource => 4,
        Phase::Compiling => 3,
        Phase::CleaningUp => 1,
        Phase::Done => 0,
        _ => 2,
    };
    let groups_left = if in_groups { v.groups.len() - v.group } else { 0 };
    let starting = if v.phase == Phase::NextGroup { 1int } else { 0 };
    let cases_left = if in_groups && v.phase != Phase::NextGroup && v.phase != Phase::AddingScore {
        v.groups[v.group].len() - v.pos
    } else {
        0
    };
    let case_step = match v.phase {
        Phase::NextCase => 2int,
        Phase::Running => 1,
        _ => 0,
    };
    (stage, groups_left, starting, cases_left, case_step)
}

/// `a` comes strictly before `b`, comparing from the left.
pub open spec fn lex_lt(a: (int, int, int, int, int), b: (int, int, int, int, int)) -> bool {
    ||| a.0 < b.0
    ||| a.0 == b.0 && a.1 < b.1
    ||| a.0 == b.0 && a.1 == b.1 && a.2 < b.2
    ||| a.0 == b.0 && a.1 == b.1 && a.2 == b.2 && a.3 < b.3
    ||| a.0 == b.0 && a.1 == b.1 && a.2 == b.2 && a.3 == b.3 && a.4 < b.4
}

/// Judging a job always ends: the work left is never negative, and every step
/// from a state that is not done leaves strictly less of it.
pub proof fn judging_progresses(v: EvaluationView, p: EvaluateParaView, e: EventView)
    requires
        eval_wf(v, p),
        step_defined(v, p, e),
    ensures
        remaining_work(v).0 >= 0,
        remaining_work(v).1 >= 0,
        remaining_work(v).2 >= 0,
        remaining_work(v).3 >= 0,
        remaining_work(v).4 >= 0,
        v.phase != Phase::Done ==> lex_lt(remaining_work(next(v, p, e).0), remaining_work(v)),
{
}

/// A special judge's two-line outcome decides the case by its first line: the
/// case is accepted exactly when that line is `Accepted`, and is otherwise a
/// wrong answer; the second line becomes the case's information. Only a wrong
/// answer fails the group, and it becomes the job's result unless the job
/// already has an erroneous case; only an accepted case adds its score.
pub proof fn special_judge_decides_by_first_line(
    old: EvaluationView,
    new: EvaluationView,
    p: EvaluateParaView,
    lines: Seq<String>,
    a: ActionView,
)
    requires
        eval_wf(old, p),
        old.phase == Phase::Judging,
        lines.len() == 2,
        step_post(old, new, p, EventView::Judged { started: true, outcome: Some(lines) }, a),
    ensures
        ({
            let id = current_id(old);
            let accepted = lines[0]@ == "Accepted"@;
            &&& new.task.cases[id].result == if accepted {
                Result::Accepted
            } else {
                Result::WrongAnswer
            }
            &&& new.task.cases[id].info == lines[1]
            &&& new.task.result == if accepted || old.task_error {
                old.task.result
            } else {
                Result::WrongAnswer
            }
            &&& new.group_ok == (old.group_ok && accepted)
            &&& new.group_cases == if accepted {
                old.group_cases.push((id - 1) as usize)
            } else {
                old.group_cases
            }
            &&& new.pos == old.pos + 1
            &&& new.phase == Phase::NextCase
        }),
{
}

/// Line `i` of `lines` as compared: with its trailing whitespace cut, and empty
/// past the last line.
pub open spec fn padded_line(lines: Seq<String>, i: int) -> Seq<char> {
    if 0 <= i < lines.len() {
        trim_end(lines[i]@)
    } else {
        Seq::empty()
    }
}

proof fn lemma_kept_lines(lines: Seq<String>)
    ensures
        kept_lines(lines) <= lines.len(),
        forall|i: int| kept_lines(lines) <= i < lines.len() ==> trim_end((#[trigger] lines[i])@).len() == 0,
        kept_lines(lines) > 0 ==> trim_end(lines[kept_lines(lines) - 1]@).len() > 0,
    decreases lines.len(),
{
    if lines.len() > 0 {
        lemma_kept_lines(lines.drop_last());
        assert forall|i: int| kept_lines(lines) <= i < lines.len() implies trim_end(
            (#[trigger] lines[i])@,
        ).len() == 0 by {
            if i < lines.len() - 1 {
                assert(lines[i] == lines.drop_last()[i]);
            }
        }
        if trim_end(lines.last()@).len() == 0 && kept_lines(lines) > 0 {
            assert(lines[kept_lines(lines) - 1] == lines.drop_last()[kept_lines(lines) - 1]);
        }
    }
}

/// Output and answer agree exactly when they agree line by line, each line with
/// its trailing whitespace cut, the shorter one read as going on with empty
/// lines: so they must keep the same number of lines once trailing blank lines
/// are dropped, and each kept line must match.
pub proof fn lines_agree_line_by_line(output: Seq<String>, answer: Seq<String>)
    ensures
        lines_agree(output, answer) <==> forall|i: int|
            0 <= i ==> #[trigger] padded_line(output, i) == padded_line(answer, i),
        lines_agree(output, answer) ==> kept_lines(output) == kept_lines(answer),
{
    lemma_kept_lines(output);
    lemma_kept_lines(answer);
    let n = kept_lines(output);
    let m = kept_lines(answer);
    if lines_agree(output, answer) {
        assert(normal_lines(output).len() == normal_lines(answer).len());
        assert forall|i: int| 0 <= i implies #[trigger] padded_line(output, i) == padded_line(answer, i) by {
            if i < n {
                assert(normal_lines(output)[i] == normal_lines(answer)[i]);
            } else {
                if i < output.len() {
                    assert(trim_end(output[i]@).len() == 0);
                }
                if i < answer.len() {
                    assert(trim_end(answer[i]@).len() == 0);
                }
            }
        }
    }
    if forall|i: int| 0 <= i ==> #[trigger] padded_line(output, i) == padded_line(answer, i) {
        if n > m {
            assert(padded_line(output, n - 1) == padded_line(answer, n - 1));
            if n - 1 < answer.len() {
                assert(trim_end(answer[n - 1]@).len() == 0);
            }
            assert(false);
        }
        if m > n {
            assert(padded_line(output, m - 1) == padded_line(answer, m - 1));
            if m - 1 < output.len() {
                assert(trim_end(output[m - 1]@).len() == 0);
            }
            assert(false);
        }
        assert forall|i: int| 0 <= i < n implies normal_lines(output)[i] == normal_lines(answer)[i] by {
            assert(padded_line(output, i) == padded_line(answer, i));
        }
        assert(normal_lines(output) =~= normal_lines(answer));
    }
}

/// A standard comparison accepts the case exactly when output and answer agree
/// line by line (see [`lines_agree_line_by_line`]), and is otherwise a wrong answer.
pub proof fn standard_comparison_decides_by_lines(
    old: EvaluationView,
    new: EvaluationView,
    p: EvaluateParaView,
    output: Seq<String>,
    answer: Seq<String>,
    a: ActionView,
)
    requires
        eval_wf(old, p),
        old.phase == Phase::Comparing,
        step_post(old, new, p, EventView::LinesRead { output, answer }, a),
    ensures
        ({
            let agree = forall|i: int| 0 <= i ==> #[trigger] padded_line(output, i) == padded_line(answer, i);
            &&& new.task.cases[current_id(old)].result == if agree {
                Result::Accepted
            } else {
                Result::WrongAnswer
            }
            &&& new.group_ok == (old.group_ok && agree)
        }),
{
    lines_agree_line_by_line(output, answer);
}

/// The job's request with its problem given settings that name no packing, no
/// special judge and no ranking ratio.
pub open spec fn with_empty_settings(p: EvaluateParaView) -> EvaluateParaView {
    EvaluateParaView {
        problem: ProblemView {
            misc: Some(MiscView { packing: None, special_judge: None, dynamic_ranking_ratio_bits: None }),
            ..p.problem
        },
        ..p
    }
}

/// A problem without settings is judged as one whose settings are empty: each
/// case in a group of its own, and every step of the machine the same.
pub proof fn no_settings_judged_as_empty_settings(v: EvaluationView, p: EvaluateParaView, e: EventView)
    requires
        p.problem.misc is None,
    ensures
        groups_of(p.problem) == groups_of(with_empty_settings(p).problem),
        groups_of(p.problem) == single_groups(p.problem),
        next(v, p, e) == next(v, with_empty_settings(p), e),
        eval_wf(v, p) == eval_wf(v, with_empty_settings(p)),
        step_defined(v, p, e) == step_defined(v, with_empty_settings(p), e),
{
    let q = with_empty_settings(p);
    assert(single_groups(p.problem) =~= single_groups(q.problem));
}

/// The worker judges a job it takes from the queue: one that is still queueing.
pub open spec fn judged_by_worker(state: State) -> bool {
    state == State::Queueing
}

/// A job that [`crate::jobs::delete_jobs`] cancelled is skipped by the worker:
/// [`should_evaluate`] answers false for the job at its place.
pub proof fn cancelled_job_is_not_judged(
    old_jobs: Seq<Task>,
    new_jobs: Seq<Task>,
    job_id: usize,
    res: std::result::Result<(), crate::types::Error>,
)
    requires
        crate::jobs::cancel_outcome(old_jobs, new_jobs, job_id, res),
        res is Ok,
    ensures
        job_id < new_jobs.len(),
        !judged_by_worker(new_jobs[job_id as int].state),
{
}

/// A job that [`crate::jobs::put_jobs_by_id`] queued again is judged by the
/// worker: at the place its queued request names, [`should_evaluate`] answers true.
pub proof fn requeued_job_is_judged(
    old_jobs: Seq<Task>,
    new_jobs: Seq<Task>,
    config: crate::config::Config,
    id: usize,
    res: std::result::Result<(Task, EvaluatePara), crate::types::Error>,
)
    requires
        crate::jobs::requeue_outcome(old_jobs, new_jobs, config, id, res),
        res is Ok,
    ensures
        res->Ok_0.1.index < new_jobs.len(),
        judged_by_worker(new_jobs[res->Ok_0.1.index as int].state),
{
}

/// A job that [`crate::jobs::post_jobs_at`] submitted is judged by the worker:
/// at the place its queued request names, [`should_evaluate`] answers true.
pub proof fn submitted_job_is_judged(
    old_jobs: Seq<Task>,
    new_jobs: Seq<Task>,
    users: Seq<crate::types::User>,
    contests: Seq<crate::types::Contest>,
    config: crate::config::Config,
    item: crate::types::Submission,
    now: Seq<char>,
    res: std::result::Result<(Task, EvaluatePara), crate::types::Error>,
)
    requires
        crate::jobs::post_outcome(old_jobs, new_jobs, users, contests, config, item, now, res),
        old_jobs.len() < usize::MAX,
        res is Ok,
    ensures
        res->Ok_0.1.index < new_jobs.len(),
        judged_by_worker(new_jobs[res->Ok_0.1.index as int].state),
{
}

/// The worker judges a job it takes from the queue only while the job is still queueing.
pub fn should_evaluate(state: State) -> (r: bool)
    ensures
        r == judged_by_worker(state),
{
    state == State::Queueing
}

} // verus!
