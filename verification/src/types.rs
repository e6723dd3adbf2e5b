//! Jobs, users, contests and rank lists, with the error answer of the API.

use vstd::prelude::*;
use crate::config::{Language, LanguageView, Problem, ProblemView};

verus! {

/// Where a job is in its life.
#[derive(Clone, Copy, Debug, PartialEq, Eq, Structural)]
pub enum State {
    Queueing,
    Running,
    Finished,
    Canceled,
}

/// The verdict of a job or of one of its cases.
#[derive(Clone, Copy, Debug, PartialEq, Eq, Structural)]
pub enum Result {
    Waiting,
    Running,
    Accepted,
    CompilationError,
    CompilationSuccess,
    WrongAnswer,
    RuntimeError,
    TimeLimitExceeded,
    MemoryLimitExceeded,
    SystemError,
    SPJError,
    Skipped,
}

#[derive(Clone, Copy, Debug)]
pub struct T {
    pub num: i32,
}

pub struct MyObj {
    pub name: String,
    pub number: i32,
}

/// The body of every refused request.
pub struct Error {
    pub code: u64,
    pub reason: String,
    pub message: String,
}

/// One case of a job; case 0 is the compilation.
pub struct Case {
    pub id: u64,
    pub result: Result,
    pub time: u64,
    pub memory: u64,
    pub info: String,
}

/// What a user submits.
pub struct Submission {
    pub source_code: String,
    pub language: String,
    pub user_id: u64,
    pub contest_id: u64,
    pub problem_id: u64,
}

/// A judging job.
pub struct Task {
    pub id: usize,
    pub created_time: String,
    pub updated_time: String,
    pub submission: Submission,
    pub state: State,
    pub result: Result,
    /// The job's score, as the bits of an `f64`.
    pub score_bits: u64,
    pub cases: Vec<Case>,
}

/// A user: its id is its place in the user list.
pub struct User {
    pub id: Option<u64>,
    pub name: String,
}

/// Which of a user's jobs on a problem counts.
#[derive(Clone, Copy, Debug, PartialEq, Eq, Structural)]
pub enum ScoringRule {
    Latest,
    Highest,
}

/// How users with equal scores are ordered.
#[derive(Clone, Copy, Debug, PartialEq, Eq, Structural)]
pub enum TieBreaker {
    SubmissionTime,
    SubmissionCount,
    UserId,
}

/// The rules of a rank list.
#[derive(Clone, Copy, Debug)]
pub struct RankStandard {
    pub scoring_rule: Option<ScoringRule>,
    pub tie_breaker: Option<TieBreaker>,
}

/// One line of a rank list.
pub struct RankedUser {
    pub user: User,
    pub rank: u64,
    /// The score of each problem, as the bits of an `f64`.
    pub scores: Vec<u64>,
}

/// A user while a rank list is being built.
pub struct RankedUserTemp {
    pub user: User,
    pub rank: u64,
    /// The sum of the counted scores, as the bits of an `f64`.
    pub total_score_bits: u64,
    pub submission_time: u64,
    pub counted_task: Vec<Task>,
    pub latest_sub: String,
    pub total_sub: u64,
}

/// A contest; contest `k` is stored at place `k - 1`.
pub struct Contest {
    pub id: Option<u64>,
    pub name: String,
    pub from: String,
    pub to: String,
    pub problem_ids: Vec<u64>,
    pub user_ids: Vec<u64>,
    pub submission_limit: u64,
}

/// Everything the judging worker needs for one job.
pub struct EvaluatePara {
    pub language: Language,
    pub submission: Submission,
    pub problem: Problem,
    pub index: usize,
}

/// Plain view of a [`Task`].
#[verifier::ext_equal]
pub struct TaskView {
    pub id: usize,
    pub created_time: String,
    pub updated_time: String,
    pub submission: Submission,
    pub state: State,
    pub result: Result,
    pub score_bits: u64,
    pub cases: Seq<Case>,
}

/// Plain view of a [`Contest`].
pub struct ContestView {
    pub id: Option<u64>,
    pub name: String,
    pub from: String,
    pub to: String,
    pub problem_ids: Seq<u64>,
    pub user_ids: Seq<u64>,
    pub submission_limit: u64,
}

/// Plain view of a [`RankedUserTemp`].
pub struct RankedUserTempView {
    pub user: User,
    pub rank: u64,
    pub total_score_bits: u64,
    pub submission_time: u64,
    pub counted_task: Seq<TaskView>,
    pub latest_sub: String,
    pub total_sub: u64,
}

/// Plain view of a [`RankedUser`].
pub struct RankedUserView {
    pub user: User,
    pub rank: u64,
    pub scores: Seq<u64>,
}

/// Plain view of an [`EvaluatePara`].
pub struct EvaluateParaView {
    pub language: LanguageView,
    pub submission: Submission,
    pub problem: ProblemView,
    pub index: usize,
}

impl View for Task {
    type V = TaskView;

    open spec fn view(&self) -> TaskView {
        TaskView {
            id: self.id,
            created_time: self.created_time,
            updated_time: self.updated_time,
            submission: self.submission,
            state: self.state,
            result: self.result,
            score_bits: self.score_bits,
            cases: self.cases@,
        }
    }
}

impl DeepView for Task {
    type V = TaskView;

    open spec fn deep_view(&self) -> TaskView {
        self@
    }
}

impl View for Contest {
    type V = ContestView;

    open spec fn view(&self) -> ContestView {
        ContestView {
            id: self.id,
            name: self.name,
            from: self.from,
            to: self.to,
            problem_ids: self.problem_ids@,
            user_ids: self.user_ids@,
            submission_limit: self.submission_limit,
        }
    }
}

impl DeepView for Contest {
    type V = ContestView;

    open spec fn deep_view(&self) -> ContestView {
        self@
    }
}

impl View for RankedUserTemp {
    type V = RankedUserTempView;

    open spec fn view(&self) -> RankedUserTempView {
        RankedUserTempView {
            user: self.user,
            rank: self.rank,
            total_score_bits: self.total_score_bits,
            submission_time: self.submission_time,
            counted_task: self.counted_task.deep_view(),
            latest_sub: self.latest_sub,
            total_sub: self.total_sub,
        }
    }
}

impl DeepView for RankedUserTemp {
    type V = RankedUserTempView;

    open spec fn deep_view(&self) -> RankedUserTempView {
        self@
    }
}

impl View for RankedUser {
    type V = RankedUserView;

    open spec fn view(&self) -> RankedUserView {
        RankedUserView { user: self.user, rank: self.rank, scores: self.scores@ }
    }
}

impl DeepView for RankedUser {
    type V = RankedUserView;

    open spec fn deep_view(&self) -> RankedUserView {
        self@
    }
}

impl View for EvaluatePara {
    type V = EvaluateParaView;

    open spec fn view(&self) -> EvaluateParaView {
        EvaluateParaView {
            language: self.language@,
            submission: self.submission,
            problem: self.problem@,
            index: self.index,
        }
    }
}

impl Clone for Error {
    fn clone(&self) -> (res: Self)
        ensures
            res == *self,
    {
        Error { code: self.code, reason: self.reason.clone(), message: self.message.clone() }
    }
}

impl Clone for Case {
    fn clone(&self) -> (res: Self)
        ensures
            res == *self,
    {
        Case {
            id: self.id,
            result: self.result,
            time: self.time,
            memory: self.memory,
            info: self.info.clone(),
        }
    }
}

impl Clone for Submission {
    fn clone(&self) -> (res: Self)
        ensures
            res == *self,
    {
        Submission {
            source_code: self.source_code.clone(),
            language: self.language.clone(),
            user_id: self.user_id,
            contest_id: self.contest_id,
            problem_id: self.problem_id,
        }
    }
}

impl Clone for User {
    fn clone(&self) -> (res: Self)
        ensures
            res == *self,
    {
        User { id: self.id, name: self.name.clone() }
    }
}

impl Clone for Task {
    fn clone(&self) -> (res: Self)
        ensures
            res@ == self@,
    {
        let cases = self.cases.clone();
        assert(cases@ =~= self.cases@);
        Task {
            id: self.id,
            created_time: self.created_time.clone(),
            updated_time: self.updated_time.clone(),
            submission: self.submission.clone(),
            state: self.state,
            result: self.result,
            score_bits: self.score_bits,
            cases,
        }
    }
}

impl Clone for Contest {
    fn clone(&self) -> (res: Self)
        ensures
            res@ == self@,
    {
        Contest {
            id: self.id,
            name: self.name.clone(),
            from: self.from.clone(),
            to: self.to.clone(),
            problem_ids: crate::config::clone_numbers(&self.problem_ids),
            user_ids: crate::config::clone_numbers(&self.user_ids),
            submission_limit: self.submission_limit,
        }
    }
}

impl Clone for EvaluatePara {
    fn clone(&self) -> (res: Self)
        ensures
            res@ == self@,
    {
        EvaluatePara {
            language: self.language.clone(),
            submission: self.submission.clone(),
            problem: self.problem.clone(),
            index: self.index,
        }
    }
}

/// A copy of a list of jobs.
pub fn clone_tasks(v: &Vec<Task>) -> (r: Vec<Task>)
    ensures
        r.deep_view() == v.deep_view(),
{
    let mut r: Vec<Task> = Vec::new();
    for i in 0..v.len()
        invariant
            r@.len() == i,
            forall|k: int| 0 <= k < i ==> (#[trigger] r@[k])@ == v@[k]@,
    {
        r.push(v[i].clone());
    }
    assert(r.deep_view() =~= v.deep_view());
    r
}

impl Case {
    /// A fresh case: id 0, waiting, no time, no memory, no information.
    pub fn new() -> (r: Case)
        ensures
            r.id == 0,
            r.result == Result::Waiting,
            r.time == 0,
            r.memory == 0,
            r.info@ == Seq::<char>::empty(),
    {
        Case { id: 0, result: Result::Waiting, time: 0, memory: 0, info: String::new() }
    }
}

impl Submission {
    /// An empty submission: no code, no language, all ids 0.
    pub fn new() -> (r: Submission)
        ensures
            r.source_code@ == Seq::<char>::empty(),
            r.language@ == Seq::<char>::empty(),
            r.user_id == 0,
            r.contest_id == 0,
            r.problem_id == 0,
    {
        Submission {
            source_code: String::new(),
            language: String::new(),
            user_id: 0,
            contest_id: 0,
            problem_id: 0,
        }
    }
}

/// The submission that `Submission::new` gives.
pub open spec fn is_empty_submission(s: Submission) -> bool {
    &&& s.source_code@ == Seq::<char>::empty()
    &&& s.language@ == Seq::<char>::empty()
    &&& s.user_id == 0
    &&& s.contest_id == 0
    &&& s.problem_id == 0
}

/// The job that `Task::new` gives.
pub open spec fn is_new_task(t: TaskView) -> bool {
    &&& t.id == 0
    &&& t.created_time@ == Seq::<char>::empty()
    &&& t.updated_time@ == Seq::<char>::empty()
    &&& is_empty_submission(t.submission)
    &&& t.state == State::Queueing
    &&& t.result == Result::Waiting
    &&& t.score_bits == 0
    &&& t.cases == Seq::<Case>::empty()
}

impl Task {
    /// A fresh job: queueing, waiting, score 0.0, no cases.
    pub fn new() -> (r: Task)
        ensures
            is_new_task(r@),
    {
        Task {
            id: 0,
            created_time: String::new(),
            updated_time: String::new(),
            submission: Submission::new(),
            state: State::Queueing,
            result: Result::Waiting,
            score_bits: 0,
            cases: Vec::new(),
        }
    }
}

impl User {
    /// A user without id or name.
    pub fn new() -> (r: Self)
        ensures
            r.id is None,
            r.name@ == Seq::<char>::empty(),
    {
        User { id: None, name: String::new() }
    }
}

impl RankStandard {
    /// The default rules: the latest job counts, no tie breaker.
    pub fn new() -> (r: Self)
        ensures
            r.scoring_rule == Some(ScoringRule::Latest),
            r.tie_breaker is None,
    {
        RankStandard { scoring_rule: Some(ScoringRule::Latest), tie_breaker: None }
    }
}

/// The time a user without submissions starts with.
pub open spec fn epoch_time() -> Seq<char> {
    "1970-01-01T00:00:00.000Z"@
}

impl RankedUserTemp {
    /// A user with nothing counted yet.
    pub fn new() -> (r: Self)
        ensures
            r.user.id is None,
            r.user.name@ == Seq::<char>::empty(),
            r.rank == 0,
            r.total_score_bits == 0,
            r.submission_time == 0,
            r.counted_task@ == Seq::<Task>::empty(),
            r.latest_sub@ == epoch_time(),
            r.total_sub == 0,
    {
        RankedUserTemp {
            user: User::new(),
            rank: 0,
            total_score_bits: 0,
            submission_time: 0,
            counted_task: Vec::new(),
            latest_sub: String::from_str("1970-01-01T00:00:00.000Z"),
            total_sub: 0,
        }
    }
}

impl Contest {
    /// An empty contest: no id, names or times, no problems or users, no limit.
    pub fn new() -> (r: Self)
        ensures
            r.id is None,
            r.name@ == Seq::<char>::empty(),
            r.from@ == Seq::<char>::empty(),
            r.to@ == Seq::<char>::empty(),
            r.problem_ids@ == Seq::<u64>::empty(),
            r.user_ids@ == Seq::<u64>::empty(),
            r.submission_limit == 0,
    {
        Contest {
            id: None,
            name: String::new(),
            from: String::new(),
            to: String::new(),
            problem_ids: Vec::new(),
            user_ids: Vec::new(),
            submission_limit: 0,
        }
    }
}

/// `e` has the given code, reason and message.
pub open spec fn error_is(e: Error, code: u64, reason: Seq<char>, message: Seq<char>) -> bool {
    &&& e.code == code
    &&& e.reason@ == reason
    &&& e.message@ == message
}

/// Reason of a malformed or unacceptable request (code 1).
pub open spec fn invalid_argument() -> Seq<char> {
    "ERR_INVALID_ARGUMENT"@
}

/// Reason of a request that the object's state forbids (code 2).
pub open spec fn invalid_state() -> Seq<char> {
    "ERR_INVALID_STATE"@
}

/// Reason of a request naming something that does not exist (code 3).
pub open spec fn not_found() -> Seq<char> {
    "ERR_NOT_FOUND"@
}

/// Reason of a request over a submission limit (code 4).
pub open spec fn rate_limit() -> Seq<char> {
    "ERR_RATE_LIMIT"@
}

impl Error {
    /// Code 1, `ERR_INVALID_ARGUMENT`.
    pub fn invalid_argument(message: String) -> (e: Error)
        ensures
            error_is(e, 1, invalid_argument(), message@),
    {
        Error { code: 1, reason: String::from_str("ERR_INVALID_ARGUMENT"), message }
    }

    /// Code 2, `ERR_INVALID_STATE`.
    pub fn invalid_state(message: String) -> (e: Error)
        ensures
            error_is(e, 2, invalid_state(), message@),
    {
        Error { code: 2, reason: String::from_str("ERR_INVALID_STATE"), message }
    }

    /// Code 3, `ERR_NOT_FOUND`.
    pub fn not_found(message: String) -> (e: Error)
        ensures
            error_is(e, 3, not_found(), message@),
    {
        Error { code: 3, reason: String::from_str("ERR_NOT_FOUND"), message }
    }

    /// Code 4, `ERR_RATE_LIMIT`.
    pub fn rate_limit(message: String) -> (e: Error)
        ensures
            error_is(e, 4, rate_limit(), message@),
    {
        Error { code: 4, reason: String::from_str("ERR_RATE_LIMIT"), message }
    }
}

} // verus!
