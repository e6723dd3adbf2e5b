//! Verified core of an online judge: users, contests, judging jobs,
//! rank lists and the decision logic of the judging worker.

pub mod config;
pub mod text;
pub mod types;
pub mod users;
pub mod contests;
pub mod clock;
pub mod jobs;
pub mod sort;
pub mod ranklist;
pub mod evaluate;
