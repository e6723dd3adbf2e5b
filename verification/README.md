# oj

An online judge server: users submit programs for configured problems, alone or
within contests; workers compile and run each submission against the problem's
cases and give verdicts; rank lists order the users of a contest.

The logic is a Verus library, proved against its contracts:

- `src/users.rs`, `src/contests.rs`: creating and renaming users, creating and
  replacing contests, reading a contest back.
- `src/jobs.rs`: submitting a job (with its contest checks and submission
  limit), listing jobs by filters, reading, cancelling and rejudging a job.
- `src/evaluate.rs`: judging one job, as a state machine from state and event
  to next state and action; the laws that a judged job is settled and that
  judging always ends.
- `src/ranklist.rs`, `src/sort.rs`: collecting each user's counted jobs,
  completing and ordering them, ordering users by a stable sort and giving
  ranks; the law that ranks follow the order.
- `src/clock.rs`: the two calls into `chrono` (reading a time stamp, the
  current time).
- `src/text.rs`, `src/types.rs`, `src/config.rs`: text helpers, the data
  types and the configuration.

`app/` is the server around it: command line, configuration and data files,
the HTTP routes (actix-web), the judging workers that perform what the
judging machine asks for (directories, processes, files), and the additions
of floating-point scores.
