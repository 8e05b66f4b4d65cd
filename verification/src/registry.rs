//! The job registry: a keyed store of job records in insertion order, the
//! single owner of every job-state transition.
//!
//! A record is `Running` while its job produces log lines; it is replaced,
//! never partially mutated, when the job completes, fails or is cancelled.
//! Terminal records keep their logs frozen (cancellation discards them), and
//! a reclamation pass may evict the oldest terminal records.

use vstd::prelude::*;

verus! {

/// Status of a job record.
pub enum BuildStatus {
    Running { logs: Vec<String> },
    Success { logs: Vec<String>, artifacts: Vec<String> },
    Failed { logs: Vec<String>, error: String, exit_code: Option<i32> },
    Cancelled,
}

/// Mathematical value of a job status.
#[verifier::ext_equal]
pub enum JobState {
    Running { logs: Seq<Seq<char>> },
    Success { logs: Seq<Seq<char>>, artifacts: Seq<Seq<char>> },
    Failed { logs: Seq<Seq<char>>, error: Seq<char>, exit_code: Option<int> },
    Cancelled,
}

/// Mathematical value of an exit code.
pub open spec fn exit_code_view(c: Option<i32>) -> Option<int> {
    match c {
        Some(x) => Some(x as int),
        None => None,
    }
}

impl View for BuildStatus {
    type V = JobState;

    open spec fn view(&self) -> JobState {
        match self {
            BuildStatus::Running { logs } => JobState::Running { logs: logs.deep_view() },
            BuildStatus::Success { logs, artifacts } => JobState::Success {
                logs: logs.deep_view(),
                artifacts: artifacts.deep_view(),
            },
            BuildStatus::Failed { logs, error, exit_code } => JobState::Failed {
                logs: logs.deep_view(),
                error: error@,
                exit_code: exit_code_view(*exit_code),
            },
            BuildStatus::Cancelled => JobState::Cancelled,
        }
    }
}

impl JobState {
    /// The job is still producing output.
    pub open spec fn is_running(self) -> bool {
        self is Running
    }

    /// The job has reached a terminal state.
    pub open spec fn is_terminal(self) -> bool {
        !(self is Running)
    }

    /// The log lines a reader of this state observes; a cancelled record
    /// exposes none.
    pub open spec fn logs(self) -> Seq<Seq<char>> {
        match self {
            JobState::Running { logs } => logs,
            JobState::Success { logs, .. } => logs,
            JobState::Failed { logs, .. } => logs,
            JobState::Cancelled => Seq::empty(),
        }
    }
}

impl BuildStatus {
    /// Whether the record is in a terminal state.
    pub fn is_complete(&self) -> (r: bool)
        ensures
            r == self@.is_terminal(),
    {
        matches!(
            self,
            BuildStatus::Success { .. } | BuildStatus::Failed { .. } | BuildStatus::Cancelled
        )
    }

    /// A copy of the log lines this record exposes.
    pub fn logs(&self) -> (r: Vec<String>)
        ensures
            r.deep_view() == self@.logs(),
    {
        match self {
            BuildStatus::Running { logs } => clone_lines(logs),
            BuildStatus::Success { logs, .. } => clone_lines(logs),
            BuildStatus::Failed { logs, .. } => clone_lines(logs),
            BuildStatus::Cancelled => {
                let r: Vec<String> = Vec::new();
                proof {
                    assert(r.deep_view() =~= self@.logs());
                }
                r
            },
        }
    }
}

/// Copies a vector of lines.
pub fn clone_lines(v: &Vec<String>) -> (r: Vec<String>)
    ensures
        r@ == v@,
        r.deep_view() == v.deep_view(),
{
    let mut r: Vec<String> = Vec::new();
    let mut i: usize = 0;
    while i < v.len()
        invariant
            0 <= i <= v.len(),
            r@ =~= v@.take(i as int),
        decreases v.len() - i,
    {
        r.push(v[i].clone());
        i = i + 1;
    }
    proof {
        assert(r@ =~= v@);
        assert(r.deep_view() =~= v.deep_view());
    }
    r
}

/// Copies a job status.
pub fn clone_status(st: &BuildStatus) -> (r: BuildStatus)
    ensures
        r@ == st@,
{
    match st {
        BuildStatus::Running { logs } => BuildStatus::Running { logs: clone_lines(logs) },
        BuildStatus::Success { logs, artifacts } => BuildStatus::Success {
            logs: clone_lines(logs),
            artifacts: clone_lines(artifacts),
        },
        BuildStatus::Failed { logs, error, exit_code } => BuildStatus::Failed {
            logs: clone_lines(logs),
            error: error.clone(),
            exit_code: *exit_code,
        },
        BuildStatus::Cancelled => BuildStatus::Cancelled,
    }
}

/// One stored job record.
pub struct JobEntry {
    pub id: String,
    pub status: BuildStatus,
}

/// Mathematical value of a stored job record.
#[verifier::ext_equal]
pub struct JobView {
    pub id: Seq<char>,
    pub state: JobState,
}

impl View for JobEntry {
    type V = JobView;

    open spec fn view(&self) -> JobView {
        JobView { id: self.id@, state: self.status@ }
    }
}

/// The store of job records, in insertion order.
pub struct Registry {
    entries: Vec<JobEntry>,
}

impl View for Registry {
    type V = Seq<JobView>;

    closed spec fn view(&self) -> Seq<JobView> {
        Seq::new(self.entries@.len(), |i: int| self.entries@[i]@)
    }
}

/// Index of the record with the given identifier, or a negative value if
/// there is none. Identifiers are never reused, so at most one record
/// matches.
pub open spec fn find_idx(jobs: Seq<JobView>, id: Seq<char>) -> int
    decreases jobs.len(),
{
    if jobs.len() == 0 {
        -1
    } else if jobs[0].id == id {
        0
    } else {
        let r = find_idx(jobs.drop_first(), id);
        if r < 0 {
            -1
        } else {
            r + 1
        }
    }
}

/// A record with the given identifier exists.
pub open spec fn has_job(jobs: Seq<JobView>, id: Seq<char>) -> bool {
    find_idx(jobs, id) >= 0
}

/// The state of the record with the given identifier, if present.
pub open spec fn job_state(jobs: Seq<JobView>, id: Seq<char>) -> Option<JobState> {
    if has_job(jobs, id) {
        Some(jobs[find_idx(jobs, id)].state)
    } else {
        None
    }
}

proof fn lemma_find_idx_at(jobs: Seq<JobView>, id: Seq<char>, i: int)
    requires
        0 <= i <= jobs.len(),
        forall|j: int| 0 <= j < i ==> jobs[j].id != id,
        i < jobs.len() ==> jobs[i].id == id,
    ensures
        i < jobs.len() ==> find_idx(jobs, id) == i,
        i == jobs.len() ==> find_idx(jobs, id) == -1,
    decreases i,
{
    if i == 0 {
    } else {
        lemma_find_idx_at(jobs.drop_first(), id, i - 1);
    }
}

proof fn lemma_find_idx_props(jobs: Seq<JobView>, id: Seq<char>)
    ensures
        find_idx(jobs, id) >= 0 ==> 0 <= find_idx(jobs, id) < jobs.len() && jobs[find_idx(
            jobs,
            id,
        )].id == id,
        find_idx(jobs, id) < 0 ==> find_idx(jobs, id) == -1,
    decreases jobs.len(),
{
    if jobs.len() > 0 && jobs[0].id != id {
        lemma_find_idx_props(jobs.drop_first(), id);
    }
}

/// Appending a line touches only a `Running` state.
pub open spec fn append_state(s: JobState, line: Seq<char>) -> JobState {
    match s {
        JobState::Running { logs } => JobState::Running { logs: logs.push(line) },
        _ => s,
    }
}

/// Completion carries the accumulated logs over; terminal states are left
/// alone.
pub open spec fn complete_state(s: JobState, artifacts: Seq<Seq<char>>) -> JobState {
    match s {
        JobState::Running { logs } => JobState::Success { logs, artifacts },
        _ => s,
    }
}

/// Failure carries the accumulated logs over; terminal states are left
/// alone.
pub open spec fn fail_state(s: JobState, error: Seq<char>, exit_code: Option<int>) -> JobState {
    match s {
        JobState::Running { logs } => JobState::Failed { logs, error, exit_code },
        _ => s,
    }
}

/// Cancellation discards the logs; terminal states are left alone.
pub open spec fn cancel_state(s: JobState) -> JobState {
    match s {
        JobState::Running { .. } => JobState::Cancelled,
        _ => s,
    }
}

/// What creating a record does to the store: a fresh identifier appends a
/// `Running` record with no logs; an existing one (an unsupported path, as
/// identifiers are never reused) is reset in place.
pub open spec fn reg_create(jobs: Seq<JobView>, id: Seq<char>) -> Seq<JobView> {
    let fresh = JobView { id, state: JobState::Running { logs: Seq::empty() } };
    let i = find_idx(jobs, id);
    if i >= 0 {
        jobs.update(i, fresh)
    } else {
        jobs.push(fresh)
    }
}

/// What appending a log line does to the store.
pub open spec fn reg_append(jobs: Seq<JobView>, id: Seq<char>, line: Seq<char>) -> Seq<JobView> {
    let i = find_idx(jobs, id);
    if i >= 0 {
        jobs.update(i, JobView { id: jobs[i].id, state: append_state(jobs[i].state, line) })
    } else {
        jobs
    }
}

/// What completing a job does to the store.
pub open spec fn reg_complete(jobs: Seq<JobView>, id: Seq<char>, artifacts: Seq<Seq<char>>) -> Seq<
    JobView,
> {
    let i = find_idx(jobs, id);
    if i >= 0 {
        jobs.update(i, JobView { id: jobs[i].id, state: complete_state(jobs[i].state, artifacts) })
    } else {
        jobs
    }
}

/// What failing a job does to the store.
pub open spec fn reg_fail(
    jobs: Seq<JobView>,
    id: Seq<char>,
    error: Seq<char>,
    exit_code: Option<int>,
) -> Seq<JobView> {
    let i = find_idx(jobs, id);
    if i >= 0 {
        jobs.update(
            i,
            JobView { id: jobs[i].id, state: fail_state(jobs[i].state, error, exit_code) },
        )
    } else {
        jobs
    }
}

/// What cancelling a job does to the store.
pub open spec fn reg_cancel(jobs: Seq<JobView>, id: Seq<char>) -> Seq<JobView> {
    let i = find_idx(jobs, id);
    if i >= 0 {
        jobs.update(i, JobView { id: jobs[i].id, state: cancel_state(jobs[i].state) })
    } else {
        jobs
    }
}

impl Registry {
    /// An empty registry.
    pub fn new() -> (r: Registry)
        ensures
            r@ == Seq::<JobView>::empty(),
    {
        let r = Registry { entries: Vec::new() };
        proof {
            assert(r@ =~= Seq::<JobView>::empty());
        }
        r
    }

    /// Index of the record with the given identifier.
    fn find(&self, build_id: &String) -> (r: Option<usize>)
        ensures
            match r {
                Some(i) => find_idx(self@, build_id@) == i as int,
                None => find_idx(self@, build_id@) == -1,
            },
    {
        let mut i: usize = 0;
        while i < self.entries.len()
            invariant
                0 <= i <= self.entries.len(),
                self@.len() == self.entries.len(),
                forall|j: int| 0 <= j < i ==> self@[j].id != build_id@,
            decreases self.entries.len() - i,
        {
            if self.entries[i].id == *build_id {
                proof {
                    lemma_find_idx_at(self@, build_id@, i as int);
                }
                return Some(i);
            }
            i = i + 1;
        }
        proof {
            lemma_find_idx_at(self@, build_id@, self@.len() as int);
        }
        None
    }

    /// Inserts a fresh `Running` record with no logs under the given
    /// identifier. Callers always use fresh identifiers; reusing one resets
    /// that record.
    pub fn create_build(&mut self, build_id: &String)
        ensures
            final(self)@ == reg_create(old(self)@, build_id@),
    {
        let running = BuildStatus::Running { logs: Vec::new() };
        match self.find(build_id) {
            Some(i) => {
                proof {
                    lemma_find_idx_props(old(self)@, build_id@);
                }
                let e = self.entries.remove(i);
                self.entries.insert(i, JobEntry { id: e.id, status: running });
                proof {
                    assert(self@ =~~= reg_create(old(self)@, build_id@));
                }
            },
            None => {
                self.entries.push(JobEntry { id: build_id.clone(), status: running });
                proof {
                    assert(self@ =~~= reg_create(old(self)@, build_id@));
                }
            },
        }
    }

    /// Appends a line to the record's logs if and only if the record exists
    /// and is still `Running`; a line arriving after finalization is
    /// intentionally dropped.
    pub fn append_build_log(&mut self, build_id: &String, line: String)
        ensures
            final(self)@ == reg_append(old(self)@, build_id@, line@),
    {
        match self.find(build_id) {
            Some(i) => {
                proof {
                    lemma_find_idx_props(old(self)@, build_id@);
                }
                let mut e = self.entries.remove(i);
                match &mut e.status {
                    BuildStatus::Running { logs } => logs.push(line),
                    _ => {},
                }
                self.entries.insert(i, e);
                proof {
                    assert(self@ =~~= reg_append(old(self)@, build_id@, line@));
                }
            },
            None => {
                proof {
                    assert(self@ =~~= reg_append(old(self)@, build_id@, line@));
                }
            },
        }
    }

    /// Replaces a `Running` record by `Success`, carrying the accumulated
    /// logs over; otherwise a no-op.
    pub fn complete_build(&mut self, build_id: &String, artifacts: Vec<String>)
        ensures
            final(self)@ == reg_complete(old(self)@, build_id@, artifacts.deep_view()),
    {
        match self.find(build_id) {
            Some(i) => {
                proof {
                    lemma_find_idx_props(old(self)@, build_id@);
                }
                let e = self.entries.remove(i);
                let status = match e.status {
                    BuildStatus::Running { logs } => BuildStatus::Success { logs, artifacts },
                    other => other,
                };
                self.entries.insert(i, JobEntry { id: e.id, status });
                proof {
                    assert(self@ =~~= reg_complete(
                        old(self)@,
                        build_id@,
                        artifacts.deep_view(),
                    ));
                }
            },
            None => {
                proof {
                    assert(self@ =~~= reg_complete(
                        old(self)@,
                        build_id@,
                        artifacts.deep_view(),
                    ));
                }
            },
        }
    }

    /// Replaces a `Running` record by `Failed`, carrying the accumulated
    /// logs over; otherwise a no-op.
    pub fn fail_build(&mut self, build_id: &String, error: String, exit_code: Option<i32>)
        ensures
            final(self)@ == reg_fail(old(self)@, build_id@, error@, exit_code_view(exit_code)),
    {
        match self.find(build_id) {
            Some(i) => {
                proof {
                    lemma_find_idx_props(old(self)@, build_id@);
                }
                let e = self.entries.remove(i);
                let status = match e.status {
                    BuildStatus::Running { logs } => BuildStatus::Failed {
                        logs,
                        error,
                        exit_code,
                    },
                    other => other,
                };
                self.entries.insert(i, JobEntry { id: e.id, status });
                proof {
                    assert(self@ =~~= reg_fail(
                        old(self)@,
                        build_id@,
                        error@,
                        exit_code_view(exit_code),
                    ));
                }
            },
            None => {
                proof {
                    assert(self@ =~~= reg_fail(
                        old(self)@,
                        build_id@,
                        error@,
                        exit_code_view(exit_code),
                    ));
                }
            },
        }
    }

    /// Replaces a `Running` record by `Cancelled` and reports success;
    /// reports failure when the record is absent or already terminal.
    pub fn cancel_build(&mut self, build_id: &String) -> (r: bool)
        ensures
            final(self)@ == reg_cancel(old(self)@, build_id@),
            r == (match job_state(old(self)@, build_id@) {
                Some(st) => st is Running,
                None => false,
            }),
    {
        match self.find(build_id) {
            Some(i) => {
                proof {
                    lemma_find_idx_props(old(self)@, build_id@);
                }
                let e = self.entries.remove(i);
                let was_running = matches!(&e.status, BuildStatus::Running { .. });
                let status = match e.status {
                    BuildStatus::Running { .. } => BuildStatus::Cancelled,
                    other => other,
                };
                self.entries.insert(i, JobEntry { id: e.id, status });
                proof {
                    assert(self@ =~~= reg_cancel(old(self)@, build_id@));
                }
                was_running
            },
            None => {
                proof {
                    assert(self@ =~~= reg_cancel(old(self)@, build_id@));
                }
                false
            },
        }
    }

    /// A point-in-time copy of the record with the given identifier, or
    /// nothing if there is none.
    pub fn get_build(&self, build_id: &String) -> (r: Option<BuildStatus>)
        ensures
            match r {
                Some(st) => job_state(self@, build_id@) == Some(st@),
                None => job_state(self@, build_id@) is None,
            },
    {
        match self.find(build_id) {
            Some(i) => {
                proof {
                    lemma_find_idx_props(self@, build_id@);
                }
                Some(clone_status(&self.entries[i].status))
            },
            None => None,
        }
    }
}

/// Number of terminal records in the store.
pub open spec fn terminal_count(jobs: Seq<JobView>) -> int
    decreases jobs.len(),
{
    if jobs.len() == 0 {
        0
    } else {
        terminal_count(jobs.drop_last()) + if jobs.last().state.is_terminal() {
            1int
        } else {
            0int
        }
    }
}

/// The store with its oldest terminal record removed; a store without a
/// terminal record is left alone.
pub open spec fn drop_oldest_terminal(jobs: Seq<JobView>) -> Seq<JobView>
    decreases jobs.len(),
{
    if jobs.len() == 0 {
        jobs
    } else if jobs[0].state.is_terminal() {
        jobs.drop_first()
    } else {
        seq![jobs[0]] + drop_oldest_terminal(jobs.drop_first())
    }
}

/// What the reclamation pass does to the store: terminal records are
/// evicted, oldest first, until at most `max` remain.
pub open spec fn reg_reclaim(jobs: Seq<JobView>, max: int) -> Seq<JobView>
    decreases terminal_count(jobs),
    via reg_reclaim_decreases
{
    if terminal_count(jobs) <= max || terminal_count(jobs) <= 0 {
        jobs
    } else {
        reg_reclaim(drop_oldest_terminal(jobs), max)
    }
}

#[via_fn]
proof fn reg_reclaim_decreases(jobs: Seq<JobView>, max: int) {
    lemma_terminal_count_nonneg(jobs);
    if terminal_count(jobs) > max && terminal_count(jobs) > 0 {
        lemma_drop_oldest_terminal_count(jobs);
    }
}

proof fn lemma_terminal_count_nonneg(jobs: Seq<JobView>)
    ensures
        0 <= terminal_count(jobs) <= jobs.len(),
    decreases jobs.len(),
{
    if jobs.len() > 0 {
        lemma_terminal_count_nonneg(jobs.drop_last());
    }
}

/// Removing the record at `i` lowers the terminal count by one exactly when
/// that record was terminal.
proof fn lemma_terminal_count_remove(jobs: Seq<JobView>, i: int)
    requires
        0 <= i < jobs.len(),
    ensures
        terminal_count(jobs.remove(i)) == terminal_count(jobs) - if jobs[i].state.is_terminal() {
            1int
        } else {
            0int
        },
    decreases jobs.len(),
{
    if i == jobs.len() - 1 {
        assert(jobs.remove(i) =~= jobs.drop_last());
    } else {
        assert(jobs.remove(i).drop_last() =~= jobs.drop_last().remove(i));
        assert(jobs.remove(i).last() == jobs.last());
        lemma_terminal_count_remove(jobs.drop_last(), i);
    }
}

proof fn lemma_drop_oldest_terminal_count(jobs: Seq<JobView>)
    requires
        terminal_count(jobs) > 0,
    ensures
        terminal_count(drop_oldest_terminal(jobs)) == terminal_count(jobs) - 1,
    decreases jobs.len(),
{
    lemma_terminal_count_nonneg(jobs);
    if jobs[0].state.is_terminal() {
        lemma_terminal_count_remove(jobs, 0);
        assert(jobs.remove(0) =~= jobs.drop_first());
    } else {
        lemma_terminal_count_remove(jobs, 0);
        assert(jobs.remove(0) =~= jobs.drop_first());
        lemma_drop_oldest_terminal_count(jobs.drop_first());
        let t = drop_oldest_terminal(jobs.drop_first());
        assert((seq![jobs[0]] + t).remove(0) =~= t);
        lemma_terminal_count_remove(seq![jobs[0]] + t, 0);
    }
}

/// When the records before `i` are all running and the record at `i` is
/// terminal, dropping the oldest terminal record removes exactly `i`.
proof fn lemma_drop_oldest_terminal_at(jobs: Seq<JobView>, i: int)
    requires
        0 <= i < jobs.len(),
        forall|j: int| 0 <= j < i ==> !jobs[j].state.is_terminal(),
        jobs[i].state.is_terminal(),
    ensures
        drop_oldest_terminal(jobs) == jobs.remove(i),
    decreases i,
{
    if i == 0 {
        assert(jobs.drop_first() =~= jobs.remove(0));
    } else {
        lemma_drop_oldest_terminal_at(jobs.drop_first(), i - 1);
        assert(seq![jobs[0]] + jobs.drop_first().remove(i - 1) =~= jobs.remove(i));
    }
}

proof fn lemma_terminal_exists(jobs: Seq<JobView>)
    requires
        terminal_count(jobs) > 0,
    ensures
        exists|k: int| 0 <= k < jobs.len() && (#[trigger] jobs[k].state).is_terminal(),
    decreases jobs.len(),
{
    if jobs.last().state.is_terminal() {
        assert(jobs[jobs.len() - 1].state.is_terminal());
    } else {
        lemma_terminal_exists(jobs.drop_last());
        let k = choose|k: int|
            0 <= k < jobs.drop_last().len() && (#[trigger] jobs.drop_last()[k].state).is_terminal();
        assert(jobs[k].state.is_terminal());
    }
}

impl Registry {
    /// Number of terminal records in the store.
    fn count_terminal(&self) -> (r: usize)
        ensures
            r == terminal_count(self@),
    {
        let mut r: usize = 0;
        let mut i: usize = 0;
        while i < self.entries.len()
            invariant
                0 <= i <= self.entries.len(),
                self@.len() == self.entries.len(),
                r == terminal_count(self@.take(i as int)),
                r <= i,
            decreases self.entries.len() - i,
        {
            proof {
                assert(self@.take(i as int + 1).drop_last() =~= self@.take(i as int));
                assert(self@.take(i as int + 1).last() == self@[i as int]);
            }
            if self.entries[i].status.is_complete() {
                r = r + 1;
            }
            i = i + 1;
        }
        proof {
            assert(self@.take(self@.len() as int) =~= self@);
        }
        r
    }

    /// Removes the oldest terminal record.
    fn remove_oldest_terminal(&mut self)
        requires
            terminal_count(old(self)@) > 0,
        ensures
            final(self)@ == drop_oldest_terminal(old(self)@),
    {
        proof {
            lemma_terminal_exists(self@);
        }
        let mut i: usize = 0;
        loop
            invariant
                self@ == old(self)@,
                self@.len() == self.entries.len(),
                0 <= i <= self@.len(),
                forall|j: int| 0 <= j < i ==> !(#[trigger] self@[j].state).is_terminal(),
                exists|k: int| i <= k < self@.len() && (#[trigger] self@[k].state).is_terminal(),
            ensures
                self@ == old(self)@,
                self@.len() == self.entries.len(),
                0 <= i < self@.len(),
                forall|j: int| 0 <= j < i ==> !(#[trigger] self@[j].state).is_terminal(),
                self@[i as int].state.is_terminal(),
            decreases self@.len() - i,
        {
            if self.entries[i].status.is_complete() {
                break ;
            }
            i = i + 1;
        }
        proof {
            lemma_drop_oldest_terminal_at(self@, i as int);
        }
        self.entries.remove(i);
        proof {
            assert(self@ =~~= old(self)@.remove(i as int));
        }
    }

    /// Evicts terminal records, oldest first, until at most `max_completed`
    /// remain; `Running` records are never evicted.
    pub fn cleanup_old_builds(&mut self, max_completed: usize)
        ensures
            final(self)@ == reg_reclaim(old(self)@, max_completed as int),
            running_records(final(self)@) == running_records(old(self)@),
            terminal_count(final(self)@) <= max_completed as int,
    {
        proof {
            lemma_reclaim_properties(old(self)@, max_completed as int);
        }
        let mut count: usize = self.count_terminal();
        while count > max_completed
            invariant
                count == terminal_count(self@),
                reg_reclaim(self@, max_completed as int) == reg_reclaim(
                    old(self)@,
                    max_completed as int,
                ),
            decreases count,
        {
            proof {
                lemma_drop_oldest_terminal_count(self@);
            }
            self.remove_oldest_terminal();
            count = count - 1;
        }
    }
}

/// The log lines the record with the given identifier exposes; none if it
/// is absent.
pub open spec fn logs_of(jobs: Seq<JobView>, id: Seq<char>) -> Seq<Seq<char>> {
    match job_state(jobs, id) {
        Some(st) => st.logs(),
        None => Seq::empty(),
    }
}

/// The store after a whole sequence of log lines has been appended, in
/// order.
pub open spec fn apply_appends(jobs: Seq<JobView>, id: Seq<char>, lines: Seq<Seq<char>>) -> Seq<
    JobView,
>
    decreases lines.len(),
{
    if lines.len() == 0 {
        jobs
    } else {
        apply_appends(reg_append(jobs, id, lines[0]), id, lines.drop_first())
    }
}

proof fn lemma_find_idx_same_ids(a: Seq<JobView>, b: Seq<JobView>, id: Seq<char>)
    requires
        a.len() == b.len(),
        forall|j: int| 0 <= j < a.len() ==> a[j].id == b[j].id,
    ensures
        find_idx(a, id) == find_idx(b, id),
    decreases a.len(),
{
    if a.len() > 0 {
        lemma_find_idx_same_ids(a.drop_first(), b.drop_first(), id);
    }
}

/// Law: appending any sequence of lines to a `Running` record accumulates
/// exactly those lines, in order, after the lines already present, and the
/// record stays `Running`.
pub proof fn lemma_appends_while_running(jobs: Seq<JobView>, id: Seq<char>, lines: Seq<Seq<char>>)
    requires
        (match job_state(jobs, id) {
            Some(st) => st is Running,
            None => false,
        }),
    ensures
        job_state(apply_appends(jobs, id, lines), id) == Some(
            JobState::Running { logs: logs_of(jobs, id) + lines },
        ),
    decreases lines.len(),
{
    lemma_find_idx_props(jobs, id);
    let i = find_idx(jobs, id);
    if lines.len() == 0 {
        assert(logs_of(jobs, id) + lines =~= logs_of(jobs, id));
    } else {
        let jobs1 = reg_append(jobs, id, lines[0]);
        lemma_find_idx_same_ids(jobs, jobs1, id);
        lemma_appends_while_running(jobs1, id, lines.drop_first());
        assert(logs_of(jobs1, id) =~= logs_of(jobs, id).push(lines[0]));
        assert(logs_of(jobs, id).push(lines[0]) + lines.drop_first() =~= logs_of(jobs, id)
            + lines);
    }
}

/// Law: once a record is terminal (or absent), appended lines leave the
/// whole store untouched; no late line is ever observable.
pub proof fn lemma_appends_after_terminal(jobs: Seq<JobView>, id: Seq<char>, lines: Seq<Seq<char>>)
    requires
        (match job_state(jobs, id) {
            Some(st) => st.is_terminal(),
            None => true,
        }),
    ensures
        apply_appends(jobs, id, lines) == jobs,
    decreases lines.len(),
{
    lemma_find_idx_props(jobs, id);
    if lines.len() > 0 {
        let i = find_idx(jobs, id);
        if i >= 0 {
            assert(reg_append(jobs, id, lines[0]) =~~= jobs);
        }
        lemma_appends_after_terminal(jobs, id, lines.drop_first());
    }
}

/// One terminal transition, as a value.
pub enum FinalizeOp {
    Complete { artifacts: Seq<Seq<char>> },
    Fail { error: Seq<char>, exit_code: Option<int> },
    Cancel,
}

/// What one terminal transition does to the store.
pub open spec fn apply_finalize(jobs: Seq<JobView>, id: Seq<char>, op: FinalizeOp) -> Seq<JobView> {
    match op {
        FinalizeOp::Complete { artifacts } => reg_complete(jobs, id, artifacts),
        FinalizeOp::Fail { error, exit_code } => reg_fail(jobs, id, error, exit_code),
        FinalizeOp::Cancel => reg_cancel(jobs, id),
    }
}

/// Law: completing, failing and cancelling are each no-ops on a record that
/// is already terminal, so applying any two such transitions in a row
/// yields the result of the first alone.
pub proof fn lemma_finalize_twice(jobs: Seq<JobView>, id: Seq<char>, op1: FinalizeOp, op2: FinalizeOp)
    ensures
        apply_finalize(apply_finalize(jobs, id, op1), id, op2) == apply_finalize(jobs, id, op1),
{
    lemma_find_idx_props(jobs, id);
    let i = find_idx(jobs, id);
    let jobs1 = apply_finalize(jobs, id, op1);
    if i >= 0 {
        lemma_find_idx_same_ids(jobs, jobs1, id);
        assert(jobs1[i].state.is_terminal());
        assert(apply_finalize(jobs1, id, op2) =~~= jobs1);
    }
}

/// The `Running` records of the store, in order.
pub open spec fn running_records(jobs: Seq<JobView>) -> Seq<JobView>
    decreases jobs.len(),
{
    if jobs.len() == 0 {
        Seq::empty()
    } else {
        let r = running_records(jobs.drop_last());
        if jobs.last().state.is_running() {
            r.push(jobs.last())
        } else {
            r
        }
    }
}

/// The terminal records of the store, in order.
pub open spec fn terminal_records(jobs: Seq<JobView>) -> Seq<JobView>
    decreases jobs.len(),
{
    if jobs.len() == 0 {
        Seq::empty()
    } else {
        let r = terminal_records(jobs.drop_last());
        if jobs.last().state.is_terminal() {
            r.push(jobs.last())
        } else {
            r
        }
    }
}

proof fn lemma_terminal_records_len(jobs: Seq<JobView>)
    ensures
        terminal_records(jobs).len() == terminal_count(jobs),
    decreases jobs.len(),
{
    if jobs.len() > 0 {
        lemma_terminal_records_len(jobs.drop_last());
    }
}

proof fn lemma_terminal_at_gives_count(jobs: Seq<JobView>, i: int)
    requires
        0 <= i < jobs.len(),
        jobs[i].state.is_terminal(),
    ensures
        terminal_count(jobs) > 0,
    decreases jobs.len(),
{
    lemma_terminal_count_nonneg(jobs.drop_last());
    if i < jobs.len() - 1 {
        lemma_terminal_at_gives_count(jobs.drop_last(), i);
    }
}

proof fn lemma_running_records_remove_terminal(jobs: Seq<JobView>, i: int)
    requires
        0 <= i < jobs.len(),
        jobs[i].state.is_terminal(),
    ensures
        running_records(jobs.remove(i)) == running_records(jobs),
    decreases jobs.len(),
{
    if i == jobs.len() - 1 {
        assert(jobs.remove(i) =~= jobs.drop_last());
    } else {
        assert(jobs.remove(i).drop_last() =~= jobs.drop_last().remove(i));
        assert(jobs.remove(i).last() == jobs.last());
        lemma_running_records_remove_terminal(jobs.drop_last(), i);
    }
}

proof fn lemma_all_running_no_terminal(jobs: Seq<JobView>)
    requires
        forall|j: int| 0 <= j < jobs.len() ==> !(#[trigger] jobs[j].state).is_terminal(),
    ensures
        terminal_records(jobs) == Seq::<JobView>::empty(),
    decreases jobs.len(),
{
    if jobs.len() > 0 {
        lemma_all_running_no_terminal(jobs.drop_last());
    }
}

proof fn lemma_terminal_records_remove_first(jobs: Seq<JobView>, i: int)
    requires
        0 <= i < jobs.len(),
        forall|j: int| 0 <= j < i ==> !(#[trigger] jobs[j].state).is_terminal(),
        jobs[i].state.is_terminal(),
    ensures
        terminal_records(jobs.remove(i)) == terminal_records(jobs).drop_first(),
    decreases jobs.len(),
{
    if i == jobs.len() - 1 {
        assert(jobs.remove(i) =~= jobs.drop_last());
        lemma_all_running_no_terminal(jobs.drop_last());
        assert(terminal_records(jobs) =~= seq![jobs.last()]);
        assert(terminal_records(jobs.drop_last()) =~= terminal_records(jobs).drop_first());
    } else {
        assert(jobs.remove(i).drop_last() =~= jobs.drop_last().remove(i));
        assert(jobs.remove(i).last() == jobs.last());
        lemma_terminal_records_remove_first(jobs.drop_last(), i);
        lemma_terminal_at_gives_count(jobs.drop_last(), i);
        lemma_terminal_records_len(jobs.drop_last());
        if jobs.last().state.is_terminal() {
            assert(terminal_records(jobs.drop_last()).drop_first().push(jobs.last())
                =~= terminal_records(jobs.drop_last()).push(jobs.last()).drop_first());
        }
    }
}

/// Least index of a terminal record.
spec fn first_terminal_idx(jobs: Seq<JobView>) -> int
    decreases jobs.len(),
{
    if jobs.len() == 0 {
        -1
    } else if jobs[0].state.is_terminal() {
        0
    } else {
        let r = first_terminal_idx(jobs.drop_first());
        if r < 0 {
            -1
        } else {
            r + 1
        }
    }
}

proof fn lemma_first_terminal_idx(jobs: Seq<JobView>)
    requires
        terminal_count(jobs) > 0,
    ensures
        0 <= first_terminal_idx(jobs) < jobs.len(),
        jobs[first_terminal_idx(jobs)].state.is_terminal(),
        forall|j: int|
            0 <= j < first_terminal_idx(jobs) ==> !(#[trigger] jobs[j].state).is_terminal(),
    decreases jobs.len(),
{
    lemma_terminal_count_nonneg(jobs);
    if jobs.len() > 0 && !jobs[0].state.is_terminal() {
        lemma_terminal_count_remove(jobs, 0);
        assert(jobs.remove(0) =~= jobs.drop_first());
        lemma_first_terminal_idx(jobs.drop_first());
        assert forall|j: int|
            0 <= j < first_terminal_idx(jobs) implies !(#[trigger] jobs[j].state).is_terminal() by {
            if j > 0 {
                assert(!jobs.drop_first()[j - 1].state.is_terminal());
            }
        }
    }
}

/// Law: the reclamation pass keeps every `Running` record (in order), keeps
/// at most `max` terminal records, and the terminal records it keeps are
/// exactly the newest ones, so eviction is oldest first.
pub proof fn lemma_reclaim_properties(jobs: Seq<JobView>, max: int)
    requires
        0 <= max,
    ensures
        running_records(reg_reclaim(jobs, max)) == running_records(jobs),
        terminal_count(reg_reclaim(jobs, max)) <= max,
        terminal_records(reg_reclaim(jobs, max)) == terminal_records(jobs).skip(
            if terminal_count(jobs) > max {
                terminal_count(jobs) - max
            } else {
                0
            },
        ),
    decreases terminal_count(jobs),
{
    lemma_terminal_count_nonneg(jobs);
    if terminal_count(jobs) <= max || terminal_count(jobs) <= 0 {
        assert(terminal_records(jobs).skip(0) =~= terminal_records(jobs));
    } else {
        lemma_first_terminal_idx(jobs);
        let i = first_terminal_idx(jobs);
        lemma_drop_oldest_terminal_at(jobs, i);
        let d = drop_oldest_terminal(jobs);
        lemma_drop_oldest_terminal_count(jobs);
        lemma_running_records_remove_terminal(jobs, i);
        lemma_terminal_records_remove_first(jobs, i);
        lemma_reclaim_properties(d, max);
        lemma_terminal_records_len(jobs);
        lemma_terminal_records_len(d);
        let k = if terminal_count(d) > max {
            terminal_count(d) - max
        } else {
            0
        };
        assert(terminal_records(d).skip(k) =~= terminal_records(jobs).skip(
            if terminal_count(jobs) > max {
                terminal_count(jobs) - max
            } else {
                0
            },
        ));
    }
}

} // verus!
