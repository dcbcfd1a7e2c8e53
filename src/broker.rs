use vstd::prelude::*;

use crate::types::{copy_bytes, ErrorKind, RequestOptions, Scope};

verus! {

/// Correlation token minted by [`JobBroker::submit`].
#[derive(Clone, Copy, Debug, PartialEq, Eq, Structural)]
pub struct RequestId {
    pub value: u64,
}

/// The kind of artifact a job symbolicates.
#[derive(Clone, Copy, Debug, PartialEq, Eq, Structural)]
pub enum JobKind {
    RawStacktrace,
    Minidump,
    AppleCrashReport,
}

/// A unit of symbolication work, owned by the broker until a worker takes it.
pub struct Job {
    pub kind: JobKind,
    pub scope: Scope,
    /// Names of the sources to search, in priority order.
    pub sources: Vec<String>,
    pub options: RequestOptions,
    /// The uploaded artifact or the encoded stacktraces.
    pub payload: Vec<u8>,
}

/// What the broker promises to preserve of a job while it waits.
pub struct JobView {
    pub kind: JobKind,
    pub options: RequestOptions,
    pub payload: Seq<u8>,
}

impl Job {
    pub open spec fn view(&self) -> JobView {
        JobView { kind: self.kind, options: self.options, payload: self.payload@ }
    }
}

/// Terminal result of a job: the encoded response, or why it failed.
pub enum JobResult {
    Completed(Vec<u8>),
    Failed(ErrorKind),
}

pub enum ResultView {
    Completed(Seq<u8>),
    Failed(ErrorKind),
}

impl JobResult {
    pub open spec fn view(&self) -> ResultView {
        match self {
            JobResult::Completed(b) => ResultView::Completed(b@),
            JobResult::Failed(e) => ResultView::Failed(*e),
        }
    }

    /// Returns a result equal to this one.
    pub fn duplicate(&self) -> (r: JobResult)
        ensures
            r@ == self@,
    {
        match self {
            JobResult::Completed(b) => JobResult::Completed(copy_bytes(b)),
            JobResult::Failed(e) => JobResult::Failed(*e),
        }
    }
}

/// Lifecycle of a job: only ever moves forward.
pub enum JobState {
    Pending,
    Running,
    Done(JobResult),
}

pub enum StateView {
    Pending,
    Running,
    Done(ResultView),
}

impl JobState {
    pub open spec fn view(&self) -> StateView {
        match self {
            JobState::Pending => StateView::Pending,
            JobState::Running => StateView::Running,
            JobState::Done(r) => StateView::Done(r@),
        }
    }
}

/// What the result store knows of one request id.
pub struct EntryView {
    pub state: StateView,
    /// Time at which the job reached its terminal state (0 before that).
    pub finished_at: u64,
}

/// What a poller learns.
pub enum PollOutcome {
    Ready(JobResult),
    StillRunning,
    Unknown,
}

pub enum OutcomeView {
    Ready(ResultView),
    StillRunning,
    Unknown,
}

/// One decision of a bounded wait: return an outcome, or keep waiting for a
/// completion event or the deadline.
pub enum PollStep {
    Done(PollOutcome),
    Wait,
}

pub enum StepView {
    Done(OutcomeView),
    Wait,
}

impl PollStep {
    pub open spec fn view(&self) -> StepView {
        match self {
            PollStep::Done(PollOutcome::Ready(r)) => StepView::Done(OutcomeView::Ready(r@)),
            PollStep::Done(PollOutcome::StillRunning) => StepView::Done(OutcomeView::StillRunning),
            PollStep::Done(PollOutcome::Unknown) => StepView::Done(OutcomeView::Unknown),
            PollStep::Wait => StepView::Wait,
        }
    }
}

/// A terminal entry whose retention window has elapsed at `now`.
pub open spec fn expired(e: EntryView, retention: u64, now: u64) -> bool {
    e.state is Done && e.finished_at + retention <= now
}

/// The store after removing every expired entry.
pub open spec fn evicted(m: Map<u64, EntryView>, retention: u64, now: u64) -> Map<u64, EntryView> {
    Map::new(|id: u64| m.contains_key(id) && !expired(m[id], retention, now), |id: u64| m[id])
}

/// The decision a poller of `id` takes at time `now` when it waits until `deadline`.
pub open spec fn poll_spec(m: Map<u64, EntryView>, id: u64, deadline: u64, now: u64) -> StepView {
    if !m.contains_key(id) {
        StepView::Done(OutcomeView::Unknown)
    } else {
        match m[id].state {
            StateView::Done(r) => StepView::Done(OutcomeView::Ready(r)),
            _ => if deadline <= now {
                StepView::Done(OutcomeView::StillRunning)
            } else {
                StepView::Wait
            },
        }
    }
}

/// The deadline of a wait that starts at `now`; a missing timeout waits the
/// broker's maximum. Saturates at the largest time.
pub open spec fn deadline_spec(now: u64, timeout: Option<u64>, max_wait: u64) -> u64 {
    let span = match timeout {
        Some(t) => t,
        None => max_wait,
    };
    if now + span > u64::MAX {
        u64::MAX
    } else {
        (now + span) as u64
    }
}

pub open spec fn later(a: u64, b: u64) -> u64 {
    if a >= b {
        a
    } else {
        b
    }
}

struct Slot {
    id: u64,
    state: JobState,
    finished_at: u64,
}

impl Slot {
    spec fn view(&self) -> EntryView {
        EntryView { state: self.state@, finished_at: self.finished_at }
    }
}

/// Accepts jobs, hands them to workers, stores their results for a retention
/// window and answers polls.
pub struct JobBroker {
    entries: Vec<Slot>,
    queue: Vec<(u64, Job)>,
    next_id: u64,
    clock: u64,
    retention: u64,
    max_wait: u64,
    model: Ghost<Map<u64, EntryView>>,
}

impl JobBroker {
    /// The result store, keyed by request id.
    pub closed spec fn view(&self) -> Map<u64, EntryView> {
        self.model@
    }

    /// Number of ids issued so far; ids are issued as 0, 1, 2, ...
    pub closed spec fn issued(&self) -> u64 {
        self.next_id
    }

    /// Latest time the broker has observed.
    pub closed spec fn clock(&self) -> u64 {
        self.clock
    }

    pub closed spec fn retention(&self) -> u64 {
        self.retention
    }

    pub closed spec fn max_wait(&self) -> u64 {
        self.max_wait
    }

    /// Ids of submitted jobs that no worker has taken yet, oldest first.
    pub closed spec fn queued(&self) -> Seq<u64> {
        self.queue@.map_values(|p: (u64, Job)| p.0)
    }

    /// The waiting jobs themselves, in the same order.
    pub closed spec fn queued_jobs(&self) -> Seq<JobView> {
        self.queue@.map_values(|p: (u64, Job)| p.1@)
    }

    pub closed spec fn wf(&self) -> bool {
        &&& forall|i: int|
            0 <= i < self.entries@.len() ==> {
                &&& self.model@.contains_key(#[trigger] self.entries@[i].id)
                &&& self.model@[self.entries@[i].id] == self.entries@[i]@
            }
        &&& forall|i: int, j: int|
            0 <= i < self.entries@.len() && 0 <= j < self.entries@.len()
                && #[trigger] self.entries@[i].id == #[trigger] self.entries@[j].id ==> i == j
        &&& forall|id: u64| #[trigger]
            self.model@.contains_key(id) ==> exists|i: int|
                0 <= i < self.entries@.len() && #[trigger] self.entries@[i].id == id
        &&& forall|id: u64| #[trigger] self.model@.contains_key(id) ==> id < self.next_id
        &&& forall|i: int, j: int|
            0 <= i < j < self.queue@.len() ==> #[trigger] self.queue@[i].0 < #[trigger] self.queue@[j].0
        &&& forall|i: int|
            0 <= i < self.queue@.len() ==> {
                &&& self.model@.contains_key(#[trigger] self.queue@[i].0)
                &&& self.model@[self.queue@[i].0].state is Pending
            }
    }

    /// An empty broker keeping terminal results for `retention` time units and
    /// waiting at most `max_wait` when a poll names no timeout.
    pub fn new(retention: u64, max_wait: u64) -> (b: JobBroker)
        ensures
            b.wf(),
            b@ == Map::<u64, EntryView>::empty(),
            b.issued() == 0,
            b.clock() == 0,
            b.retention() == retention,
            b.max_wait() == max_wait,
            b.queued() == Seq::<u64>::empty(),
            b.queued_jobs() == Seq::<JobView>::empty(),
    {
        let b = JobBroker {
            entries: Vec::new(),
            queue: Vec::new(),
            next_id: 0,
            clock: 0,
            retention,
            max_wait,
            model: Ghost(Map::empty()),
        };
        assert(b.queued() =~= Seq::<u64>::empty());
        assert(b.queued_jobs() =~= Seq::<JobView>::empty());
        b
    }

    fn find_index(&self, id: u64) -> (r: Option<usize>)
        requires
            self.wf(),
        ensures
            match r {
                Some(i) => i < self.entries@.len() && self.entries@[i as int].id == id,
                None => !self@.contains_key(id),
            },
    {
        let mut i: usize = 0;
        while i < self.entries.len()
            invariant
                self.wf(),
                i <= self.entries@.len(),
                forall|j: int| 0 <= j < i ==> self.entries@[j].id != id,
            decreases self.entries@.len() - i,
        {
            if self.entries[i].id == id {
                return Some(i);
            }
            i += 1;
        }
        None
    }

    /// Admits a job and returns its fresh id. Fails with `Overloaded` only
    /// when the id space is used up.
    pub fn submit(&mut self, job: Job) -> (r: Result<RequestId, ErrorKind>)
        requires
            old(self).wf(),
        ensures
            final(self).wf(),
            final(self).clock() == old(self).clock(),
            final(self).retention() == old(self).retention(),
            final(self).max_wait() == old(self).max_wait(),
            r is Err <==> old(self).issued() == u64::MAX,
            match r {
                Ok(id) => {
                    &&& id.value == old(self).issued()
                    &&& final(self).issued() == old(self).issued() + 1
                    &&& final(self)@ == old(self)@.insert(
                        id.value,
                        EntryView { state: StateView::Pending, finished_at: 0 },
                    )
                    &&& final(self).queued() == old(self).queued().push(id.value)
                    &&& final(self).queued_jobs() == old(self).queued_jobs().push(job@)
                },
                Err(e) => {
                    &&& e == ErrorKind::Overloaded
                    &&& final(self)@ == old(self)@
                    &&& final(self).issued() == old(self).issued()
                    &&& final(self).queued() == old(self).queued()
                    &&& final(self).queued_jobs() == old(self).queued_jobs()
                },
            },
    {
        if self.next_id == u64::MAX {
            return Err(ErrorKind::Overloaded);
        }
        let id = self.next_id;
        let ghost old_entries = self.entries@;
        let ghost old_queue = self.queue@;
        let ghost job_view = job@;
        self.entries.push(Slot { id, state: JobState::Pending, finished_at: 0 });
        self.queue.push((id, job));
        self.next_id = id + 1;
        self.model = Ghost(
            self.model@.insert(id, EntryView { state: StateView::Pending, finished_at: 0 }),
        );
        proof {
            let n = old_entries.len() as int;
            assert forall|i: int| 0 <= i < n implies self.entries@[i].id != id by {
                assert(old_entries[i] == self.entries@[i]);
            }
            assert forall|k: u64| #[trigger] self.model@.contains_key(k) implies exists|i: int|
                0 <= i < self.entries@.len() && #[trigger] self.entries@[i].id == k by {
                if k == id {
                    assert(self.entries@[n].id == k);
                } else {
                    let i = choose|i: int| 0 <= i < old_entries.len() && #[trigger] old_entries[i].id == k;
                    assert(self.entries@[i] == old_entries[i]);
                }
            }
            assert forall|i: int| 0 <= i < self.queue@.len() implies {
                &&& self.model@.contains_key(#[trigger] self.queue@[i].0)
                &&& self.model@[self.queue@[i].0].state is Pending
            } by {
                if i < old_queue.len() {
                    assert(self.queue@[i] == old_queue[i]);
                }
            }
            assert(self.queued() =~= old(self).queued().push(id));
            assert(self.queued_jobs() =~= old(self).queued_jobs().push(job_view));
        }
        Ok(RequestId { value: id })
    }

    /// Hands the oldest waiting job to a worker and marks it running.
    pub fn start_next(&mut self) -> (r: Option<(RequestId, Job)>)
        requires
            old(self).wf(),
        ensures
            final(self).wf(),
            final(self).issued() == old(self).issued(),
            final(self).clock() == old(self).clock(),
            final(self).retention() == old(self).retention(),
            final(self).max_wait() == old(self).max_wait(),
            r is None <==> old(self).queued().len() == 0,
            match r {
                Some((id, job)) => {
                    &&& id.value == old(self).queued()[0]
                    &&& job@ == old(self).queued_jobs()[0]
                    &&& final(self).queued_jobs() == old(self).queued_jobs().drop_first()
                    &&& old(self)@.contains_key(id.value)
                    &&& old(self)@[id.value].state is Pending
                    &&& final(self)@ == old(self)@.insert(
                        id.value,
                        EntryView { state: StateView::Running, finished_at: old(self)@[id.value].finished_at },
                    )
                    &&& final(self).queued() == old(self).queued().drop_first()
                },
                None => final(self)@ == old(self)@ && final(self).queued() == old(self).queued()
                    && final(self).queued_jobs() == old(self).queued_jobs(),
            },
    {
        if self.queue.len() == 0 {
            return None;
        }
        let ghost old_queue = self.queue@;
        let (id, job) = self.queue.remove(0);
        proof {
            assert(self.model@.contains_key(old_queue[0].0));
            assert forall|i: int, j: int|
                0 <= i < j < self.queue@.len() implies #[trigger] self.queue@[i].0
                < #[trigger] self.queue@[j].0 by {
                assert(self.queue@[i] == old_queue[i + 1]);
                assert(self.queue@[j] == old_queue[j + 1]);
            }
            assert forall|i: int| 0 <= i < self.queue@.len() implies {
                &&& self.model@.contains_key(#[trigger] self.queue@[i].0)
                &&& self.model@[self.queue@[i].0].state is Pending
            } by {
                assert(self.queue@[i] == old_queue[i + 1]);
            }
        }
        match self.find_index(id) {
            Some(i) => {
                let finished_at = self.entries[i].finished_at;
                let ghost old_entries = self.entries@;
                self.entries.set(i, Slot { id, state: JobState::Running, finished_at });
                self.model = Ghost(
                    self.model@.insert(id, EntryView { state: StateView::Running, finished_at }),
                );
                proof {
                    assert forall|k: u64| #[trigger] self.model@.contains_key(k) implies exists|j: int|
                        0 <= j < self.entries@.len() && #[trigger] self.entries@[j].id == k by {
                        let j = choose|j: int| 0 <= j < old_entries.len() && #[trigger] old_entries[j].id == k;
                        assert(self.entries@[j].id == k);
                    }
                    assert forall|q: int| 0 <= q < self.queue@.len() implies {
                        &&& self.model@.contains_key(#[trigger] self.queue@[q].0)
                        &&& self.model@[self.queue@[q].0].state is Pending
                    } by {
                        assert(self.queue@[q] == old_queue[q + 1]);
                        assert(old_queue[0].0 < old_queue[q + 1].0);
                    }
                    assert(self.queued() =~= old(self).queued().drop_first());
                    assert(self.queued_jobs() =~= old(self).queued_jobs().drop_first());
                }
                Some((RequestId { value: id }, job))
            },
            None => {
                proof {
                    assert(false);
                }
                None
            },
        }
    }

    /// Records the terminal result of a running job, finished at `now` (or at
    /// the broker's clock if that is later). Returns false, changing nothing
    /// but the clock, when `id` is unknown or not running.
    pub fn complete(&mut self, id: RequestId, result: JobResult, now: u64) -> (r: bool)
        requires
            old(self).wf(),
        ensures
            final(self).wf(),
            final(self).issued() == old(self).issued(),
            final(self).clock() == later(old(self).clock(), now),
            final(self).retention() == old(self).retention(),
            final(self).max_wait() == old(self).max_wait(),
            final(self).queued() == old(self).queued(),
            final(self).queued_jobs() == old(self).queued_jobs(),
            r <==> old(self)@.contains_key(id.value) && old(self)@[id.value].state is Running,
            r ==> final(self)@ == old(self)@.insert(
                id.value,
                EntryView { state: StateView::Done(result@), finished_at: final(self).clock() },
            ),
            !r ==> final(self)@ == old(self)@,
    {
        let clock = if now > self.clock {
            now
        } else {
            self.clock
        };
        self.clock = clock;
        match self.find_index(id.value) {
            None => false,
            Some(i) => {
                let running = match &self.entries[i].state {
                    JobState::Running => true,
                    _ => false,
                };
                if !running {
                    return false;
                }
                let ghost old_entries = self.entries@;
                let ghost rv = result@;
                self.entries.set(i, Slot { id: id.value, state: JobState::Done(result), finished_at: clock });
                self.model = Ghost(
                    self.model@.insert(id.value, EntryView { state: StateView::Done(rv), finished_at: clock }),
                );
                proof {
                    assert forall|k: u64| #[trigger] self.model@.contains_key(k) implies exists|j: int|
                        0 <= j < self.entries@.len() && #[trigger] self.entries@[j].id == k by {
                        let j = choose|j: int| 0 <= j < old_entries.len() && #[trigger] old_entries[j].id == k;
                        assert(self.entries@[j].id == k);
                    }
                    assert forall|q: int| 0 <= q < self.queue@.len() implies {
                        &&& self.model@.contains_key(#[trigger] self.queue@[q].0)
                        &&& self.model@[self.queue@[q].0].state is Pending
                    } by {
                        assert(old(self)@[self.queue@[q].0].state is Pending);
                    }
                }
                true
            },
        }
    }

    /// The deadline of a poll that starts at `now` with the given timeout.
    pub fn deadline(&self, now: u64, timeout: Option<u64>) -> (r: u64)
        ensures
            r == deadline_spec(now, timeout, self.max_wait()),
    {
        let span = match timeout {
            Some(t) => t,
            None => self.max_wait,
        };
        now.saturating_add(span)
    }

    /// Decides what a poller of `id` does at `now` when its wait ends at
    /// `deadline`: `Ready` for a terminal job whatever the deadline, `Unknown`
    /// for an id with no entry, `StillRunning` once the deadline has passed,
    /// and otherwise wait for the next completion or the deadline.
    pub fn poll_step(&self, id: RequestId, deadline: u64, now: u64) -> (r: PollStep)
        requires
            self.wf(),
        ensures
            r@ == poll_spec(self@, id.value, deadline, now),
    {
        match self.find_index(id.value) {
            None => PollStep::Done(PollOutcome::Unknown),
            Some(i) => match &self.entries[i].state {
                JobState::Done(result) => PollStep::Done(PollOutcome::Ready(result.duplicate())),
                _ => if deadline <= now {
                    PollStep::Done(PollOutcome::StillRunning)
                } else {
                    PollStep::Wait
                },
            },
        }
    }

    /// Advances the clock to `now` (if later) and removes every terminal entry
    /// whose retention window has elapsed.
    pub fn evict(&mut self, now: u64)
        requires
            old(self).wf(),
        ensures
            final(self).wf(),
            final(self).issued() == old(self).issued(),
            final(self).clock() == later(old(self).clock(), now),
            final(self).retention() == old(self).retention(),
            final(self).max_wait() == old(self).max_wait(),
            final(self).queued() == old(self).queued(),
            final(self).queued_jobs() == old(self).queued_jobs(),
            final(self)@ == evicted(old(self)@, old(self).retention(), final(self).clock()),
    {
        let clock = if now > self.clock {
            now
        } else {
            self.clock
        };
        self.clock = clock;
        let retention = self.retention;
        let ghost m = self.model@;
        let ghost target = evicted(m, retention, clock);
        let mut i: usize = 0;
        while i < self.entries.len()
            invariant
                old(self).wf(),
                m == old(self)@,
                self.model@ == m,
                self.queue@ == old(self).queue@,
                self.next_id == old(self).next_id,
                self.max_wait == old(self).max_wait,
                self.clock == clock,
                self.retention == retention,
                i <= self.entries@.len(),
                forall|j: int|
                    0 <= j < i ==> !expired(#[trigger] self.entries@[j]@, retention, clock),
                forall|j: int|
                    0 <= j < self.entries@.len() ==> {
                        &&& m.contains_key(#[trigger] self.entries@[j].id)
                        &&& m[self.entries@[j].id] == self.entries@[j]@
                    },
                forall|a: int, b: int|
                    0 <= a < self.entries@.len() && 0 <= b < self.entries@.len()
                        && #[trigger] self.entries@[a].id == #[trigger] self.entries@[b].id ==> a == b,
                forall|id: u64|
                    #[trigger] m.contains_key(id) && !expired(m[id], retention, clock) ==> exists|j: int|
                        0 <= j < self.entries@.len() && #[trigger] self.entries@[j].id == id,
            decreases self.entries@.len() - i,
        {
            let stale = match &self.entries[i].state {
                JobState::Done(_) => self.entries[i].finished_at as u128 + retention as u128
                    <= clock as u128,
                _ => false,
            };
            if stale {
                let ghost before = self.entries@;
                let _gone = self.entries.remove(i);
                proof {
                    assert forall|j: int| 0 <= j < self.entries@.len() implies {
                        &&& m.contains_key(#[trigger] self.entries@[j].id)
                        &&& m[self.entries@[j].id] == self.entries@[j]@
                    } by {
                        if j < i {
                            assert(self.entries@[j] == before[j]);
                        } else {
                            assert(self.entries@[j] == before[j + 1]);
                        }
                    }
                    assert forall|a: int, b: int|
                        0 <= a < self.entries@.len() && 0 <= b < self.entries@.len()
                            && #[trigger] self.entries@[a].id == #[trigger] self.entries@[b].id implies a
                        == b by {
                        let a0 = if a < i { a } else { a + 1 };
                        let b0 = if b < i { b } else { b + 1 };
                        assert(self.entries@[a] == before[a0]);
                        assert(self.entries@[b] == before[b0]);
                    }
                    assert forall|id: u64|
                        #[trigger] m.contains_key(id) && !expired(m[id], retention, clock) implies exists|j: int|
                        0 <= j < self.entries@.len() && #[trigger] self.entries@[j].id == id by {
                        let j = choose|j: int| 0 <= j < before.len() && #[trigger] before[j].id == id;
                        assert(j != i);
                        if j < i {
                            assert(self.entries@[j] == before[j]);
                        } else {
                            assert(self.entries@[j - 1] == before[j]);
                        }
                    }
                    assert forall|j: int| 0 <= j < i implies !expired(
                        #[trigger] self.entries@[j]@,
                        retention,
                        clock,
                    ) by {
                        assert(self.entries@[j] == before[j]);
                    }
                }
            } else {
                i += 1;
            }
        }
        self.model = Ghost(target);
        proof {
            assert forall|k: u64| #[trigger] self.model@.contains_key(k) implies exists|j: int|
                0 <= j < self.entries@.len() && #[trigger] self.entries@[j].id == k by {
                assert(m.contains_key(k) && !expired(m[k], retention, clock));
            }
            assert forall|j: int| 0 <= j < self.entries@.len() implies {
                &&& self.model@.contains_key(#[trigger] self.entries@[j].id)
                &&& self.model@[self.entries@[j].id] == self.entries@[j]@
            } by {
                assert(!expired(self.entries@[j]@, retention, clock));
            }
            assert forall|q: int| 0 <= q < self.queue@.len() implies {
                &&& self.model@.contains_key(#[trigger] self.queue@[q].0)
                &&& self.model@[self.queue@[q].0].state is Pending
            } by {
                assert(m[self.queue@[q].0].state is Pending);
            }
        }
    }
}

/// An id that `submit` has not issued yet has no entry, so every poll of it,
/// whatever its deadline, answers `Unknown`.
pub proof fn lemma_unissued_id_is_unknown(b: &JobBroker, id: u64, deadline: u64, now: u64)
    requires
        b.wf(),
        id >= b.issued(),
    ensures
        poll_spec(b@, id, deadline, now) == StepView::Done(OutcomeView::Unknown),
{
}

/// A poll whose deadline has already passed never waits: it answers at once
/// with `Ready`, `StillRunning` or `Unknown`.
pub proof fn lemma_elapsed_poll_answers(m: Map<u64, EntryView>, id: u64, deadline: u64, now: u64)
    requires
        deadline <= now,
    ensures
        poll_spec(m, id, deadline, now) is Done,
        m.contains_key(id) ==> !(poll_spec(m, id, deadline, now)->Done_0 is Unknown),
{
}

/// Once a job is terminal, every poller of it, whatever its own deadline and
/// whenever it looks, is released with the same result.
pub proof fn lemma_pollers_agree(
    m: Map<u64, EntryView>,
    id: u64,
    deadline1: u64,
    now1: u64,
    deadline2: u64,
    now2: u64,
)
    requires
        m.contains_key(id),
        m[id].state is Done,
    ensures
        poll_spec(m, id, deadline1, now1) == poll_spec(m, id, deadline2, now2),
        poll_spec(m, id, deadline1, now1) == StepView::Done(
            OutcomeView::Ready(m[id].state->Done_0),
        ),
{
}

/// A terminal result is `Ready` until its retention window elapses; after an
/// eviction at a time past that window, polls of its id answer `Unknown`.
pub proof fn lemma_eviction_is_observable(
    m: Map<u64, EntryView>,
    id: u64,
    retention: u64,
    evicted_at: u64,
    deadline: u64,
    now: u64,
)
    requires
        m.contains_key(id),
        m[id].state is Done,
        m[id].finished_at + retention <= evicted_at,
    ensures
        poll_spec(m, id, deadline, now) is Done,
        poll_spec(m, id, deadline, now)->Done_0 is Ready,
        poll_spec(evicted(m, retention, evicted_at), id, deadline, now) == StepView::Done(
            OutcomeView::Unknown,
        ),
{
}

} // verus!
