//! Distributed job scheduler with lease-based worker claiming.
//!
//! Workers acquire exclusive leases on jobs from a priority queue. Leases carry a TTL and must be
//! renewed before expiry; expired leases release their jobs back to the queue so another worker
//! can claim them.

use vstd::prelude::*;

use crate::arith::capped;
use crate::ordered_map::{
    has_key, lemma_entry, lemma_listing_whole, listing, mapped, place_of, OrderedMap,
};

verus! {

/// Default lease duration in seconds.
pub const DEFAULT_LEASE_TTL_SECS: u64 = 30;

/// Minimum time before lease expiry to trigger a renewal attempt.
pub const DEFAULT_RENEWAL_BUFFER_SECS: u64 = 5;

/// Maximum number of failed lease acquisitions before a job is dead-lettered.
pub const MAX_ACQUISITION_ATTEMPTS: u32 = 3;

/// Maximum number of jobs the scheduler tracks concurrently.
pub const MAX_QUEUED_JOBS: usize = 100_000;

/// Why a job that was claimed too often is given up.
const TOO_MANY_ATTEMPTS: &'static str = "max acquisition attempts exceeded";

/// Monotonically increasing job identifier.
pub type JobId = u64;

/// Priority tier. Lower numeric value = higher priority.
pub type Priority = u8;

/// Worker identifier, typically a node address or instance ID.
pub type WorkerId = u64;

/// Epoch timestamp in seconds.
pub type TimestampSecs = u64;

/// A job that can be scheduled and claimed by a worker.
#[derive(Debug, Eq, PartialEq)]
pub struct Job {
    pub id: JobId,
    /// Logical queue or topic this job belongs to.
    pub queue: String,
    /// Higher-priority jobs are claimed first.
    pub priority: Priority,
    /// Opaque payload delivered to the worker.
    pub payload: Vec<u8>,
    /// When this job was enqueued.
    pub enqueued_at: TimestampSecs,
    /// Maximum wall-clock time allowed to process this job.
    pub max_processing_secs: u64,
    /// Number of times a worker has attempted to claim this job.
    pub acquisition_attempts: u32,
    /// Current lifecycle state.
    pub state: JobState,
}

/// Lifecycle of a scheduled job.
#[derive(Clone, Copy, Debug, Eq, PartialEq)]
pub enum JobState {
    /// Waiting to be claimed by a worker.
    Pending,
    /// Claimed by a worker and being processed (or waiting to be).
    Acquired { worker_id: WorkerId, lease_expires_at: TimestampSecs },
    /// Successfully completed.
    Completed { worker_id: WorkerId, completed_at: TimestampSecs },
    /// Permanently failed after exhausting retries.
    DeadLettered { reason: &'static str, at: TimestampSecs },
}

/// A lease grants a worker exclusive access to a job for a limited time.
#[derive(Clone, Copy, Debug, Eq, PartialEq)]
pub struct Lease {
    pub job_id: JobId,
    pub worker_id: WorkerId,
    /// Absolute timestamp when this lease expires.
    pub expires_at: TimestampSecs,
}

/// Configuration for the job scheduler.
#[derive(Clone, Copy, Debug, Eq, PartialEq)]
pub struct SchedulerConfig {
    /// Default lease TTL assigned to newly acquired jobs.
    pub lease_ttl_secs: u64,
    /// How long before lease expiry a worker should renew.
    pub renewal_buffer_secs: u64,
    /// Maximum acquisition retries before dead-lettering.
    pub max_acquisition_attempts: u32,
}

impl Default for SchedulerConfig {
    fn default() -> (r: Self)
        ensures
            r == (SchedulerConfig {
                lease_ttl_secs: DEFAULT_LEASE_TTL_SECS,
                renewal_buffer_secs: DEFAULT_RENEWAL_BUFFER_SECS,
                max_acquisition_attempts: MAX_ACQUISITION_ATTEMPTS,
            }),
    {
        SchedulerConfig {
            lease_ttl_secs: DEFAULT_LEASE_TTL_SECS,
            renewal_buffer_secs: DEFAULT_RENEWAL_BUFFER_SECS,
            max_acquisition_attempts: MAX_ACQUISITION_ATTEMPTS,
        }
    }
}

/// Observability snapshot for monitoring and alerting dashboards.
#[derive(Clone, Copy, Debug, Eq, PartialEq)]
pub struct SchedulerMetrics {
    pub jobs_enqueued: u64,
    pub jobs_pending: u64,
    pub jobs_acquired: u64,
    pub jobs_completed: u64,
    pub jobs_dead_lettered: u64,
    pub lease_expirations: u64,
    pub lease_renewals: u64,
    pub active_workers: u64,
}

/// Counters that have counted nothing.
pub open spec fn no_metrics() -> SchedulerMetrics {
    SchedulerMetrics {
        jobs_enqueued: 0,
        jobs_pending: 0,
        jobs_acquired: 0,
        jobs_completed: 0,
        jobs_dead_lettered: 0,
        lease_expirations: 0,
        lease_renewals: 0,
        active_workers: 0,
    }
}

impl Default for SchedulerMetrics {
    fn default() -> (r: Self)
        ensures
            r == no_metrics(),
    {
        SchedulerMetrics {
            jobs_enqueued: 0,
            jobs_pending: 0,
            jobs_acquired: 0,
            jobs_completed: 0,
            jobs_dead_lettered: 0,
            lease_expirations: 0,
            lease_renewals: 0,
            active_workers: 0,
        }
    }
}

/// Error cases for scheduler operations.
#[derive(Clone, Debug, Eq, PartialEq)]
pub enum SchedulerError {
    QueueCapacityExceeded { max: usize },
    JobNotFound(JobId),
    JobNotPending { id: JobId, state: JobState },
    LeaseNotOwned { job_id: JobId, worker_id: WorkerId, owner: WorkerId },
    LeaseAlreadyExpired { job_id: JobId, expires_at: TimestampSecs, now: TimestampSecs },
    MaxAcquisitionAttemptsExceeded(JobId),
    DuplicateJobId(JobId),
}

/// What a job is.
pub struct JobModel {
    pub id: JobId,
    pub queue: Seq<char>,
    pub priority: Priority,
    pub payload: Seq<u8>,
    pub enqueued_at: TimestampSecs,
    pub max_processing_secs: u64,
    pub acquisition_attempts: u32,
    pub state: JobState,
}

impl View for Job {
    type V = JobModel;

    open spec fn view(&self) -> JobModel {
        JobModel {
            id: self.id,
            queue: self.queue@,
            priority: self.priority,
            payload: self.payload@,
            enqueued_at: self.enqueued_at,
            max_processing_secs: self.max_processing_secs,
            acquisition_attempts: self.acquisition_attempts,
            state: self.state,
        }
    }
}

impl Clone for Job {
    fn clone(&self) -> (r: Self)
        ensures
            r@ == self@,
    {
        let r = Job {
            id: self.id,
            queue: self.queue.clone(),
            priority: self.priority,
            payload: self.payload.clone(),
            enqueued_at: self.enqueued_at,
            max_processing_secs: self.max_processing_secs,
            acquisition_attempts: self.acquisition_attempts,
            state: self.state,
        };
        assert(r.payload@ =~= self.payload@);
        r
    }
}

/// What a scheduler holds: the leases and the queue are those of its jobs.
pub struct SchedulerState {
    pub config: SchedulerConfig,
    pub jobs: Map<JobId, JobModel>,
    pub metrics: SchedulerMetrics,
}

/// The lease on a job, where it is claimed.
pub open spec fn lease_of(id: JobId, job: JobModel) -> Option<Lease> {
    match job.state {
        JobState::Acquired { worker_id, lease_expires_at } => Some(
            Lease { job_id: id, worker_id, expires_at: lease_expires_at },
        ),
        _ => None,
    }
}

/// The leases on some jobs.
pub open spec fn leases_of(jobs: Map<JobId, JobModel>) -> Map<JobId, Lease> {
    Map::new(
        |id: JobId| jobs.dom().contains(id) && lease_of(id, jobs[id]) is Some,
        |id: JobId| lease_of(id, jobs[id])->0,
    )
}

/// Whether a job waits in the queue under a key.
pub open spec fn waits_under(
    jobs: Map<JobId, JobModel>,
    key: (Priority, TimestampSecs, JobId),
) -> bool {
    &&& jobs.dom().contains(key.2)
    &&& jobs[key.2].state is Pending
    &&& jobs[key.2].priority == key.0
    &&& jobs[key.2].enqueued_at == key.1
}

/// The keys of the waiting jobs.
pub open spec fn waiting(jobs: Map<JobId, JobModel>) -> Map<(Priority, TimestampSecs, JobId), ()> {
    Map::new(
        |key: (Priority, TimestampSecs, JobId)| waits_under(jobs, key),
        |key: (Priority, TimestampSecs, JobId)| (),
    )
}

/// The waiting jobs by priority, then by time, then by number.
pub open spec fn queue_of(jobs: Map<JobId, JobModel>) -> Seq<JobId> {
    listing::<(Priority, TimestampSecs, JobId), ()>(waiting(jobs)).map_values(
        |e: ((Priority, TimestampSecs, JobId), ())| e.0.2,
    )
}

/// The workers that hold a lease.
pub open spec fn holders(leases: Map<JobId, Lease>) -> Set<WorkerId> {
    Set::new(|w: WorkerId| exists|id: JobId| #[trigger] leases.dom().contains(id) && leases[id].worker_id == w)
}

/// The leases that a worker holds.
pub open spec fn held_by(leases: Map<JobId, Lease>, w: WorkerId) -> Set<JobId> {
    leases.dom().filter(|id: JobId| leases[id].worker_id == w)
}

/// Whether a job is claimed under a lease that has run out.
pub open spec fn has_expired(job: JobModel, now: TimestampSecs) -> bool {
    match job.state {
        JobState::Acquired { lease_expires_at, .. } => now >= lease_expires_at,
        _ => false,
    }
}

/// The jobs whose lease has run out.
pub open spec fn expired_jobs(jobs: Map<JobId, JobModel>, now: TimestampSecs) -> Set<JobId> {
    jobs.dom().filter(|id: JobId| has_expired(jobs[id], now))
}

/// The jobs once the leases that have run out are released.
pub open spec fn released_jobs(jobs: Map<JobId, JobModel>, now: TimestampSecs) -> Map<
    JobId,
    JobModel,
> {
    mapped(
        jobs,
        |job: JobModel|
            if has_expired(job, now) {
                JobModel { state: JobState::Pending, ..job }
            } else {
                job
            },
    )
}

/// The scheduler once the leases that have run out are released.
pub open spec fn released(s: SchedulerState, now: TimestampSecs) -> SchedulerState {
    let n = expired_jobs(s.jobs, now).len();
    SchedulerState {
        jobs: released_jobs(s.jobs, now),
        metrics: SchedulerMetrics {
            jobs_pending: capped(s.metrics.jobs_pending + n),
            lease_expirations: capped(s.metrics.lease_expirations + n),
            ..s.metrics
        },
        ..s
    }
}

/// One less, but not below zero.
pub open spec fn one_less(x: u64) -> u64 {
    if x > 0 {
        (x - 1) as u64
    } else {
        0
    }
}

/// The scheduler with one job in another state.
pub open spec fn with_state(s: SchedulerState, id: JobId, state: JobState) -> SchedulerState {
    SchedulerState { jobs: s.jobs.insert(id, JobModel { state, ..s.jobs[id] }), ..s }
}

/// The scheduler after a job has been taken in.
pub open spec fn enqueued(
    s: SchedulerState,
    queue: Seq<char>,
    priority: Priority,
    payload: Seq<u8>,
    max_processing_secs: u64,
    now: TimestampSecs,
) -> SchedulerState {
    let id = (s.jobs.dom().len() + 1) as u64;
    SchedulerState {
        jobs: s.jobs.insert(
            id,
            JobModel {
                id,
                queue,
                priority,
                payload,
                enqueued_at: now,
                max_processing_secs,
                acquisition_attempts: 0,
                state: JobState::Pending,
            },
        ),
        metrics: SchedulerMetrics {
            jobs_enqueued: capped(s.metrics.jobs_enqueued + 1),
            jobs_pending: capped(s.metrics.jobs_pending + 1),
            ..s.metrics
        },
        ..s
    }
}

/// The scheduler after a worker has claimed a waiting job.
pub open spec fn claimed(
    s: SchedulerState,
    id: JobId,
    worker_id: WorkerId,
    now: TimestampSecs,
) -> SchedulerState {
    SchedulerState {
        jobs: s.jobs.insert(
            id,
            JobModel {
                state: JobState::Acquired {
                    worker_id,
                    lease_expires_at: capped(now + s.config.lease_ttl_secs),
                },
                acquisition_attempts: (s.jobs[id].acquisition_attempts + 1) as u32,
                ..s.jobs[id]
            },
        ),
        metrics: SchedulerMetrics {
            jobs_pending: one_less(s.metrics.jobs_pending),
            jobs_acquired: capped(s.metrics.jobs_acquired + 1),
            ..s.metrics
        },
        ..s
    }
}

/// The scheduler after a waiting job that was claimed too often has been given up.
pub open spec fn given_up(s: SchedulerState, id: JobId, now: TimestampSecs) -> SchedulerState {
    SchedulerState {
        metrics: SchedulerMetrics {
            jobs_pending: one_less(s.metrics.jobs_pending),
            jobs_dead_lettered: capped(s.metrics.jobs_dead_lettered + 1),
            ..s.metrics
        },
        ..with_state(
            s,
            id,
            JobState::DeadLettered { reason: "max acquisition attempts exceeded", at: now },
        )
    }
}

/// The scheduler after a worker has asked for a job: expired leases are released, then the first
/// waiting job is claimed, or given up where it has been claimed too often.
pub open spec fn acquired(s: SchedulerState, worker_id: WorkerId, now: TimestampSecs) -> (
    SchedulerState,
    Result<JobId, SchedulerError>,
) {
    let t = released(s, now);
    let queue = queue_of(t.jobs);
    if queue.len() == 0 {
        (t, Err(SchedulerError::JobNotFound(0)))
    } else if t.jobs[queue[0]].acquisition_attempts >= s.config.max_acquisition_attempts {
        (
            given_up(t, queue[0], now),
            Err(SchedulerError::MaxAcquisitionAttemptsExceeded(queue[0])),
        )
    } else {
        (claimed(t, queue[0], worker_id, now), Ok(queue[0]))
    }
}

/// Why a worker's lease on a job cannot be used, if it cannot.
pub open spec fn lease_error(
    lease: Lease,
    worker_id: WorkerId,
    now: TimestampSecs,
) -> Option<SchedulerError> {
    if lease.worker_id != worker_id {
        Some(
            SchedulerError::LeaseNotOwned {
                job_id: lease.job_id,
                worker_id,
                owner: lease.worker_id,
            },
        )
    } else if now >= lease.expires_at {
        Some(
            SchedulerError::LeaseAlreadyExpired {
                job_id: lease.job_id,
                expires_at: lease.expires_at,
                now,
            },
        )
    } else {
        None
    }
}

/// Why a lease cannot be renewed, if it cannot.
pub open spec fn renewal_error(
    s: SchedulerState,
    id: JobId,
    worker_id: WorkerId,
    now: TimestampSecs,
) -> Option<SchedulerError> {
    if !leases_of(s.jobs).dom().contains(id) {
        Some(SchedulerError::JobNotFound(id))
    } else {
        lease_error(leases_of(s.jobs)[id], worker_id, now)
    }
}

/// Whether the lease on a job is close to running out, or has run out.
pub open spec fn renewal_is_due(s: SchedulerState, id: JobId, now: TimestampSecs) -> bool {
    leases_of(s.jobs).dom().contains(id) && leases_of(s.jobs)[id].expires_at <= now
        + s.config.renewal_buffer_secs
}

/// The scheduler after a lease has been renewed.
pub open spec fn renewed(
    s: SchedulerState,
    id: JobId,
    worker_id: WorkerId,
    now: TimestampSecs,
) -> SchedulerState {
    SchedulerState {
        metrics: SchedulerMetrics {
            lease_renewals: capped(s.metrics.lease_renewals + 1),
            ..s.metrics
        },
        ..with_state(
            s,
            id,
            JobState::Acquired {
                worker_id,
                lease_expires_at: capped(now + s.config.lease_ttl_secs),
            },
        )
    }
}

/// Why a job cannot be completed, if it cannot.
pub open spec fn completion_error(
    s: SchedulerState,
    id: JobId,
    worker_id: WorkerId,
    now: TimestampSecs,
) -> Option<SchedulerError> {
    if !s.jobs.dom().contains(id) {
        Some(SchedulerError::JobNotFound(id))
    } else {
        match lease_of(id, s.jobs[id]) {
            Some(lease) => lease_error(lease, worker_id, now),
            None => Some(SchedulerError::JobNotPending { id, state: s.jobs[id].state }),
        }
    }
}

/// The scheduler after a job has been completed.
pub open spec fn completed(
    s: SchedulerState,
    id: JobId,
    worker_id: WorkerId,
    now: TimestampSecs,
) -> SchedulerState {
    SchedulerState {
        metrics: SchedulerMetrics {
            jobs_completed: capped(s.metrics.jobs_completed + 1),
            ..s.metrics
        },
        ..with_state(s, id, JobState::Completed { worker_id, completed_at: now })
    }
}

/// The scheduler after a job has been dead-lettered.
pub open spec fn dead_lettered(
    s: SchedulerState,
    id: JobId,
    reason: &'static str,
    now: TimestampSecs,
) -> SchedulerState {
    SchedulerState {
        metrics: SchedulerMetrics {
            jobs_dead_lettered: capped(s.metrics.jobs_dead_lettered + 1),
            ..s.metrics
        },
        ..with_state(s, id, JobState::DeadLettered { reason, at: now })
    }
}

/// The jobs are numbered from one on, each under its number, and none has been claimed more often
/// than is allowed.
pub open spec fn scheduler_ok(s: SchedulerState) -> bool {
    &&& s.jobs.dom().finite()
    &&& s.jobs.dom().len() <= MAX_QUEUED_JOBS
    &&& forall|id: JobId| #[trigger]
        s.jobs.dom().contains(id) <==> 1 <= id <= s.jobs.dom().len()
    &&& forall|id: JobId| #[trigger]
        s.jobs.dom().contains(id) ==> s.jobs[id].id == id && s.jobs[id].acquisition_attempts
            <= s.config.max_acquisition_attempts
}

/// Every holder of leases is counted with the number of its leases, and nobody else.
spec fn workers_in_step(workers: Map<WorkerId, u32>, leases: Map<JobId, Lease>) -> bool {
    &&& leases.dom().finite()
    &&& forall|w: WorkerId|
        #![trigger workers.dom().contains(w)]
        #![trigger held_by(leases, w)]
        workers.dom().contains(w) <==> held_by(leases, w).len() > 0
    &&& forall|w: WorkerId| #[trigger]
        workers.dom().contains(w) ==> workers[w] as nat == held_by(leases, w).len()
}

proof fn lemma_lease_removed(leases: Map<JobId, Lease>, id: JobId, w: WorkerId)
    requires
        leases.dom().finite(),
        leases.dom().contains(id),
    ensures
        leases.remove(id).dom().finite(),
        held_by(leases.remove(id), w).len() == held_by(leases, w).len() - (if leases[id].worker_id
            == w {
            1int
        } else {
            0int
        }),
{
    let after = leases.remove(id);
    assert(after.dom() =~= leases.dom().remove(id));
    if leases[id].worker_id == w {
        assert(held_by(leases, w).contains(id));
        assert(held_by(after, w) =~= held_by(leases, w).remove(id));
    } else {
        assert(held_by(after, w) =~= held_by(leases, w));
    }
}

proof fn lemma_lease_added(leases: Map<JobId, Lease>, id: JobId, lease: Lease, w: WorkerId)
    requires
        leases.dom().finite(),
        !leases.dom().contains(id),
    ensures
        leases.insert(id, lease).dom().finite(),
        held_by(leases.insert(id, lease), w).len() == held_by(leases, w).len() + (
        if lease.worker_id == w {
            1int
        } else {
            0int
        }),
{
    let after = leases.insert(id, lease);
    assert(after.dom() =~= leases.dom().insert(id));
    if lease.worker_id == w {
        assert(!held_by(leases, w).contains(id));
        assert(held_by(after, w) =~= held_by(leases, w).insert(id));
    } else {
        assert(held_by(after, w) =~= held_by(leases, w));
    }
}

proof fn lemma_held_bounded(leases: Map<JobId, Lease>, w: WorkerId)
    requires
        leases.dom().finite(),
    ensures
        held_by(leases, w).finite(),
        held_by(leases, w).len() <= leases.dom().len(),
{
    vstd::set_lib::lemma_len_subset(held_by(leases, w), leases.dom());
}

proof fn lemma_leases_bounded(jobs: Map<JobId, JobModel>)
    requires
        jobs.dom().finite(),
    ensures
        leases_of(jobs).dom().finite(),
        leases_of(jobs).dom().len() <= jobs.dom().len(),
{
    assert(leases_of(jobs).dom().subset_of(jobs.dom()));
    vstd::set_lib::lemma_len_subset(leases_of(jobs).dom(), jobs.dom());
}

/// The scheduler with one expired lease released.
spec fn one_released(s: SchedulerState, id: JobId) -> SchedulerState {
    SchedulerState {
        metrics: SchedulerMetrics {
            jobs_pending: capped(s.metrics.jobs_pending + 1),
            lease_expirations: capped(s.metrics.lease_expirations + 1),
            ..s.metrics
        },
        ..with_state(s, id, JobState::Pending)
    }
}

proof fn lemma_one_released(s: SchedulerState, id: JobId, now: TimestampSecs)
    requires
        s.jobs.dom().finite(),
        expired_jobs(s.jobs, now).contains(id),
    ensures
        released(one_released(s, id), now) == released(s, now),
        expired_jobs(one_released(s, id).jobs, now) == expired_jobs(s.jobs, now).remove(id),
{
    let t = one_released(s, id);
    assert(t.jobs.dom() =~= s.jobs.dom());
    assert(expired_jobs(t.jobs, now) =~= expired_jobs(s.jobs, now).remove(id));
    assert(released_jobs(t.jobs, now) =~= released_jobs(s.jobs, now));
    assert(expired_jobs(s.jobs, now).finite());
}

proof fn lemma_none_to_release(s: SchedulerState, now: TimestampSecs)
    requires
        forall|id: JobId| !#[trigger] expired_jobs(s.jobs, now).contains(id),
    ensures
        released(s, now) == s,
{
    assert(expired_jobs(s.jobs, now) =~= Set::empty());
    assert forall|id: JobId| #[trigger] s.jobs.dom().contains(id) implies !has_expired(
        s.jobs[id],
        now,
    ) by {
        assert(!expired_jobs(s.jobs, now).contains(id));
    }
    assert(released_jobs(s.jobs, now) =~= s.jobs);
}

/// Counts a worker's new lease.
fn count_lease(
    workers: &mut OrderedMap<WorkerId, u32>,
    lease: Lease,
    Ghost(leases): Ghost<Map<JobId, Lease>>,
    Ghost(id): Ghost<JobId>,
)
    requires
        old(workers).wf(),
        workers_in_step(old(workers)@, leases),
        !leases.dom().contains(id),
        leases.dom().len() <= MAX_QUEUED_JOBS,
    ensures
        final(workers).wf(),
        workers_in_step(final(workers)@, leases.insert(id, lease)),
{
    let ghost before = workers@;
    let ghost w = lease.worker_id;
    proof {
        lemma_held_bounded(leases, w);
        assert(before.dom().contains(w) <==> held_by(leases, w).len() > 0);
    }
    let held: u32 = match workers.get(&lease.worker_id) {
        Some(n) => *n,
        None => 0,
    };
    workers.insert(lease.worker_id, held + 1);
    proof {
        let after = leases.insert(id, lease);
        lemma_lease_added(leases, id, lease, w);
        assert forall|v: WorkerId|
            #![trigger workers@.dom().contains(v)]
            #![trigger held_by(after, v)]
            (workers@.dom().contains(v) <==> held_by(after, v).len() > 0) && (
            workers@.dom().contains(v) ==> workers@[v] as nat == held_by(after, v).len()) by {
            lemma_lease_added(leases, id, lease, v);
            assert(before.dom().contains(v) <==> held_by(leases, v).len() > 0);
        }
    }
}

/// Takes a lease off a worker's count; a worker without leases is no longer counted.
fn uncount_lease(
    workers: &mut OrderedMap<WorkerId, u32>,
    lease: Lease,
    Ghost(leases): Ghost<Map<JobId, Lease>>,
    Ghost(id): Ghost<JobId>,
)
    requires
        old(workers).wf(),
        workers_in_step(old(workers)@, leases),
        leases.dom().contains(id),
        leases[id] == lease,
    ensures
        final(workers).wf(),
        workers_in_step(final(workers)@, leases.remove(id)),
{
    let ghost before = workers@;
    let ghost w = lease.worker_id;
    proof {
        lemma_held_bounded(leases, w);
        assert(held_by(leases, w).contains(id));
        assert(held_by(leases, w).len() > 0) by {
            if held_by(leases, w).len() == 0 {
                assert(held_by(leases, w) =~= Set::empty());
            }
        }
        assert(before.dom().contains(w));
    }
    let held: u32 = match workers.get(&lease.worker_id) {
        Some(n) => *n,
        None => 0,
    };
    if held > 1 {
        workers.insert(lease.worker_id, held - 1);
    } else {
        workers.remove(&lease.worker_id);
    }
    proof {
        let after = leases.remove(id);
        lemma_lease_removed(leases, id, w);
        assert forall|v: WorkerId|
            #![trigger workers@.dom().contains(v)]
            #![trigger held_by(after, v)]
            (workers@.dom().contains(v) <==> held_by(after, v).len() > 0) && (
            workers@.dom().contains(v) ==> workers@[v] as nat == held_by(after, v).len()) by {
            lemma_lease_removed(leases, id, v);
            assert(before.dom().contains(v) <==> held_by(leases, v).len() > 0);
        }
    }
}

/// The distributed job scheduler.
///
/// Maintains a priority queue of jobs that workers can claim via exclusive leases. Expired leases
/// are detected lazily on the next `acquire` call and released back to the queue.
#[derive(Clone, Debug)]
pub struct JobScheduler {
    config: SchedulerConfig,
    jobs: OrderedMap<JobId, Job>,
    /// Priority-sorted index: (priority, enqueued_at, job_id)
    pending_by_priority: OrderedMap<(Priority, TimestampSecs, JobId), ()>,
    /// Active worker leases indexed by job.
    leases: OrderedMap<JobId, Lease>,
    /// Workers currently holding leases, keyed by worker ID with count.
    workers: OrderedMap<WorkerId, u32>,
    next_job_id: JobId,
    metrics: SchedulerMetrics,
}

impl View for JobScheduler {
    type V = SchedulerState;

    closed spec fn view(&self) -> SchedulerState {
        SchedulerState {
            config: self.config,
            jobs: mapped(self.jobs@, |job: Job| job@),
            metrics: self.metrics,
        }
    }
}

impl JobScheduler {
    /// The jobs are in order, and the queue, the leases and the worker counts are theirs.
    pub closed spec fn wf(&self) -> bool {
        &&& self.jobs.wf()
        &&& self.pending_by_priority.wf()
        &&& self.leases.wf()
        &&& self.workers.wf()
        &&& scheduler_ok(self@)
        &&& self.next_job_id == self@.jobs.dom().len() + 1
        &&& self.pending_by_priority@ == waiting(self@.jobs)
        &&& self.leases@ == leases_of(self@.jobs)
        &&& workers_in_step(self.workers@, self.leases@)
        &&& self.metrics.active_workers == 0
    }

    /// The jobs are numbered from one on without a gap, there are no more than may be tracked, and
    /// none is ever claimed more often than is allowed.
    pub proof fn law_in_order(&self)
        requires
            self.wf(),
        ensures
            scheduler_ok(self@),
    {
    }

    /// Create a new scheduler with the given config.
    pub fn new(config: SchedulerConfig) -> (r: Self)
        ensures
            r.wf(),
            r@ == (SchedulerState { config, jobs: Map::empty(), metrics: no_metrics() }),
    {
        let r = JobScheduler {
            config,
            jobs: OrderedMap::new(),
            pending_by_priority: OrderedMap::new(),
            leases: OrderedMap::new(),
            workers: OrderedMap::new(),
            next_job_id: 1,
            metrics: SchedulerMetrics::default(),
        };
        proof {
            assert(r@.jobs =~= Map::empty());
            assert(waiting(r@.jobs) =~= Map::empty());
            assert(leases_of(r@.jobs) =~= Map::empty());
            assert forall|w: WorkerId| #[trigger] held_by(r.leases@, w).len() == 0 by {
                assert(held_by(r.leases@, w) =~= Set::empty());
            }
        }
        r
    }

    /// Puts a job in another state, and brings the queue, the leases and the worker counts in
    /// step.
    fn put_state(&mut self, id: JobId, state: JobState, acquisition_attempts: u32)
        requires
            old(self).wf(),
            old(self)@.jobs.dom().contains(id),
            acquisition_attempts <= old(self)@.config.max_acquisition_attempts,
        ensures
            final(self).wf(),
            final(self)@ == (SchedulerState {
                jobs: old(self)@.jobs.insert(
                    id,
                    JobModel { state, acquisition_attempts, ..old(self)@.jobs[id] },
                ),
                ..old(self)@
            }),
            final(self).leases@ == (match state {
                JobState::Acquired { worker_id, lease_expires_at } => old(self).leases@.remove(
                    id,
                ).insert(id, Lease { job_id: id, worker_id, expires_at: lease_expires_at }),
                _ => old(self).leases@.remove(id),
            }),
    {
        let ghost before = self@;
        let ghost leases0 = self.leases@;
        let key: (Priority, TimestampSecs, JobId);
        match self.jobs.get_mut(&id) {
            Some(job) => {
                job.state = state;
                job.acquisition_attempts = acquisition_attempts;
                key = (job.priority, job.enqueued_at, id);
            },
            None => {
                return;
            },
        }
        proof {
            let f = |job: Job| job@;
            let j = JobModel { state, acquisition_attempts, ..before.jobs[id] };
            assert(self@.jobs =~= before.jobs.insert(id, j));
            assert(self@.jobs.dom() =~= before.jobs.dom());
            assert forall|i: JobId| #[trigger] self@.jobs.dom().contains(i) implies
                self@.jobs[i].id == i && self@.jobs[i].acquisition_attempts
                <= self@.config.max_acquisition_attempts by {
                assert(before.jobs.dom().contains(i));
            }
            lemma_leases_bounded(before.jobs);
        }
        self.pending_by_priority.remove(&key);
        if let JobState::Pending = state {
            self.pending_by_priority.insert(key, ());
        }
        assert(self.pending_by_priority@ =~= waiting(self@.jobs));
        match self.leases.remove(&id) {
            Some(lease) => {
                uncount_lease(&mut self.workers, lease, Ghost(leases0), Ghost(id));
            },
            None => {
                assert(leases0.remove(id) =~= leases0);
            },
        }
        proof {
            assert(self.leases@.dom() =~= leases0.dom().remove(id));
        }
        if let JobState::Acquired { worker_id, lease_expires_at } = state {
            let lease: Lease = Lease { job_id: id, worker_id, expires_at: lease_expires_at };
            let ghost leases1 = self.leases@;
            self.leases.insert(id, lease);
            count_lease(&mut self.workers, lease, Ghost(leases1), Ghost(id));
        }
        assert(self.leases@ =~= leases_of(self@.jobs));
    }

    /// Enqueue a new job with a priority and payload.
    ///
    /// Returns the assigned [`JobId`].
    pub fn enqueue(
        &mut self,
        queue: String,
        priority: Priority,
        payload: Vec<u8>,
        max_processing_secs: u64,
        now: TimestampSecs,
    ) -> (r: Result<JobId, SchedulerError>)
        requires
            old(self).wf(),
        ensures
            final(self).wf(),
            if old(self)@.jobs.dom().len() >= MAX_QUEUED_JOBS {
                &&& r == Err::<JobId, _>(
                    SchedulerError::QueueCapacityExceeded { max: MAX_QUEUED_JOBS },
                )
                &&& final(self)@ == old(self)@
            } else {
                &&& r == Ok::<_, SchedulerError>((old(self)@.jobs.dom().len() + 1) as u64)
                &&& final(self)@ == enqueued(
                    old(self)@,
                    queue@,
                    priority,
                    payload@,
                    max_processing_secs,
                    now,
                )
            },
    {
        let ghost before = self@;
        let n: usize = self.jobs.len();
        assert(before.jobs.dom() =~= self.jobs@.dom());
        if n >= MAX_QUEUED_JOBS {
            return Err(SchedulerError::QueueCapacityExceeded { max: MAX_QUEUED_JOBS });
        }
        let id: JobId = self.next_job_id;
        let job: Job = Job {
            id,
            queue,
            priority,
            payload,
            enqueued_at: now,
            max_processing_secs,
            acquisition_attempts: 0,
            state: JobState::Pending,
        };
        let ghost model = job@;
        assert(!before.jobs.dom().contains(id));
        self.jobs.insert(id, job);
        self.pending_by_priority.insert((priority, now, id), ());
        self.next_job_id = self.next_job_id.saturating_add(1);
        self.metrics.jobs_enqueued = self.metrics.jobs_enqueued.saturating_add(1);
        self.metrics.jobs_pending = self.metrics.jobs_pending.saturating_add(1);
        proof {
            assert(self@.jobs =~= before.jobs.insert(id, model));
            assert(self@.jobs.dom() =~= before.jobs.dom().insert(id));
            assert(waiting(self@.jobs) =~= waiting(before.jobs).insert((priority, now, id), ()));
            assert(leases_of(self@.jobs) =~= leases_of(before.jobs));
            assert forall|i: JobId| #[trigger] self@.jobs.dom().contains(i) implies
                self@.jobs[i].id == i && self@.jobs[i].acquisition_attempts
                <= self@.config.max_acquisition_attempts by {
                if i != id {
                    assert(before.jobs.dom().contains(i));
                }
            }
        }
        Ok(id)
    }

    /// Attempt to acquire the highest-priority pending job for a worker.
    ///
    /// On success, returns the acquired [`Job`] with an active lease. Expired leases owned by
    /// other workers are released during acquisition.
    pub fn acquire(&mut self, worker_id: WorkerId, now: TimestampSecs) -> (r: Result<
        Job,
        SchedulerError,
    >)
        requires
            old(self).wf(),
        ensures
            final(self).wf(),
            final(self)@ == acquired(old(self)@, worker_id, now).0,
            match acquired(old(self)@, worker_id, now).1 {
                Ok(id) => r is Ok && r->Ok_0@ == final(self)@.jobs[id],
                Err(e) => r == Err::<Job, _>(e),
            },
    {
        self.release_expired_leases(now);
        let ghost s = self@;
        let ghost e = self.pending_by_priority.entries();
        proof {
            self.pending_by_priority.lemma_listing();
        }
        if self.pending_by_priority.len() == 0 {
            return Err(SchedulerError::JobNotFound(0));
        }
        let job_id: JobId = self.pending_by_priority.key_at(0).2;
        proof {
            self.pending_by_priority.lemma_at(0);
            assert(queue_of(s.jobs)[0] == job_id);
        }
        let attempts: u32 = match self.jobs.get(&job_id) {
            Some(job) => job.acquisition_attempts,
            None => {
                assert(false);
                0
            },
        };
        if attempts >= self.config.max_acquisition_attempts {
            self.put_state(
                job_id,
                JobState::DeadLettered { reason: TOO_MANY_ATTEMPTS, at: now },
                attempts,
            );
            self.metrics.jobs_pending = self.metrics.jobs_pending.saturating_sub(1);
            self.metrics.jobs_dead_lettered = self.metrics.jobs_dead_lettered.saturating_add(1);
            assert(self@.jobs == given_up(s, job_id, now).jobs);
            return Err(SchedulerError::MaxAcquisitionAttemptsExceeded(job_id));
        }
        let expires_at: u64 = now.saturating_add(self.config.lease_ttl_secs);
        self.put_state(
            job_id,
            JobState::Acquired { worker_id, lease_expires_at: expires_at },
            attempts + 1,
        );
        self.metrics.jobs_pending = self.metrics.jobs_pending.saturating_sub(1);
        self.metrics.jobs_acquired = self.metrics.jobs_acquired.saturating_add(1);
        assert(self@.jobs == claimed(s, job_id, worker_id, now).jobs);
        match self.jobs.get(&job_id) {
            Some(job) => Ok(job.clone()),
            None => {
                assert(self@.jobs.dom().contains(job_id));
                Err(SchedulerError::JobNotFound(job_id))
            },
        }
    }

    /// Renew a lease for an acquired job, extending its expiry time.
    ///
    /// Only the owning worker may renew.  Returns the new expiry time.
    pub fn renew_lease(&mut self, job_id: JobId, worker_id: WorkerId, now: TimestampSecs) -> (r:
        Result<TimestampSecs, SchedulerError>)
        requires
            old(self).wf(),
        ensures
            final(self).wf(),
            match renewal_error(old(self)@, job_id, worker_id, now) {
                Some(e) => r == Err::<TimestampSecs, _>(e) && final(self)@ == old(self)@,
                None => {
                    &&& r == Ok::<_, SchedulerError>(
                        capped(now + old(self)@.config.lease_ttl_secs),
                    )
                    &&& final(self)@ == renewed(old(self)@, job_id, worker_id, now)
                },
            },
    {
        let ghost s = self@;
        let lease: Lease = match self.leases.get(&job_id) {
            Some(lease) => *lease,
            None => {
                return Err(SchedulerError::JobNotFound(job_id));
            },
        };
        if lease.worker_id != worker_id {
            return Err(
                SchedulerError::LeaseNotOwned { job_id, worker_id, owner: lease.worker_id },
            );
        }
        if now >= lease.expires_at {
            return Err(
                SchedulerError::LeaseAlreadyExpired { job_id, expires_at: lease.expires_at, now },
            );
        }
        let new_expires_at: u64 = now.saturating_add(self.config.lease_ttl_secs);
        let attempts: u32 = match self.jobs.get(&job_id) {
            Some(job) => job.acquisition_attempts,
            None => {
                assert(s.jobs.dom().contains(job_id));
                0
            },
        };
        assert(s.jobs.dom().contains(job_id));
        self.put_state(
            job_id,
            JobState::Acquired { worker_id, lease_expires_at: new_expires_at },
            attempts,
        );
        self.metrics.lease_renewals = self.metrics.lease_renewals.saturating_add(1);
        assert(self@.jobs == renewed(s, job_id, worker_id, now).jobs);
        Ok(new_expires_at)
    }

    /// Mark a job as completed by its owning worker.
    pub fn complete(&mut self, job_id: JobId, worker_id: WorkerId, now: TimestampSecs) -> (r:
        Result<(), SchedulerError>)
        requires
            old(self).wf(),
        ensures
            final(self).wf(),
            match completion_error(old(self)@, job_id, worker_id, now) {
                Some(e) => r == Err::<(), _>(e) && final(self)@ == old(self)@,
                None => {
                    &&& r == Ok::<_, SchedulerError>(())
                    &&& final(self)@ == completed(old(self)@, job_id, worker_id, now)
                },
            },
    {
        let ghost s = self@;
        let (state, attempts): (JobState, u32) = match self.jobs.get(&job_id) {
            Some(job) => (job.state, job.acquisition_attempts),
            None => {
                assert(!s.jobs.dom().contains(job_id));
                return Err(SchedulerError::JobNotFound(job_id));
            },
        };
        assert(s.jobs.dom().contains(job_id));
        match state {
            JobState::Acquired { worker_id: owner, lease_expires_at } => {
                if owner != worker_id {
                    return Err(SchedulerError::LeaseNotOwned { job_id, worker_id, owner });
                }
                if now >= lease_expires_at {
                    return Err(
                        SchedulerError::LeaseAlreadyExpired {
                            job_id,
                            expires_at: lease_expires_at,
                            now,
                        },
                    );
                }
            },
            _ => {
                return Err(SchedulerError::JobNotPending { id: job_id, state });
            },
        }
        self.put_state(job_id, JobState::Completed { worker_id, completed_at: now }, attempts);
        self.metrics.jobs_completed = self.metrics.jobs_completed.saturating_add(1);
        assert(self@.jobs == completed(s, job_id, worker_id, now).jobs);
        Ok(())
    }

    /// Dead-letter a job that has failed permanently.
    pub fn dead_letter(&mut self, job_id: JobId, reason: &'static str, now: TimestampSecs) -> (r:
        Result<(), SchedulerError>)
        requires
            old(self).wf(),
        ensures
            final(self).wf(),
            if old(self)@.jobs.dom().contains(job_id) {
                &&& r == Ok::<_, SchedulerError>(())
                &&& final(self)@ == dead_lettered(old(self)@, job_id, reason, now)
            } else {
                &&& r == Err::<(), _>(SchedulerError::JobNotFound(job_id))
                &&& final(self)@ == old(self)@
            },
    {
        let ghost s = self@;
        let attempts: u32 = match self.jobs.get(&job_id) {
            Some(job) => job.acquisition_attempts,
            None => {
                assert(!s.jobs.dom().contains(job_id));
                return Err(SchedulerError::JobNotFound(job_id));
            },
        };
        assert(s.jobs.dom().contains(job_id));
        self.put_state(job_id, JobState::DeadLettered { reason, at: now }, attempts);
        self.metrics.jobs_dead_lettered = self.metrics.jobs_dead_lettered.saturating_add(1);
        assert(self@.jobs == dead_lettered(s, job_id, reason, now).jobs);
        Ok(())
    }

    /// Get the state of a specific job.
    pub fn get_job(&self, job_id: JobId) -> (r: Option<&Job>)
        requires
            self.wf(),
        ensures
            r is Some <==> self@.jobs.dom().contains(job_id),
            r matches Some(job) ==> job@ == self@.jobs[job_id],
    {
        self.jobs.get(&job_id)
    }

    /// List all leases currently held.
    pub fn active_leases(&self) -> (r: Vec<Lease>)
        requires
            self.wf(),
        ensures
            r@ == listing::<JobId, Lease>(leases_of(self@.jobs)).map_values(
                |e: (JobId, Lease)| e.1,
            ),
    {
        let ghost e = self.leases.entries();
        let n: usize = self.leases.len();
        let mut all: Vec<Lease> = Vec::new();
        let mut i: usize = 0;
        while i < n
            invariant
                self.wf(),
                e == self.leases.entries(),
                n == e.len(),
                i <= n,
                all@.len() == i,
                forall|j: int| 0 <= j < i ==> #[trigger] all@[j] == e[j].1,
            decreases n - i,
        {
            all.push(*self.leases.value_at(i));
            i = i + 1;
        }
        proof {
            self.leases.lemma_listing();
            assert(all@ =~= e.map_values(|x: (JobId, Lease)| x.1));
        }
        all
    }

    /// List pending jobs, ordered by priority (highest first).
    pub fn pending_jobs(&self) -> (r: Vec<&Job>)
        requires
            self.wf(),
        ensures
            r@.map_values(|job: &Job| job@) == queue_of(self@.jobs).map_values(
                |id: JobId| self@.jobs[id],
            ),
    {
        let ghost e = self.pending_by_priority.entries();
        let n: usize = self.pending_by_priority.len();
        let mut all: Vec<&Job> = Vec::new();
        let mut i: usize = 0;
        while i < n
            invariant
                self.wf(),
                e == self.pending_by_priority.entries(),
                n == e.len(),
                i <= n,
                all@.len() == i,
                forall|j: int| 0 <= j < i ==> (#[trigger] all@[j])@ == self@.jobs[e[j].0.2],
            decreases n - i,
        {
            proof {
                self.pending_by_priority.lemma_at(i as int);
            }
            let id: JobId = self.pending_by_priority.key_at(i).2;
            match self.jobs.get(&id) {
                Some(job) => {
                    all.push(job);
                },
                None => {
                    assert(self@.jobs.dom().contains(id));
                },
            }
            i = i + 1;
        }
        proof {
            self.pending_by_priority.lemma_listing();
            assert(all@.map_values(|job: &Job| job@) =~= queue_of(self@.jobs).map_values(
                |id: JobId| self@.jobs[id],
            ));
        }
        all
    }

    /// Check whether a lease should be renewed (within renewal buffer).
    pub fn should_renew(&self, job_id: JobId, now: TimestampSecs) -> (r: bool)
        requires
            self.wf(),
        ensures
            r == renewal_is_due(self@, job_id, now),
    {
        match self.leases.get(&job_id) {
            Some(lease) => lease.expires_at.saturating_sub(now) <= self.config.renewal_buffer_secs,
            None => false,
        }
    }

    /// Export metrics snapshot for monitoring dashboards.
    pub fn metrics(&self) -> (r: SchedulerMetrics)
        requires
            self.wf(),
        ensures
            r == (SchedulerMetrics {
                active_workers: holders(leases_of(self@.jobs)).len() as u64,
                ..self@.metrics
            }),
            holders(leases_of(self@.jobs)).len() <= MAX_QUEUED_JOBS,
    {
        let n: usize = self.workers.len();
        proof {
            lemma_holders(self.workers@, self.leases@);
            lemma_leases_bounded(self@.jobs);
        }
        SchedulerMetrics { active_workers: n as u64, ..self.metrics }
    }

    /// Releases the leases that have run out, and puts their jobs back in the queue.
    fn release_expired_leases(&mut self, now: TimestampSecs)
        requires
            old(self).wf(),
        ensures
            final(self).wf(),
            final(self)@ == released(old(self)@, now),
    {
        let ghost s = self@;
        let mut expired: Vec<JobId> = Vec::new();
        let n: usize = self.leases.len();
        let ghost e = self.leases.entries();
        let mut i: usize = 0;
        while i < n
            invariant
                self.wf(),
                self@ == s,
                e == self.leases.entries(),
                n == e.len(),
                i <= n,
                forall|j: int|
                    0 <= j < expired@.len() ==> expired_jobs(s.jobs, now).contains(
                        #[trigger] expired@[j],
                    ),
                forall|j: int, k: int|
                    0 <= j < k < expired@.len() ==> expired@[j] != expired@[k],
                forall|j: int|
                    0 <= j < expired@.len() ==> exists|k: int|
                        0 <= k < i && (#[trigger] e[k]).0 == #[trigger] expired@[j],
                forall|k: int|
                    0 <= k < i && now >= (#[trigger] e[k]).1.expires_at ==> expired@.contains(
                        e[k].0,
                    ),
            decreases n - i,
        {
            let lease: Lease = *self.leases.value_at(i);
            let id: JobId = *self.leases.key_at(i);
            proof {
                self.leases.lemma_at(i as int);
                self.leases.lemma_ascending();
            }
            if now >= lease.expires_at {
                let ghost had = expired@;
                expired.push(id);
                proof {
                    assert(expired@[had.len() as int] == id);
                    assert forall|k: int|
                        0 <= k < i + 1 && now >= (#[trigger] e[k]).1.expires_at implies expired@.contains(
                        e[k].0,
                    ) by {
                        if k < i {
                            let j = choose|j: int| 0 <= j < had.len() && had[j] == e[k].0;
                            assert(expired@[j] == e[k].0);
                        }
                    }
                    assert(expired_jobs(s.jobs, now).contains(id));
                }
            }
            i = i + 1;
        }
        proof {
            assert forall|id: JobId| #[trigger] expired_jobs(s.jobs, now).contains(id) implies exists|
                j: int,
            | 0 <= j < expired@.len() && #[trigger] expired@[j] == id by {
                assert(self.leases@.dom().contains(id));
                let k = self.leases.lemma_find(id);
                assert(now >= e[k].1.expires_at);
                assert(expired@.contains(id));
            }
        }
        let mut k: usize = 0;
        while k < expired.len()
            invariant
                self.wf(),
                k <= expired@.len(),
                released(self@, now) == released(s, now),
                forall|j: int|
                    k <= j < expired@.len() ==> expired_jobs(self@.jobs, now).contains(
                        #[trigger] expired@[j],
                    ),
                forall|j: int, k: int|
                    0 <= j < k < expired@.len() ==> expired@[j] != expired@[k],
                forall|id: JobId| #[trigger]
                    expired_jobs(self@.jobs, now).contains(id) ==> exists|j: int|
                        k <= j < expired@.len() && #[trigger] expired@[j] == id,
            decreases expired@.len() - k,
        {
            let id: JobId = expired[k];
            let ghost before = self@;
            proof {
                assert(expired_jobs(before.jobs, now).contains(expired@[k as int]));
                lemma_one_released(before, id, now);
            }
            let attempts: u32 = match self.jobs.get(&id) {
                Some(job) => job.acquisition_attempts,
                None => 0,
            };
            self.put_state(id, JobState::Pending, attempts);
            self.metrics.jobs_pending = self.metrics.jobs_pending.saturating_add(1);
            self.metrics.lease_expirations = self.metrics.lease_expirations.saturating_add(1);
            proof {
                assert(self@ == one_released(before, id));
                assert forall|other: JobId| #[trigger]
                    expired_jobs(self@.jobs, now).contains(other) implies exists|j: int|
                    k + 1 <= j < expired@.len() && #[trigger] expired@[j] == other by {
                    assert(expired_jobs(before.jobs, now).contains(other));
                    let j = choose|j: int| k <= j < expired@.len() && #[trigger] expired@[j] == other;
                    assert(j != k);
                    assert(expired@[j] == other);
                }
            }
            k = k + 1;
        }
        proof {
            lemma_none_to_release(self@, now);
        }
    }
}

impl Default for JobScheduler {
    fn default() -> (r: Self)
        ensures
            r.wf(),
            r@.config == (SchedulerConfig {
                lease_ttl_secs: DEFAULT_LEASE_TTL_SECS,
                renewal_buffer_secs: DEFAULT_RENEWAL_BUFFER_SECS,
                max_acquisition_attempts: MAX_ACQUISITION_ATTEMPTS,
            }),
            r@.jobs == Map::<JobId, JobModel>::empty(),
            r@.metrics == no_metrics(),
    {
        Self::new(SchedulerConfig::default())
    }
}

proof fn lemma_holders(workers: Map<WorkerId, u32>, leases: Map<JobId, Lease>)
    requires
        workers_in_step(workers, leases),
    ensures
        workers.dom() == holders(leases),
        holders(leases).len() <= leases.dom().len(),
{
    assert forall|w: WorkerId| workers.dom().contains(w) <==> holders(leases).contains(w) by {
        let held = held_by(leases, w);
        lemma_held_bounded(leases, w);
        if held.len() > 0 {
            let id = held.choose();
            assert(held.contains(id));
            assert(leases.dom().contains(id));
        }
        if holders(leases).contains(w) {
            let id = choose|id: JobId| #[trigger]
                leases.dom().contains(id) && leases[id].worker_id == w;
            assert(held.contains(id));
            if held.len() == 0 {
                assert(held =~= Set::empty());
            }
        }
    }
    assert(workers.dom() =~= holders(leases));
    let owner = |id: JobId| leases[id].worker_id;
    let owners = leases.dom().map(owner);
    assert forall|w: WorkerId| holders(leases).contains(w) <==> owners.contains(w) by {
        if holders(leases).contains(w) {
            let id = choose|id: JobId| #[trigger]
                leases.dom().contains(id) && leases[id].worker_id == w;
            assert(leases.dom().contains(id) && owner(id) == w);
        }
    }
    assert(holders(leases) =~= owners);
    vstd::set_lib::lemma_map_size_bound(leases.dom(), owners, owner);
}

/// The place of a job in the order of claims.
pub open spec fn rank(job: JobModel, id: JobId) -> (Priority, TimestampSecs, JobId) {
    (job.priority, job.enqueued_at, id)
}

/// Whether one rank is claimed before another.
pub open spec fn ranks_before(
    a: (Priority, TimestampSecs, JobId),
    b: (Priority, TimestampSecs, JobId),
) -> bool {
    a.0 < b.0 || (a.0 == b.0 && (a.1 < b.1 || (a.1 == b.1 && a.2 < b.2)))
}

proof fn lemma_waiting_finite(jobs: Map<JobId, JobModel>)
    requires
        jobs.dom().finite(),
    ensures
        waiting(jobs).dom().finite(),
{
    let f = |id: JobId| rank(jobs[id], id);
    let all = jobs.dom().map(f);
    jobs.dom().lemma_map_finite(f);
    assert forall|k: (Priority, TimestampSecs, JobId)| waiting(jobs).dom().contains(k) implies all.contains(
        k,
    ) by {
        assert(jobs.dom().contains(k.2) && f(k.2) == k);
    }
    vstd::set_lib::lemma_len_subset(waiting(jobs).dom(), all);
}

/// The queue holds exactly the waiting jobs, and a job of higher priority stands before one of
/// lower priority; among equals the one enqueued earlier, then the one with the lower number,
/// stands first.
pub proof fn law_queue_is_by_priority(jobs: Map<JobId, JobModel>)
    requires
        jobs.dom().finite(),
    ensures
        forall|id: JobId| #[trigger]
            queue_of(jobs).contains(id) <==> jobs.dom().contains(id) && jobs[id].state is Pending,
        forall|i: int, j: int|
            0 <= i < j < queue_of(jobs).len() ==> ranks_before(
                rank(jobs[#[trigger] queue_of(jobs)[i]], queue_of(jobs)[i]),
                rank(jobs[#[trigger] queue_of(jobs)[j]], queue_of(jobs)[j]),
            ),
{
    let m = waiting(jobs);
    lemma_waiting_finite(jobs);
    lemma_listing_whole::<(Priority, TimestampSecs, JobId), ()>(m);
    let e = listing::<(Priority, TimestampSecs, JobId), ()>(m);
    let q = queue_of(jobs);
    assert forall|i: int| 0 <= i < e.len() implies #[trigger] waits_under(jobs, e[i].0) by {
        lemma_entry::<(Priority, TimestampSecs, JobId), ()>(e, i);
        assert(m.dom().contains(e[i].0));
    }
    assert forall|id: JobId| #[trigger] q.contains(id) <==> jobs.dom().contains(id)
        && jobs[id].state is Pending by {
        if q.contains(id) {
            let i = choose|i: int| 0 <= i < q.len() && q[i] == id;
            assert(waits_under(jobs, e[i].0));
        }
        if jobs.dom().contains(id) && jobs[id].state is Pending {
            let k = rank(jobs[id], id);
            assert(m.dom().contains(k));
            let i = place_of(e, k);
            assert(has_key(e, k));
            assert(q[i] == id);
        }
    }
    assert forall|i: int, j: int| 0 <= i < j < q.len() implies ranks_before(
        rank(jobs[#[trigger] q[i]], q[i]),
        rank(jobs[#[trigger] q[j]], q[j]),
    ) by {
        assert(waits_under(jobs, e[i].0));
        assert(waits_under(jobs, e[j].0));
        assert(e[i].0 == rank(jobs[q[i]], q[i]));
        assert(e[j].0 == rank(jobs[q[j]], q[j]));
    }
}

/// A lease is exclusive: a job that is claimed under a lease that has not run out is not handed to
/// anyone, and its lease stays as it is.
pub proof fn law_lease_is_exclusive(
    s: SchedulerState,
    id: JobId,
    worker_id: WorkerId,
    now: TimestampSecs,
)
    requires
        scheduler_ok(s),
        leases_of(s.jobs).dom().contains(id),
        now < leases_of(s.jobs)[id].expires_at,
    ensures
        acquired(s, worker_id, now).1 != Ok::<_, SchedulerError>(id),
        acquired(s, worker_id, now).0.jobs[id] == s.jobs[id],
{
    let t = released(s, now);
    assert(t.jobs.dom() =~= s.jobs.dom());
    law_queue_is_by_priority(t.jobs);
    let q = queue_of(t.jobs);
    assert(s.jobs.dom().contains(id));
    assert(t.jobs[id] == s.jobs[id]);
    if q.len() > 0 {
        assert(q.contains(q[0]));
    }
}

/// A job whose lease has run out can be claimed again: once the expired leases are released it
/// waits in the queue.
pub proof fn law_expired_lease_returns_its_job(s: SchedulerState, id: JobId, now: TimestampSecs)
    requires
        scheduler_ok(s),
        leases_of(s.jobs).dom().contains(id),
        now >= leases_of(s.jobs)[id].expires_at,
    ensures
        queue_of(released(s, now).jobs).contains(id),
{
    let t = released(s, now);
    assert(t.jobs.dom() =~= s.jobs.dom());
    law_queue_is_by_priority(t.jobs);
    assert(s.jobs.dom().contains(id));
}

/// A worker that asks while a job waits is given the first waiting job, which no waiting job
/// precedes, with a fresh lease; unless that job has been claimed as often as is allowed, and then
/// it is given up.
pub proof fn law_first_waiting_job_is_claimed(
    s: SchedulerState,
    other: JobId,
    worker_id: WorkerId,
    now: TimestampSecs,
)
    requires
        scheduler_ok(s),
        s.jobs.dom().contains(other),
        released(s, now).jobs[other].state is Pending,
    ensures
        ({
            let t = released(s, now);
            let id = queue_of(t.jobs)[0];
            let (after, r) = acquired(s, worker_id, now);
            &&& queue_of(t.jobs).len() > 0
            &&& id == other || ranks_before(rank(t.jobs[id], id), rank(t.jobs[other], other))
            &&& if t.jobs[id].acquisition_attempts < s.config.max_acquisition_attempts {
                &&& r == Ok::<_, SchedulerError>(id)
                &&& leases_of(after.jobs).dom().contains(id)
                &&& leases_of(after.jobs)[id] == (Lease {
                    job_id: id,
                    worker_id,
                    expires_at: capped(now + s.config.lease_ttl_secs),
                })
            } else {
                &&& r == Err::<JobId, _>(SchedulerError::MaxAcquisitionAttemptsExceeded(id))
                &&& after.jobs[id].state is DeadLettered
            }
        }),
{
    let t = released(s, now);
    assert(t.jobs.dom() =~= s.jobs.dom());
    law_queue_is_by_priority(t.jobs);
    let q = queue_of(t.jobs);
    assert(q.contains(other));
    let j = choose|j: int| 0 <= j < q.len() && q[j] == other;
    assert(q[0] == q[0] && q[j] == other);
}

/// Jobs that are over are never claimed: asking for a job leaves a completed or dead-lettered job
/// as it is.
pub proof fn law_finished_jobs_stay_finished(
    s: SchedulerState,
    id: JobId,
    worker_id: WorkerId,
    now: TimestampSecs,
)
    requires
        scheduler_ok(s),
        s.jobs.dom().contains(id),
        s.jobs[id].state is Completed || s.jobs[id].state is DeadLettered,
    ensures
        acquired(s, worker_id, now).0.jobs[id] == s.jobs[id],
        acquired(s, worker_id, now).1 != Ok::<_, SchedulerError>(id),
        renewal_error(s, id, worker_id, now) is Some,
        completion_error(s, id, worker_id, now) is Some,
{
    let t = released(s, now);
    assert(t.jobs.dom() =~= s.jobs.dom());
    law_queue_is_by_priority(t.jobs);
    let q = queue_of(t.jobs);
    assert(t.jobs[id] == s.jobs[id]);
    if q.len() > 0 {
        assert(q.contains(q[0]));
    }
}

/// The worker that was given a job may complete it, or renew its lease, until the lease runs out,
/// and no other worker may.
pub proof fn law_claimed_job_is_the_workers(
    s: SchedulerState,
    worker_id: WorkerId,
    now: TimestampSecs,
    who: WorkerId,
    later: TimestampSecs,
)
    requires
        scheduler_ok(s),
        acquired(s, worker_id, now).1 is Ok,
    ensures
        ({
            let (t, r) = acquired(s, worker_id, now);
            let id = r->Ok_0;
            let usable = who == worker_id && later < capped(now + s.config.lease_ttl_secs);
            &&& completion_error(t, id, who, later) is None <==> usable
            &&& renewal_error(t, id, who, later) is None <==> usable
        }),
{
    let t = acquired(s, worker_id, now).0;
    let id = acquired(s, worker_id, now).1->Ok_0;
    assert(t.jobs.dom().contains(id));
    assert(leases_of(t.jobs).dom().contains(id));
}

/// Two jobs are the same but for their state and the number of attempts.
pub open spec fn same_work(a: JobModel, b: JobModel) -> bool {
    &&& a.id == b.id
    &&& a.queue == b.queue
    &&& a.priority == b.priority
    &&& a.payload == b.payload
    &&& a.enqueued_at == b.enqueued_at
    &&& a.max_processing_secs == b.max_processing_secs
}

/// A job is held by a worker under a lease that runs out at a time.
pub open spec fn held_until(job: JobModel, worker_id: WorkerId, until: int) -> bool {
    job.state matches JobState::Acquired { worker_id: w, lease_expires_at: e } && w == worker_id && e
        == until
}

/// A lease can be renewed if and only if the worker holds it and it has not run out. After that
/// the same worker holds the job until a full lease time from now, and nothing else about it, nor
/// any other job, has changed: until then that worker alone may complete it or renew it again, and
/// no request for a job hands it out; from then on it waits in the queue.
pub proof fn law_renewed_lease_runs_from_now(
    s: SchedulerState,
    id: JobId,
    worker_id: WorkerId,
    now: TimestampSecs,
    who: WorkerId,
    later: TimestampSecs,
    other: JobId,
)
    requires
        scheduler_ok(s),
        now + s.config.lease_ttl_secs <= u64::MAX,
        other != id,
    ensures
        ({
            let t = renewed(s, id, worker_id, now);
            let until = now + s.config.lease_ttl_secs;
            let renewable = s.jobs.dom().contains(id) && exists|e: u64| #[trigger]
                held_until(s.jobs[id], worker_id, e as int) && now < e;
            &&& renewal_error(s, id, worker_id, now) is None <==> renewable
            &&& renewable ==> {
                &&& held_until(t.jobs[id], worker_id, until)
                &&& same_work(t.jobs[id], s.jobs[id])
                &&& t.jobs[id].acquisition_attempts == s.jobs[id].acquisition_attempts
                &&& t.jobs.dom() == s.jobs.dom()
                &&& t.jobs[other] == s.jobs[other]
                &&& completion_error(t, id, who, later) is None <==> who == worker_id && later
                    < until
                &&& renewal_error(t, id, who, later) is None <==> who == worker_id && later < until
                &&& later < until ==> acquired(t, who, later).1 != Ok::<_, SchedulerError>(id)
                    && acquired(t, who, later).0.jobs[id] == t.jobs[id]
                &&& later >= until ==> queue_of(released(t, later).jobs).contains(id)
                &&& s.metrics.lease_renewals < u64::MAX ==> t.metrics.lease_renewals
                    == s.metrics.lease_renewals + 1
            }
        }),
{
    let t = renewed(s, id, worker_id, now);
    let until = now + s.config.lease_ttl_secs;
    if renewal_error(s, id, worker_id, now) is None {
        let e = leases_of(s.jobs)[id].expires_at;
        assert(held_until(s.jobs[id], worker_id, e as int));
    }
    if s.jobs.dom().contains(id) && exists|e: u64| #[trigger]
        held_until(s.jobs[id], worker_id, e as int) && now < e {
        assert(leases_of(s.jobs).dom().contains(id));
        assert(t.jobs.dom() =~= s.jobs.dom());
        assert(t.jobs.dom().contains(id));
        assert forall|i: JobId| #[trigger] t.jobs.dom().contains(i) implies t.jobs[i].id == i
            && t.jobs[i].acquisition_attempts <= t.config.max_acquisition_attempts by {
            assert(s.jobs.dom().contains(i));
        }
        assert(scheduler_ok(t));
        assert(leases_of(t.jobs).dom().contains(id));
        assert(leases_of(t.jobs)[id].expires_at == until);
        if later < until {
            law_lease_is_exclusive(t, id, who, later);
        } else {
            law_expired_lease_returns_its_job(t, id, later);
        }
    }
}

/// Releasing puts exactly the jobs whose lease has run out by now back among the waiting, counts
/// each of them as pending and as expired, and changes nothing else.
pub proof fn law_release_frees_exactly_the_expired(s: SchedulerState, now: TimestampSecs, id: JobId)
    requires
        scheduler_ok(s),
        s.jobs.dom().contains(id),
    ensures
        ({
            let t = released(s, now);
            let job = s.jobs[id];
            let ran_out = job.state matches JobState::Acquired { lease_expires_at: e, .. } && e <= now;
            &&& t.jobs.dom() == s.jobs.dom()
            &&& ran_out ==> t.jobs[id].state is Pending && same_work(t.jobs[id], job)
                && t.jobs[id].acquisition_attempts == job.acquisition_attempts
            &&& !ran_out ==> t.jobs[id] == job
            &&& expired_jobs(s.jobs, now).contains(id) <==> ran_out
            &&& t.config == s.config
        }),
{
    assert(released(s, now).jobs.dom() =~= s.jobs.dom());
}

/// A claim takes the first waiting job, leaves it to the worker until a full lease time from now
/// and counts one more attempt; every other job stays as the release left it, and the counters
/// move one job from pending to acquired.
pub proof fn law_claim_changes_one_job(
    s: SchedulerState,
    worker_id: WorkerId,
    now: TimestampSecs,
    other: JobId,
)
    requires
        scheduler_ok(s),
        now + s.config.lease_ttl_secs <= u64::MAX,
        acquired(s, worker_id, now).1 is Ok,
        other != acquired(s, worker_id, now).1->Ok_0,
    ensures
        ({
            let u = released(s, now);
            let (t, r) = acquired(s, worker_id, now);
            let id = r->Ok_0;
            &&& u.jobs.dom().contains(id)
            &&& u.jobs[id].state is Pending
            &&& u.jobs[id].acquisition_attempts < s.config.max_acquisition_attempts
            &&& held_until(t.jobs[id], worker_id, now + s.config.lease_ttl_secs)
            &&& same_work(t.jobs[id], s.jobs[id])
            &&& t.jobs[id].acquisition_attempts == s.jobs[id].acquisition_attempts + 1
            &&& t.jobs.dom() == s.jobs.dom()
            &&& t.jobs[other] == u.jobs[other]
            &&& u.metrics.jobs_pending > 0 ==> t.metrics.jobs_pending == u.metrics.jobs_pending - 1
            &&& u.metrics.jobs_acquired < u64::MAX ==> t.metrics.jobs_acquired
                == s.metrics.jobs_acquired + 1
            &&& t.config == s.config
        }),
{
    let u = released(s, now);
    assert(u.jobs.dom() =~= s.jobs.dom());
    law_queue_is_by_priority(u.jobs);
    let q = queue_of(u.jobs);
    assert(q.contains(q[0]));
    assert(acquired(s, worker_id, now).0.jobs.dom() =~= s.jobs.dom());
}

/// A request fails if and only if no job waits once the expired leases are released, or the first
/// waiting one has been claimed as often as is allowed; then that job, and no other, is given up
/// for good.
pub proof fn law_request_fails_without_a_claimable_job(
    s: SchedulerState,
    worker_id: WorkerId,
    now: TimestampSecs,
    other: JobId,
)
    requires
        scheduler_ok(s),
    ensures
        ({
            let u = released(s, now);
            let q = queue_of(u.jobs);
            let (t, r) = acquired(s, worker_id, now);
            &&& q.len() == 0 ==> r == Err::<JobId, _>(SchedulerError::JobNotFound(0)) && t == u
            &&& q.len() == 0 <==> forall|id: JobId| #[trigger]
                u.jobs.dom().contains(id) ==> !(u.jobs[id].state is Pending)
            &&& q.len() > 0 ==> (r is Ok <==> u.jobs[q[0]].acquisition_attempts
                < s.config.max_acquisition_attempts)
            &&& q.len() > 0 && r is Err ==> {
                &&& r == Err::<JobId, _>(SchedulerError::MaxAcquisitionAttemptsExceeded(q[0]))
                &&& t.jobs[q[0]].state matches JobState::DeadLettered { at, .. } && at == now
                &&& same_work(t.jobs[q[0]], u.jobs[q[0]])
                &&& other != q[0] ==> t.jobs[other] == u.jobs[other]
                &&& u.metrics.jobs_dead_lettered < u64::MAX ==> t.metrics.jobs_dead_lettered
                    == u.metrics.jobs_dead_lettered + 1
            }
        }),
{
    let u = released(s, now);
    assert(u.jobs.dom() =~= s.jobs.dom());
    law_queue_is_by_priority(u.jobs);
    let q = queue_of(u.jobs);
    if q.len() > 0 {
        assert(q.contains(q[0]));
        assert(u.jobs.dom().contains(q[0]));
    } else {
        assert forall|id: JobId| #[trigger] u.jobs.dom().contains(id) implies !(
        u.jobs[id].state is Pending) by {
            assert(!q.contains(id));
        }
    }
}

/// A job can be completed if and only if the worker holds it and its lease has not run out. It is
/// then complete as of now by that worker, no longer under a lease nor waiting, and no other job
/// has changed.
pub proof fn law_completion_ends_the_lease(
    s: SchedulerState,
    id: JobId,
    worker_id: WorkerId,
    now: TimestampSecs,
    other: JobId,
)
    requires
        scheduler_ok(s),
        other != id,
    ensures
        ({
            let t = completed(s, id, worker_id, now);
            let completable = s.jobs.dom().contains(id) && exists|e: u64| #[trigger]
                held_until(s.jobs[id], worker_id, e as int) && now < e;
            &&& completion_error(s, id, worker_id, now) is None <==> completable
            &&& completable ==> {
                &&& t.jobs[id].state == JobState::Completed { worker_id, completed_at: now }
                &&& same_work(t.jobs[id], s.jobs[id])
                &&& !leases_of(t.jobs).dom().contains(id)
                &&& !queue_of(t.jobs).contains(id)
                &&& t.jobs.dom() == s.jobs.dom()
                &&& t.jobs[other] == s.jobs[other]
                &&& s.metrics.jobs_completed < u64::MAX ==> t.metrics.jobs_completed
                    == s.metrics.jobs_completed + 1
            }
        }),
{
    if completion_error(s, id, worker_id, now) is None {
        let e = lease_of(id, s.jobs[id])->0.expires_at;
        assert(held_until(s.jobs[id], worker_id, e as int));
    }
    if s.jobs.dom().contains(id) {
        let t = completed(s, id, worker_id, now);
        assert(t.jobs.dom() =~= s.jobs.dom());
        law_queue_is_by_priority(t.jobs);
    }
}

/// A job that is dead-lettered is given up for its reason as of now, neither under a lease nor
/// waiting, and no other job has changed.
pub proof fn law_dead_letter_gives_up_one_job(
    s: SchedulerState,
    id: JobId,
    reason: &'static str,
    now: TimestampSecs,
    other: JobId,
)
    requires
        scheduler_ok(s),
        s.jobs.dom().contains(id),
        other != id,
    ensures
        ({
            let t = dead_lettered(s, id, reason, now);
            &&& t.jobs[id].state == JobState::DeadLettered { reason, at: now }
            &&& same_work(t.jobs[id], s.jobs[id])
            &&& !leases_of(t.jobs).dom().contains(id)
            &&& !queue_of(t.jobs).contains(id)
            &&& t.jobs.dom() == s.jobs.dom()
            &&& t.jobs[other] == s.jobs[other]
            &&& s.metrics.jobs_dead_lettered < u64::MAX ==> t.metrics.jobs_dead_lettered
                == s.metrics.jobs_dead_lettered + 1
        }),
{
    let t = dead_lettered(s, id, reason, now);
    assert(t.jobs.dom() =~= s.jobs.dom());
    law_queue_is_by_priority(t.jobs);
}

/// A job that is enqueued gets the next number, waits with what it was given and without an
/// attempt, and no other job changes.
pub proof fn law_enqueued_job_waits(
    s: SchedulerState,
    queue: Seq<char>,
    priority: Priority,
    payload: Seq<u8>,
    max_processing_secs: u64,
    now: TimestampSecs,
    other: JobId,
)
    requires
        scheduler_ok(s),
        s.jobs.dom().len() < 100_000,
        s.jobs.dom().contains(other),
    ensures
        ({
            let t = enqueued(s, queue, priority, payload, max_processing_secs, now);
            let id = (s.jobs.dom().len() + 1) as u64;
            &&& !s.jobs.dom().contains(id)
            &&& t.jobs.dom() == s.jobs.dom().insert(id)
            &&& t.jobs[id].id == id
            &&& t.jobs[id].queue == queue
            &&& t.jobs[id].priority == priority
            &&& t.jobs[id].payload == payload
            &&& t.jobs[id].enqueued_at == now
            &&& t.jobs[id].max_processing_secs == max_processing_secs
            &&& t.jobs[id].acquisition_attempts == 0
            &&& t.jobs[id].state is Pending
            &&& queue_of(t.jobs).contains(id)
            &&& t.jobs[other] == s.jobs[other]
            &&& s.metrics.jobs_pending < u64::MAX ==> t.metrics.jobs_pending
                == s.metrics.jobs_pending + 1
            &&& s.metrics.jobs_enqueued < u64::MAX ==> t.metrics.jobs_enqueued
                == s.metrics.jobs_enqueued + 1
        }),
{
    let t = enqueued(s, queue, priority, payload, max_processing_secs, now);
    let id = (s.jobs.dom().len() + 1) as u64;
    assert(t.jobs.dom() =~= s.jobs.dom().insert(id));
    law_queue_is_by_priority(t.jobs);
}

/// A renewal is due if and only if the job is held and no more than the buffer is left of its
/// lease.
pub proof fn law_renewal_is_due_within_the_buffer(s: SchedulerState, id: JobId, now: TimestampSecs)
    ensures
        renewal_is_due(s, id, now) ==> s.jobs.dom().contains(id) && s.jobs[id].state is Acquired,
        s.jobs.dom().contains(id) ==> (s.jobs[id].state matches JobState::Acquired {
            lease_expires_at: e,
            ..
        } ==> (renewal_is_due(s, id, now) <==> e - now <= s.config.renewal_buffer_secs)),
{
}

/// The lease time, the buffer before its end, the number of attempts and the room of the queue that
/// hold where nothing else is configured.
pub proof fn law_defaults_in_numbers()
    ensures
        DEFAULT_LEASE_TTL_SECS == 30,
        DEFAULT_RENEWAL_BUFFER_SECS == 5,
        MAX_ACQUISITION_ATTEMPTS == 3,
        MAX_QUEUED_JOBS == 100_000,
{
}

/// The counters `after` are those `before` but for what was enqueued, came to wait, was acquired,
/// completed, given up, ran out and was renewed.
pub open spec fn counted(
    before: SchedulerMetrics,
    after: SchedulerMetrics,
    enqueued: int,
    pending: int,
    acquired: int,
    completed: int,
    dead_lettered: int,
    expired: int,
    renewals: int,
) -> bool {
    &&& after.jobs_enqueued == before.jobs_enqueued + enqueued
    &&& after.jobs_pending == before.jobs_pending + pending
    &&& after.jobs_acquired == before.jobs_acquired + acquired
    &&& after.jobs_completed == before.jobs_completed + completed
    &&& after.jobs_dead_lettered == before.jobs_dead_lettered + dead_lettered
    &&& after.lease_expirations == before.lease_expirations + expired
    &&& after.lease_renewals == before.lease_renewals + renewals
    &&& after.active_workers == before.active_workers
}

/// Every operation counts what it did, and nothing else: a job taken in comes to wait, a lease that
/// ran out brings its job back to wait, a claimed or given-up job waits no longer, and completing,
/// giving up and renewing count once each.
pub proof fn law_every_operation_counts_itself(
    s: SchedulerState,
    id: JobId,
    worker_id: WorkerId,
    queue: Seq<char>,
    priority: Priority,
    payload: Seq<u8>,
    max_processing_secs: u64,
    reason: &'static str,
    now: TimestampSecs,
)
    requires
        scheduler_ok(s),
        s.metrics.jobs_enqueued < u64::MAX,
        0 < s.metrics.jobs_pending,
        s.metrics.jobs_pending + s.jobs.dom().len() < u64::MAX,
        s.metrics.jobs_acquired < u64::MAX,
        s.metrics.jobs_completed < u64::MAX,
        s.metrics.jobs_dead_lettered < u64::MAX,
        s.metrics.lease_expirations + s.jobs.dom().len() <= u64::MAX,
        s.metrics.lease_renewals < u64::MAX,
    ensures
        counted(
            s.metrics,
            enqueued(s, queue, priority, payload, max_processing_secs, now).metrics,
            1,
            1,
            0,
            0,
            0,
            0,
            0,
        ),
        ({
            let n = expired_jobs(s.jobs, now).len() as int;
            counted(s.metrics, released(s, now).metrics, 0, n, 0, 0, 0, n, 0)
        }),
        counted(s.metrics, claimed(s, id, worker_id, now).metrics, 0, -1, 1, 0, 0, 0, 0),
        counted(s.metrics, given_up(s, id, now).metrics, 0, -1, 0, 0, 1, 0, 0),
        counted(s.metrics, renewed(s, id, worker_id, now).metrics, 0, 0, 0, 0, 0, 0, 1),
        counted(s.metrics, completed(s, id, worker_id, now).metrics, 0, 0, 0, 1, 0, 0, 0),
        counted(s.metrics, dead_lettered(s, id, reason, now).metrics, 0, 0, 0, 0, 1, 0, 0),
        one_less(0) == 0,
        forall|x: u64| 0 < x ==> #[trigger] one_less(x) == x - 1,
        counted(no_metrics(), no_metrics(), 0, 0, 0, 0, 0, 0, 0),
        no_metrics().jobs_enqueued == 0,
        no_metrics().jobs_pending == 0,
        no_metrics().jobs_acquired == 0,
        no_metrics().jobs_completed == 0,
        no_metrics().jobs_dead_lettered == 0,
        no_metrics().lease_expirations == 0,
        no_metrics().lease_renewals == 0,
        no_metrics().active_workers == 0,
{
    let gone = expired_jobs(s.jobs, now);
    assert(gone.subset_of(s.jobs.dom()));
    vstd::set_lib::lemma_len_subset(gone, s.jobs.dom());
}

/// Of two jobs in the queue the one in front has the smaller priority number, or the same one and
/// was enqueued earlier, or at the same time and has the smaller number itself.
pub proof fn law_front_of_the_queue(jobs: Map<JobId, JobModel>, i: int, j: int)
    requires
        jobs.dom().finite(),
        0 <= i < j < queue_of(jobs).len(),
    ensures
        ({
            let x = queue_of(jobs)[i];
            let y = queue_of(jobs)[j];
            let a = jobs[x];
            let b = jobs[y];
            &&& a.priority <= b.priority
            &&& a.priority == b.priority ==> a.enqueued_at <= b.enqueued_at
            &&& a.priority == b.priority && a.enqueued_at == b.enqueued_at ==> x < y
        }),
{
    law_queue_is_by_priority(jobs);
    let x = queue_of(jobs)[i];
    let y = queue_of(jobs)[j];
    assert(ranks_before(rank(jobs[x], x), rank(jobs[y], y)));
}

/// A new lease adds its worker to the holders and its job to that worker's jobs; without leases
/// there is no holder.
pub proof fn law_new_lease_adds_its_holder(
    leases: Map<JobId, Lease>,
    id: JobId,
    lease: Lease,
    w: WorkerId,
    job: JobId,
)
    requires
        !leases.dom().contains(id),
    ensures
        !holders(Map::<JobId, Lease>::empty()).contains(w),
        !held_by(Map::<JobId, Lease>::empty(), w).contains(job),
        holders(leases.insert(id, lease)).contains(w) <==> holders(leases).contains(w) || w
            == lease.worker_id,
        held_by(leases.insert(id, lease), w).contains(job) <==> held_by(leases, w).contains(job)
            || (job == id && w == lease.worker_id),
{
    let m = leases.insert(id, lease);
    if w == lease.worker_id {
        assert(m.dom().contains(id) && m[id].worker_id == w);
    }
    if holders(leases).contains(w) {
        let k = choose|k: JobId| #[trigger] leases.dom().contains(k) && leases[k].worker_id == w;
        assert(m.dom().contains(k) && m[k].worker_id == w);
    }
    if holders(m).contains(w) && w != lease.worker_id {
        let k = choose|k: JobId| #[trigger] m.dom().contains(k) && m[k].worker_id == w;
        assert(leases.dom().contains(k) && leases[k].worker_id == w);
    }
}

} // verus!
