use verinode_core::job_scheduler::{
    DEFAULT_LEASE_TTL_SECS, DEFAULT_RENEWAL_BUFFER_SECS, MAX_QUEUED_JOBS, JobScheduler, JobState,
    MAX_ACQUISITION_ATTEMPTS, SchedulerConfig, SchedulerError,
};

#[test]
fn enqueue_returns_sequential_ids() {
    let mut scheduler = JobScheduler::default();
    let id1 = scheduler
        .enqueue("default".into(), 5, vec![0x01], 60, 1000)
        .unwrap();
    let id2 = scheduler
        .enqueue("default".into(), 3, vec![0x02], 60, 1000)
        .unwrap();
    assert_eq!(id1, 1);
    assert_eq!(id2, 2);
    assert_eq!(scheduler.metrics().jobs_enqueued, 2);
}

#[test]
fn acquire_returns_highest_priority_job_first() {
    let mut scheduler = JobScheduler::default();
    scheduler
        .enqueue("q".into(), 5, vec![0x05], 60, 1000)
        .unwrap(); // lower priority
    scheduler
        .enqueue("q".into(), 1, vec![0x01], 60, 1000)
        .unwrap(); // higher priority

    let job = scheduler.acquire(42, 1000).unwrap();
    assert_eq!(job.priority, 1); // highest priority acquired first
    assert_eq!(job.payload, vec![0x01]);
}

#[test]
fn acquire_assigns_lease_and_decrements_pending() {
    let mut scheduler = JobScheduler::default();
    scheduler
        .enqueue("q".into(), 1, vec![0xAA], 60, 1000)
        .unwrap();

    let metrics = scheduler.metrics();
    assert_eq!(metrics.jobs_pending, 1);

    let job = scheduler.acquire(7, 1000).unwrap();
    assert_eq!(job.id, 1);

    let metrics = scheduler.metrics();
    assert_eq!(metrics.jobs_pending, 0);
    assert_eq!(metrics.jobs_acquired, 1);

    let leases = scheduler.active_leases();
    assert_eq!(leases.len(), 1);
    assert_eq!(leases[0].worker_id, 7);
    assert_eq!(leases[0].expires_at, 1000 + DEFAULT_LEASE_TTL_SECS);
}

#[test]
fn acquire_empty_queue_fails() {
    let mut scheduler = JobScheduler::default();
    let result = scheduler.acquire(1, 1000);
    assert!(matches!(result, Err(SchedulerError::JobNotFound(0))));
}

#[test]
fn renew_lease_extends_expiry() {
    let mut scheduler = JobScheduler::default();
    scheduler
        .enqueue("q".into(), 1, vec![0x01], 60, 1000)
        .unwrap();
    scheduler.acquire(10, 1000).unwrap();

    // Original expiry: 1000 + DEFAULT_LEASE_TTL_SECS
    let new_expiry = scheduler.renew_lease(1, 10, 1010).unwrap();
    assert_eq!(new_expiry, 1010 + DEFAULT_LEASE_TTL_SECS);
    assert_eq!(scheduler.metrics().lease_renewals, 1);
}

#[test]
fn renew_lease_wrong_worker_fails() {
    let mut scheduler = JobScheduler::default();
    scheduler
        .enqueue("q".into(), 1, vec![0x01], 60, 1000)
        .unwrap();
    scheduler.acquire(10, 1000).unwrap();

    let result = scheduler.renew_lease(1, 99, 1010); // wrong worker
    assert!(matches!(result, Err(SchedulerError::LeaseNotOwned { .. })));
}

#[test]
fn renew_expired_lease_fails() {
    let mut scheduler = JobScheduler::default();
    scheduler
        .enqueue("q".into(), 1, vec![0x01], 60, 1000)
        .unwrap();
    scheduler.acquire(10, 1000).unwrap();

    let expired_time = 1000 + DEFAULT_LEASE_TTL_SECS + 1;
    let result = scheduler.renew_lease(1, 10, expired_time);
    assert!(matches!(
        result,
        Err(SchedulerError::LeaseAlreadyExpired { .. })
    ));
}

#[test]
fn expired_lease_is_released_on_next_acquire() {
    let mut scheduler = JobScheduler::default();
    scheduler
        .enqueue("q".into(), 1, vec![0x01], 60, 1000)
        .unwrap();
    scheduler
        .enqueue("q".into(), 2, vec![0x02], 60, 1000)
        .unwrap();

    // Worker 10 acquires first job
    scheduler.acquire(10, 1000).unwrap();

    // Time passes: lease expires
    let expired_time = 1000 + DEFAULT_LEASE_TTL_SECS + 1;

    // Worker 20 acquires; expired lease should release job 1 back to queue
    let job = scheduler.acquire(20, expired_time).unwrap();
    // Should get the highest priority pending job (released job 1, priority 1)
    assert_eq!(job.id, 1);
    assert_eq!(job.priority, 1);

    assert_eq!(scheduler.metrics().lease_expirations, 1);
}

#[test]
fn complete_job_transitions_to_completed_state() {
    let mut scheduler = JobScheduler::default();
    scheduler
        .enqueue("q".into(), 1, vec![0x01], 60, 1000)
        .unwrap();
    scheduler.acquire(7, 1000).unwrap();

    scheduler.complete(1, 7, 1010).unwrap();

    let job = scheduler.get_job(1).unwrap();
    assert!(matches!(
        job.state,
        JobState::Completed { worker_id: 7, .. }
    ));
    assert_eq!(scheduler.metrics().jobs_completed, 1);
    assert!(scheduler.active_leases().is_empty());
}

#[test]
fn complete_wrong_worker_fails() {
    let mut scheduler = JobScheduler::default();
    scheduler
        .enqueue("q".into(), 1, vec![0x01], 60, 1000)
        .unwrap();
    scheduler.acquire(7, 1000).unwrap();

    let result = scheduler.complete(1, 99, 1010);
    assert!(matches!(result, Err(SchedulerError::LeaseNotOwned { .. })));
}

#[test]
fn dead_letter_after_max_acquisition_attempts() {
    let config = SchedulerConfig {
        max_acquisition_attempts: 2,
        ..Default::default()
    };
    let mut scheduler = JobScheduler::new(config);
    scheduler
        .enqueue("q".into(), 1, vec![0x01], 60, 1000)
        .unwrap();

    // Worker acquires and lease expires
    scheduler.acquire(1, 1000).unwrap();
    let expired = 1000 + DEFAULT_LEASE_TTL_SECS + 1;

    // Another worker acquires (lease expired, so re-acquired)
    scheduler.acquire(2, expired).unwrap();
    let expired2 = expired + DEFAULT_LEASE_TTL_SECS + 1;

    // Third acquire attempt should dead-letter
    let result = scheduler.acquire(3, expired2);
    assert!(matches!(
        result,
        Err(SchedulerError::MaxAcquisitionAttemptsExceeded(1))
    ));

    let job = scheduler.get_job(1).unwrap();
    assert!(matches!(job.state, JobState::DeadLettered { .. }));
    assert_eq!(scheduler.metrics().jobs_dead_lettered, 1);
}

#[test]
fn pending_jobs_returns_sorted_by_priority() {
    let mut scheduler = JobScheduler::default();
    scheduler
        .enqueue("q".into(), 10, vec![0x10], 60, 1000)
        .unwrap();
    scheduler
        .enqueue("q".into(), 2, vec![0x02], 60, 1000)
        .unwrap();
    scheduler
        .enqueue("q".into(), 5, vec![0x05], 60, 1000)
        .unwrap();

    let pending = scheduler.pending_jobs();
    assert_eq!(pending[0].priority, 2);
    assert_eq!(pending[1].priority, 5);
    assert_eq!(pending[2].priority, 10);
}

#[test]
fn should_renew_detects_near_expiry() {
    let mut scheduler = JobScheduler::default();
    scheduler
        .enqueue("q".into(), 1, vec![0x01], 60, 1000)
        .unwrap();
    scheduler.acquire(7, 1000).unwrap();

    let expires_at = 1000 + DEFAULT_LEASE_TTL_SECS;
    let buffer = DEFAULT_RENEWAL_BUFFER_SECS;

    // Well before expiry
    assert!(!scheduler.should_renew(1, 1001));

    // Within buffer window
    assert!(scheduler.should_renew(1, expires_at - buffer));

    // Past expiry
    assert!(scheduler.should_renew(1, expires_at + 1));
}

#[test]
fn queue_capacity_prevents_overflow() {
    let mut scheduler = JobScheduler::new(SchedulerConfig::default());

    // Fill up to capacity
    for i in 0..MAX_QUEUED_JOBS {
        scheduler
            .enqueue("q".into(), 1, vec![i as u8], 60, 1000)
            .unwrap();
    }

    let result = scheduler.enqueue("q".into(), 1, vec![0xFF], 60, 1000);
    assert!(matches!(
        result,
        Err(SchedulerError::QueueCapacityExceeded { max: _ })
    ));
}

#[test]
fn manual_dead_letter_marks_job_permanently_failed() {
    let mut scheduler = JobScheduler::default();
    scheduler
        .enqueue("q".into(), 1, vec![0x01], 60, 1000)
        .unwrap();

    scheduler
        .dead_letter(1, "irrecoverable error", 1050)
        .unwrap();

    let job = scheduler.get_job(1).unwrap();
    assert!(matches!(
        job.state,
        JobState::DeadLettered {
            reason: "irrecoverable error",
            ..
        }
    ));
}

#[test]
fn worker_tracking_counts_leases() {
    let mut scheduler = JobScheduler::default();
    scheduler
        .enqueue("q".into(), 1, vec![0x01], 60, 1000)
        .unwrap();
    scheduler
        .enqueue("q".into(), 1, vec![0x02], 60, 1000)
        .unwrap();

    scheduler.acquire(7, 1000).unwrap();
    scheduler.acquire(7, 1000).unwrap();

    assert_eq!(scheduler.metrics().active_workers, 1);
}

#[test]
fn config_defaults_match_constants() {
    let config = SchedulerConfig::default();
    assert_eq!(config.lease_ttl_secs, DEFAULT_LEASE_TTL_SECS);
    assert_eq!(config.renewal_buffer_secs, DEFAULT_RENEWAL_BUFFER_SECS);
    assert_eq!(config.max_acquisition_attempts, MAX_ACQUISITION_ATTEMPTS);
}
