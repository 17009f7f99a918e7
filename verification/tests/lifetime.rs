use valve::lifetime::{after_fork, AfterFork, JobSetup};

#[test]
fn worker_runs_once_it_is_guarded() {
    assert_eq!(after_fork(0, 4242, 4242), AfterFork::Run);
}

#[test]
fn worker_of_a_supervisor_with_the_first_pid_runs() {
    assert_eq!(after_fork(0, 1, 1), AfterFork::Run);
}

#[test]
fn unguarded_worker_does_not_run() {
    assert_eq!(after_fork(-1, 4242, 4242), AfterFork::Fail);
    assert_eq!(after_fork(-1, 1, 4242), AfterFork::Fail);
}

#[test]
fn orphan_dies_whoever_took_it_in() {
    assert_eq!(after_fork(0, 1, 4242), AfterFork::Die);
    assert_eq!(after_fork(0, 77, 4242), AfterFork::Die);
}

#[test]
fn job_is_used_once_it_is_configured() {
    let setup = JobSetup::created(77);
    assert_eq!(setup, JobSetup::Configure { handle: 77 });
    assert_eq!(setup.configured(1), Some(77));
    assert_eq!(setup.configured(0), None);
}

#[test]
fn missing_job_is_done_without() {
    let setup = JobSetup::created(0);
    assert_eq!(setup, JobSetup::Done { job: None });
    assert_eq!(setup.configured(1), None);
}
