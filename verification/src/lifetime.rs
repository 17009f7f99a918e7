//! Workers do not outlive the supervisor, even one that is killed.
//!
//! On Linux a worker asks the kernel, right after the fork, to be killed when
//! the supervisor dies. On Windows all workers join a job object whose members
//! are killed when its last handle is closed.

use vstd::prelude::*;

verus! {

/// What a freshly forked worker does next.
#[derive(Clone, Copy, Debug, PartialEq, Eq, Structural)]
pub enum AfterFork {
    /// Report the operating system's error, and run nothing.
    Fail,
    /// Die: the supervisor is gone already.
    Die,
    /// Run the worker program.
    Run,
}

/// Decides on what the kernel answered to the request to be killed along with
/// the supervisor, 0 if it was granted, and on whether the worker's parent is
/// still the supervisor. The request alone would miss a supervisor that died
/// before it: its worker has been handed to another parent.
pub fn after_fork(prctl_result: i32, parent_pid: i32, supervisor_pid: i32) -> (fate: AfterFork)
    ensures
        fate == AfterFork::Fail <==> prctl_result != 0,
        fate == AfterFork::Die <==> prctl_result == 0 && parent_pid != supervisor_pid,
        fate == AfterFork::Run <==> prctl_result == 0 && parent_pid == supervisor_pid,
{
    if prctl_result != 0 {
        AfterFork::Fail
    } else if parent_pid != supervisor_pid {
        AfterFork::Die
    } else {
        AfterFork::Run
    }
}

/// How far the job object has come.
#[derive(Clone, Copy, Debug, PartialEq, Eq, Structural)]
pub enum JobSetup {
    /// It exists, and is to be told to kill its members when it is closed.
    Configure { handle: isize },
    /// It is ready for use, or it cannot be had.
    Done { job: Option<isize> },
}

impl JobSetup {
    /// Takes in the handle of the new job object, 0 if there is none.
    pub fn created(handle: isize) -> (setup: Self)
        ensures
            handle == 0 ==> setup == (JobSetup::Done { job: None }),
            handle != 0 ==> setup == (JobSetup::Configure { handle }),
    {
        if handle == 0 {
            JobSetup::Done { job: None }
        } else {
            JobSetup::Configure { handle }
        }
    }

    /// Takes in whether the job object could be configured, 0 if not. One that
    /// could not is not used: the workers are then ended one by one.
    pub fn configured(self, ok: i32) -> (job: Option<isize>)
        ensures
            job == (match self {
                JobSetup::Configure { handle } => if ok == 0 {
                    None
                } else {
                    Some(handle)
                },
                JobSetup::Done { job } => job,
            }),
    {
        match self {
            JobSetup::Configure { handle } => {
                if ok == 0 {
                    None
                } else {
                    Some(handle)
                }
            },
            JobSetup::Done { job } => job,
        }
    }
}

/// A worker runs only under the supervisor's protection: the kernel has promised
/// to kill it along with its parent, and that parent is the supervisor. Where both
/// hold it does run, and without the promise it never gets as far as to ask after
/// its parent.
pub proof fn law_worker_runs_only_under_the_supervisor(
    prctl_result: i32,
    parent_pid: i32,
    supervisor_pid: i32,
    fate: AfterFork,
)
    requires
        call_ensures(after_fork, (prctl_result, parent_pid, supervisor_pid), fate),
    ensures
        fate is Run <==> prctl_result == 0 && parent_pid == supervisor_pid,
        prctl_result != 0 ==> fate is Fail,
        prctl_result == 0 && parent_pid != supervisor_pid ==> fate is Die,
{
}

/// A job object is used exactly where it was made and told to kill its members,
/// and it is the one that was made.
pub proof fn law_job_is_used_once_it_is_set_up(
    handle: isize,
    setup: JobSetup,
    ok: i32,
    job: Option<isize>,
)
    requires
        call_ensures(JobSetup::created, (handle,), setup),
        call_ensures(JobSetup::configured, (setup, ok), job),
    ensures
        handle != 0 && ok != 0 ==> job == Some(handle),
        handle == 0 || ok == 0 ==> job is None,
        setup is Configure <==> handle != 0,
{
}

/// A job object that is ready needs nothing more: whatever is reported of its
/// configuration changes nothing.
pub proof fn law_finished_setup_is_final(ready: Option<isize>, ok: i32, job: Option<isize>)
    requires
        call_ensures(JobSetup::configured, (JobSetup::Done { job: ready }, ok), job),
    ensures
        job == ready,
{
}

} // verus!
