use valve::plumber::{spawn_plumber, Error, Plumber, PrManager, Probe, WaitStatus};

fn manager() -> PrManager {
    PrManager { host: String::from("127.0.0.1"), pr_file: String::from("plumber.R") }
}

fn worker() -> Plumber {
    Plumber { host: String::from("127.0.0.1"), port: 4321 }
}

#[test]
fn launch_command_runs_plumber() {
    let command = spawn_plumber("127.0.0.1", 8080, "dir/plumber.R");
    assert_eq!(command.program, "Rscript");
    assert_eq!(
        command.args,
        vec![
            "-e",
            "plumber::plumb('dir/plumber.R')$run(host = '127.0.0.1', port = 8080)"
        ]
    );
}

#[test]
fn spawned_worker_is_where_its_command_serves() {
    let (plumber, command) = Plumber::spawn("localhost", "api.R", 65535);
    assert_eq!(plumber.host, "localhost");
    assert_eq!(plumber.port, 65535);
    assert_eq!(
        command.args[1],
        "plumber::plumb('api.R')$run(host = 'localhost', port = 65535)"
    );
}

#[test]
fn manager_prepares_workers_for_its_file() {
    let (plumber, command) = manager().prepare(1024);
    assert_eq!(plumber.host, "127.0.0.1");
    assert_eq!(plumber.port, 1024);
    assert_eq!(
        command.args[1],
        "plumber::plumb('plumber.R')$run(host = '127.0.0.1', port = 1024)"
    );
}

#[test]
fn launched_worker_joins_the_pool() {
    let created = manager().create(worker(), true).unwrap();
    assert_eq!(created.host, "127.0.0.1");
    assert_eq!(created.port, 4321);
}

#[test]
fn worker_that_cannot_be_launched_is_an_error() {
    assert_eq!(manager().create(worker(), false).unwrap_err(), Error::Fail);
}

#[test]
fn only_a_running_process_is_alive() {
    assert!(worker().is_alive(WaitStatus::Running));
    assert!(!worker().is_alive(WaitStatus::Exited));
    assert!(!worker().is_alive(WaitStatus::Unavailable));
}

#[test]
fn reachable_worker_is_recycled() {
    assert_eq!(manager().recycle(&worker(), Probe::Connected), Ok(()));
}

#[test]
fn unreachable_worker_is_evicted() {
    let probe = Probe::Failed { reason: String::from("connection refused") };
    assert_eq!(
        manager().recycle(&worker(), probe).unwrap_err(),
        "plumber worker 127.0.0.1:4321 not reachable: connection refused"
    );
}

#[test]
fn silent_worker_is_evicted() {
    assert_eq!(
        manager().recycle(&worker(), Probe::TimedOut).unwrap_err(),
        "plumber worker 127.0.0.1:4321 health check timed out"
    );
}

#[test]
fn manager_error_in_words() {
    assert_eq!(Error::Fail.message(), "plumber manager failure");
}

#[test]
fn dead_worker_stays_dead() {
    let worker = worker();
    let seen = [
        (WaitStatus::Running, true),
        (WaitStatus::Exited, false),
        (WaitStatus::Unavailable, false),
        (WaitStatus::Exited, false),
    ];
    for (status, alive) in seen {
        assert_eq!(worker.is_alive(status), alive);
    }
}
