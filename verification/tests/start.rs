use valve::start::{valve_start, DOCS_PATH, ROOT_PATH, WORKER_PATHS};

#[test]
fn plan_holds_what_was_given() {
    let plan = valve_start(
        String::from("plumber.R"),
        String::from("127.0.0.1"),
        3000,
        2,
        5,
        10,
        300,
    );
    assert_eq!(plan.manager.host, "127.0.0.1");
    assert_eq!(plan.manager.pr_file, "plumber.R");
    assert_eq!(plan.max_size, 5);
    assert_eq!(plan.warm_target, 2);
    assert_eq!(plan.n_min, 2);
    assert_eq!(plan.interval_secs, 10);
    assert_eq!(plan.max_age_secs, 300);
    assert_eq!(plan.bind_address, "127.0.0.1:3000");
}

#[test]
fn plan_starts_one_worker_at_least() {
    let plan = valve_start(String::new(), String::new(), 0, 0, 5, 0, i32::MAX);
    assert_eq!(plan.warm_target, 1);
    assert_eq!(plan.n_min, 0);
    assert_eq!(plan.interval_secs, 0);
    assert_eq!(plan.max_age_secs, 2147483647);
}

#[test]
fn browser_is_sent_to_the_documentation() {
    assert_eq!(ROOT_PATH, "/");
    assert_eq!(DOCS_PATH, "/__docs__/");
    assert_eq!(WORKER_PATHS, "/*key");
}
