//! What the supervisor is started with.

use crate::plumber::{LaunchCommand, Plumber, PrManager};
use crate::pool::warm_target;
use crate::text::address;
use vstd::prelude::*;

verus! {

/// The path under which a browser begins.
pub const ROOT_PATH: &'static str = "/";

/// Where it is sent from there: the documentation of the API.
pub const DOCS_PATH: &'static str = "/__docs__/";

/// Every other path is a worker's.
pub const WORKER_PATHS: &'static str = "/*key";

/// All that is settled before the first worker is started.
#[derive(Debug)]
pub struct StartPlan {
    /// Makes the workers.
    pub manager: PrManager,
    /// How many workers there can be at a time.
    pub max_size: usize,
    /// How many there are to be before the first request is taken.
    pub warm_target: usize,
    /// How many are kept, however long they are idle.
    pub n_min: usize,
    /// How often idle workers are looked for.
    pub interval_secs: u64,
    /// How long a worker may be idle.
    pub max_age_secs: u64,
    /// Where requests are taken.
    pub bind_address: String,
}

impl StartPlan {
    /// `self` is how the API in `filepath` is served at `host:port`.
    pub open spec fn settles(
        self,
        filepath: Seq<char>,
        host: Seq<char>,
        port: u16,
        n_min: usize,
        n_max: usize,
        check_interval: i32,
        max_age: i32,
    ) -> bool {
        &&& self.manager.host@ == host
        &&& self.manager.pr_file@ == filepath
        &&& self.max_size == n_max
        &&& self.warm_target == crate::pool::warm_size(n_min as nat, n_max as nat)
        &&& self.n_min == n_min
        &&& self.interval_secs == check_interval
        &&& self.max_age_secs == max_age
        &&& self.bind_address@ == crate::text::address_text(host, port)
    }
}

/// Settles how the API in `filepath` is served at `host:port`: with at most
/// `n_max` workers, of which `n_min` are kept, and with a look for idle ones every
/// `check_interval` seconds, in which those go that have been idle for `max_age`
/// seconds.
pub fn valve_start(
    filepath: String,
    host: String,
    port: u16,
    n_min: usize,
    n_max: usize,
    check_interval: i32,
    max_age: i32,
) -> (plan: StartPlan)
    requires
        check_interval >= 0,
        max_age >= 0,
    ensures
        plan.settles(filepath@, host@, port, n_min, n_max, check_interval, max_age),
        plan.bind_address@ == host@ + ":"@ + crate::text::decimal_text(port as nat),
{
    let bind_address = address(host.as_str(), port);
    StartPlan {
        manager: PrManager { host, pr_file: filepath },
        max_size: n_max,
        warm_target: warm_target(n_min, n_max),
        n_min,
        interval_secs: check_interval as u64,
        max_age_secs: max_age as u64,
        bind_address,
    }
}

/// Every worker serves what the supervisor was started with: one that the plan's
/// manager prepares is at the host that was given, and the command that starts it
/// serves the file that was given.
pub proof fn law_every_worker_serves_what_was_given(
    plan: StartPlan,
    filepath: Seq<char>,
    host: Seq<char>,
    port: u16,
    n_min: usize,
    n_max: usize,
    check_interval: i32,
    max_age: i32,
    worker_port: u16,
    prepared: (Plumber, LaunchCommand),
)
    requires
        plan.settles(filepath, host, port, n_min, n_max, check_interval, max_age),
        plan.manager.prepares(worker_port, prepared),
    ensures
        prepared.0.host@ == host,
        prepared.0.port == worker_port,
        prepared.1.serves(host, worker_port, filepath),
{
}

/// The pool begins within its bounds: as many workers as are started fit in it,
/// and are as many as are kept, where `n_min` and `n_max` can both be had.
pub proof fn law_pool_begins_within_bounds(
    plan: StartPlan,
    filepath: Seq<char>,
    host: Seq<char>,
    port: u16,
    n_min: usize,
    n_max: usize,
    check_interval: i32,
    max_age: i32,
)
    requires
        plan.settles(filepath, host, port, n_min, n_max, check_interval, max_age),
        n_max >= 1,
    ensures
        1 <= plan.warm_target <= plan.max_size,
        n_min <= n_max ==> plan.warm_target >= plan.n_min,
{
}

/// The supervisor listens where it was told to: whatever the host and the port,
/// the address of the plan reads as these two.
pub proof fn law_plan_listens_where_it_was_told(
    filepath: String,
    host: String,
    port: u16,
    n_min: usize,
    n_max: usize,
    check_interval: i32,
    max_age: i32,
    plan: StartPlan,
)
    requires
        call_ensures(
            valve_start,
            (filepath, host, port, n_min, n_max, check_interval, max_age),
            plan,
        ),
    ensures
        crate::text::reads_as_address(plan.bind_address@, host@, port as int),
{
    crate::text::lemma_address_text_reads_as_address(host@, port);
}

/// Where a supervisor listens tells the host and the port that it was started
/// with, whatever else it was: two that differ in either do not listen at the same
/// address, and two that differ in neither do.
pub proof fn law_plans_listen_apart(
    filepath: String,
    host: String,
    port: u16,
    n_min: usize,
    n_max: usize,
    check_interval: i32,
    max_age: i32,
    plan: StartPlan,
    other_filepath: String,
    other_host: String,
    other_port: u16,
    other_n_min: usize,
    other_n_max: usize,
    other_check_interval: i32,
    other_max_age: i32,
    other_plan: StartPlan,
)
    requires
        call_ensures(
            valve_start,
            (filepath, host, port, n_min, n_max, check_interval, max_age),
            plan,
        ),
        call_ensures(
            valve_start,
            (
                other_filepath,
                other_host,
                other_port,
                other_n_min,
                other_n_max,
                other_check_interval,
                other_max_age,
            ),
            other_plan,
        ),
    ensures
        plan.bind_address@ == other_plan.bind_address@ <==> host@ == other_host@ && port
            == other_port,
{
    if plan.bind_address@ == other_plan.bind_address@ {
        crate::text::law_address_identifies_worker(host@, port, other_host@, other_port);
    }
}

/// Nothing that the supervisor was started with is lost or changed on the way into
/// its plan, and as many workers are started as `n_min` asks for and `n_max`
/// allows, but never none.
pub proof fn law_plan_keeps_what_was_given(
    filepath: String,
    host: String,
    port: u16,
    n_min: usize,
    n_max: usize,
    check_interval: i32,
    max_age: i32,
    plan: StartPlan,
)
    requires
        call_ensures(
            valve_start,
            (filepath, host, port, n_min, n_max, check_interval, max_age),
            plan,
        ),
    ensures
        plan.manager.host@ == host@,
        plan.manager.pr_file@ == filepath@,
        plan.max_size == n_max,
        plan.n_min == n_min,
        plan.interval_secs == check_interval,
        plan.max_age_secs == max_age,
        plan.warm_target >= 1,
        plan.warm_target >= n_min || plan.warm_target >= n_max,
        plan.warm_target > 1 ==> plan.warm_target <= n_min && plan.warm_target <= n_max,
{
}

} // verus!
