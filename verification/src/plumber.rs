//! Workers: R processes that serve one plumber API each, and the manager that
//! brings them into the pool and takes them out again.

use crate::proxy::{Outcome, Proxy, Refusal};
use crate::text::{address, decimal};
use crate::uri::{is_authority, upstream_uri, UriError};
use vstd::prelude::*;

verus! {

/// The program that runs a worker. `Rscript` runs the R engine as a single
/// process, so that the process which is tracked is the worker itself.
pub const WORKER_PROGRAM: &'static str = "Rscript";

/// How long a worker may take to accept a connection before it is evicted.
pub const HEALTH_TIMEOUT_MILLIS: u64 = 250;

/// A worker, by where it serves.
#[derive(Debug)]
pub struct Plumber {
    pub host: String,
    pub port: u16,
}

/// A command line.
#[derive(Debug)]
pub struct LaunchCommand {
    pub program: String,
    pub args: Vec<String>,
}

/// What asking after a process, without waiting for it, can bring.
#[derive(Clone, Copy, Debug, PartialEq, Eq, Structural)]
pub enum WaitStatus {
    /// It has exited.
    Exited,
    /// It is still running.
    Running,
    /// Its status could not be had.
    Unavailable,
}

/// Whether `status` says that the process is running.
pub open spec fn shows_life(status: WaitStatus) -> bool {
    status == WaitStatus::Running
}

/// A process that has exited stays so: what is asked of it at one time and then
/// at another never says that it runs again.
pub open spec fn exit_is_final(statuses: Seq<WaitStatus>) -> bool {
    forall|i: int, j: int|
        0 <= i <= j < statuses.len() && #[trigger] statuses[i] == WaitStatus::Exited
            ==> #[trigger] statuses[j] != WaitStatus::Running
}

/// A worker that has died is never reported alive again: of the reports on what
/// one process was seen to be, none that follows its exit says that it is alive.
pub proof fn law_dead_worker_stays_dead(
    statuses: Seq<WaitStatus>,
    reports: Seq<bool>,
    i: int,
    j: int,
)
    requires
        exit_is_final(statuses),
        reports.len() == statuses.len(),
        forall|k: int| 0 <= k < statuses.len() ==> #[trigger] reports[k] == shows_life(statuses[k]),
        0 <= i <= j < statuses.len(),
        statuses[i] == WaitStatus::Exited,
    ensures
        !reports[i],
        !reports[j],
{
    assert(reports[i] == shows_life(statuses[i]));
    assert(reports[j] == shows_life(statuses[j]));
}

/// The R code that serves the API in `filepath` at `host:port`.
pub open spec fn serve_expression(host: Seq<char>, port: u16, filepath: Seq<char>) -> Seq<char> {
    "plumber::plumb('"@ + filepath + "')$run(host = '"@ + host + "', port = "@
        + crate::text::decimal_text(port as nat) + ")"@
}

impl LaunchCommand {
    /// `self` starts a worker that serves the API in `filepath` at `host:port`.
    pub open spec fn serves(self, host: Seq<char>, port: u16, filepath: Seq<char>) -> bool {
        &&& self.program@ == WORKER_PROGRAM@
        &&& self.args.len() == 2
        &&& self.args[0]@ == "-e"@
        &&& self.args[1]@ == serve_expression(host, port, filepath)
    }
}

/// The command that starts a worker.
pub fn spawn_plumber(host: &str, port: u16, filepath: &str) -> (command: LaunchCommand)
    ensures
        command.serves(host@, port, filepath@),
        command.args@[1]@ == "plumber::plumb('"@ + filepath@ + "')$run(host = '"@ + host@
            + "', port = "@ + crate::text::decimal_text(port as nat) + ")"@,
{
    let mut expression = "plumber::plumb('".to_owned();
    expression.append(filepath);
    expression.append("')$run(host = '");
    expression.append(host);
    expression.append("', port = ");
    expression.append(decimal(port).as_str());
    expression.append(")");
    let mut args: Vec<String> = Vec::new();
    args.push("-e".to_owned());
    args.push(expression);
    LaunchCommand { program: WORKER_PROGRAM.to_owned(), args }
}

impl Plumber {
    /// The worker that is to serve at `host:port`, and the command that starts
    /// it.
    pub fn spawn(host: &str, filepath: &str, port: u16) -> (spawned: (Self, LaunchCommand))
        ensures
            spawned.0.host@ == host@,
            spawned.0.port == port,
            spawned.1.serves(host@, port, filepath@),
    {
        let command = spawn_plumber(host, port, filepath);
        (Plumber { host: host.to_owned(), port }, command)
    }

    /// Whether the worker's process is known to be running.
    pub fn is_alive(&self, status: WaitStatus) -> (alive: bool)
        ensures
            alive == shows_life(status),
    {
        match status {
            WaitStatus::Exited => false,
            WaitStatus::Running => true,
            WaitStatus::Unavailable => false,
        }
    }

    /// `proxy` is how a request for `target` with the head `head` sets out to
    /// this worker, given whether the worker's `host:port` is an authority and
    /// what `target` reads as.
    pub open spec fn sets_out<H, B, R>(
        self,
        proxy: Result<Proxy<H, B, R>, UriError>,
        target: Option<Seq<char>>,
        head: H,
        accepted: bool,
        path: Option<Seq<char>>,
    ) -> bool {
        if !accepted {
            proxy == Err::<Proxy<H, B, R>, UriError>(UriError::Authority)
        } else if target is None {
            proxy == Ok::<Proxy<H, B, R>, UriError>(
                Proxy::Finished { outcome: Outcome::Refused(Refusal::InvalidUri) },
            )
        } else if path is None {
            proxy == Err::<Proxy<H, B, R>, UriError>(UriError::Path)
        } else {
            &&& proxy matches Ok(Proxy::ReadingBody { uri, head: h })
            &&& uri.points_at(self.host@, self.port, path->0)
            &&& h == head
        }
    }

    /// Sets a request out to this worker, which must be one that can be
    /// addressed: the request's address is rewritten, and its body is read next.
    /// A request without a path is refused.
    pub fn proxy_request<H, B, R>(&self, target: Option<&str>, head: H) -> (proxy: Result<
        Proxy<H, B, R>,
        UriError,
    >)
        requires
            crate::uri::authority_accepts(crate::text::address_text(self.host@, self.port)),
        ensures
            self.sets_out(
                proxy,
                match target {
                    Some(t) => Some(t@),
                    None => None,
                },
                head,
                true,
                match target {
                    Some(t) => crate::uri::path_and_query_text(t@),
                    None => None,
                },
            ),
            target is Some && crate::uri::is_plain(target->0@) ==> {
                proxy matches Ok(Proxy::ReadingBody { uri, .. }) ==> uri.path_and_query@
                    == target->0@
            },
            crate::uri::is_host_name(self.host@) ==> match target {
                Some(t) => crate::uri::is_path(t@) ==> {
                    &&& proxy matches Ok(Proxy::ReadingBody { uri, .. })
                    &&& uri.points_at(self.host@, self.port, t@)
                },
                None => proxy == Ok::<Proxy<H, B, R>, UriError>(
                    Proxy::Finished { outcome: Outcome::Refused(Refusal::InvalidUri) },
                ),
            },
            proxy matches Ok(p) ==> p.well_formed(),
    {
        Proxy::begin(upstream_uri(self.host.as_str(), self.port, target), head)
    }
}

/// Takes up a client's request with the worker that the pool gave for it, or
/// refuses it where the pool gave none. A worker that cannot be addressed is not
/// handed the request.
pub fn plumber_handler<H, B, R>(worker: Option<&Plumber>, target: Option<&str>, head: H) -> (proxy:
    Result<Proxy<H, B, R>, UriError>)
    ensures
        worker is None ==> proxy == Ok::<Proxy<H, B, R>, UriError>(
            Proxy::Finished { outcome: Outcome::Refused(Refusal::NoWorker) },
        ),
        worker matches Some(w) ==> w.sets_out(
            proxy,
            match target {
                Some(t) => Some(t@),
                None => None,
            },
            head,
            crate::uri::authority_accepts(crate::text::address_text(w.host@, w.port)),
            match target {
                Some(t) => crate::uri::path_and_query_text(t@),
                None => None,
            },
        ),
        target is Some && crate::uri::is_plain(target->0@) ==> {
            proxy matches Ok(Proxy::ReadingBody { uri, .. }) ==> uri.path_and_query@ == target->0@
        },
        worker is Some && target is None && crate::uri::is_host_name(worker->0.host@) ==> proxy
            == Ok::<Proxy<H, B, R>, UriError>(
            Proxy::Finished { outcome: Outcome::Refused(Refusal::InvalidUri) },
        ),
        worker is Some && target is Some && crate::uri::is_host_name(worker->0.host@)
            && crate::uri::is_path(target->0@) ==> {
            &&& proxy matches Ok(Proxy::ReadingBody { uri, .. })
            &&& uri.points_at(worker->0.host@, worker->0.port, target->0@)
        },
        proxy matches Ok(p) ==> p.well_formed(),
{
    match worker {
        Some(worker) => {
            if is_authority(worker.host.as_str(), worker.port) {
                worker.proxy_request(target, head)
            } else {
                Err(UriError::Authority)
            }
        },
        None => Ok(Proxy::Finished { outcome: Outcome::Refused(Refusal::NoWorker) }),
    }
}

/// Brings workers into the pool and checks on them.
#[derive(Debug)]
pub struct PrManager {
    pub host: String,
    pub pr_file: String,
}

/// Why a worker could not be made.
#[derive(Clone, Copy, Debug, PartialEq, Eq, Structural)]
pub enum Error {
    Fail,
}

impl Error {
    /// The error in words.
    pub fn message(&self) -> (text: String)
        ensures
            text@ == "plumber manager failure"@,
    {
        match self {
            Error::Fail => "plumber manager failure".to_owned(),
        }
    }
}

/// What came of connecting to a worker.
#[derive(Debug)]
pub enum Probe {
    /// It accepted the connection.
    Connected,
    /// The connection failed, for the reason given.
    Failed { reason: String },
    /// It did not answer within `HEALTH_TIMEOUT_MILLIS`.
    TimedOut,
}

/// Why the worker at `host:port` goes, after `probe`.
pub open spec fn eviction_text(host: Seq<char>, port: u16, probe: Probe) -> Seq<char> {
    match probe {
        Probe::Failed { reason } => "plumber worker "@ + crate::text::address_text(host, port)
            + " not reachable: "@ + reason@,
        _ => "plumber worker "@ + crate::text::address_text(host, port)
            + " health check timed out"@,
    }
}

/// Whether a worker may be handed out again, after `probe`.
pub open spec fn stays(probe: Probe) -> bool {
    probe is Connected
}

impl PrManager {
    /// `prepared` is a worker of this manager on `port`, and the command that
    /// starts it.
    pub open spec fn prepares(self, port: u16, prepared: (Plumber, LaunchCommand)) -> bool {
        &&& prepared.0.host@ == self.host@
        &&& prepared.0.port == port
        &&& prepared.1.serves(self.host@, port, self.pr_file@)
    }

    /// A worker for the pool, to serve on `port`, and the command that starts it.
    pub fn prepare(&self, port: u16) -> (prepared: (Plumber, LaunchCommand))
        ensures
            self.prepares(port, prepared),
    {
        Plumber::spawn(self.host.as_str(), self.pr_file.as_str(), port)
    }

    /// Brings a worker into the pool, once its command has been `launched` or
    /// could not be.
    pub fn create(&self, prepared: Plumber, launched: bool) -> (created: Result<Plumber, Error>)
        ensures
            created == (if launched {
                Ok(prepared)
            } else {
                Err(Error::Fail)
            }),
    {
        if launched {
            Ok(prepared)
        } else {
            Err(Error::Fail)
        }
    }

    /// Decides, on what came of connecting to it, whether a worker may be handed
    /// out again. One that does not accept connections is evicted, with the
    /// reason in words.
    pub fn recycle(&self, conn: &Plumber, probe: Probe) -> (kept: Result<(), String>)
        ensures
            kept is Ok <==> stays(probe),
            kept matches Err(reason) ==> reason@ == eviction_text(conn.host@, conn.port, probe),
    {
        let mut reason = "plumber worker ".to_owned();
        reason.append(address(conn.host.as_str(), conn.port).as_str());
        match probe {
            Probe::Connected => Ok(()),
            Probe::Failed { reason: error } => {
                reason.append(" not reachable: ");
                reason.append(error.as_str());
                Err(reason)
            },
            Probe::TimedOut => {
                reason.append(" health check timed out");
                Err(reason)
            },
        }
    }
}

/// What came of asking the pool for a worker.
pub ghost struct Checkout {
    /// The worker that is handed out.
    pub handed: Option<Plumber>,
    /// The workers that left the pool over it.
    pub evicted: Seq<Plumber>,
    /// Whether a worker joined the pool over it, which is the one handed out.
    pub made: bool,
}

/// How a worker is handed out: the idle ones are probed, in the order in which
/// the pool offers them, until one stays, and each that does not is evicted.
/// Where none stays, it is the `new` one, if one could be made.
pub open spec fn checkout(idle: Seq<(Plumber, Probe)>, new: Option<Plumber>) -> Checkout
    decreases idle.len(),
{
    if idle.len() == 0 {
        Checkout { handed: new, evicted: Seq::empty(), made: new is Some }
    } else if stays(idle[0].1) {
        Checkout { handed: Some(idle[0].0), evicted: Seq::empty(), made: false }
    } else {
        let rest = checkout(idle.drop_first(), new);
        Checkout {
            handed: rest.handed,
            evicted: seq![idle[0].0] + rest.evicted,
            made: rest.made,
        }
    }
}

/// A checkout passes over dead workers: those that did not accept a connection
/// leave the pool, up to the first one that did, which is handed out. Where none
/// did, all have left, and the new worker is handed out.
pub proof fn law_checkout_passes_over_dead_workers(
    idle: Seq<(Plumber, Probe)>,
    new: Option<Plumber>,
)
    ensures
        checkout(idle, new).evicted.len() <= idle.len(),
        forall|i: int|
            0 <= i < checkout(idle, new).evicted.len() ==> {
                &&& (#[trigger] checkout(idle, new).evicted[i]) == idle[i].0
                &&& idle[i].1 !is Connected
            },
        checkout(idle, new).evicted.len() < idle.len() ==> {
            let first = idle[checkout(idle, new).evicted.len() as int];
            first.1 is Connected && checkout(idle, new).handed == Some(first.0)
        },
        checkout(idle, new).evicted.len() == idle.len() ==> checkout(idle, new).handed == new,
        checkout(idle, new).made <==> checkout(idle, new).evicted.len() == idle.len()
            && new is Some,
    decreases idle.len(),
{
    let out = checkout(idle, new);
    if idle.len() > 0 && !stays(idle[0].1) {
        let rest = idle.drop_first();
        law_checkout_passes_over_dead_workers(rest, new);
        let inner = checkout(rest, new);
        let n = inner.evicted.len() as int;
        assert(out.evicted.len() == n + 1);
        if n < rest.len() {
            assert(rest[n] == idle[n + 1]);
        }
        assert forall|i: int| 0 <= i < out.evicted.len() implies {
            &&& (#[trigger] out.evicted[i]) == idle[i].0
            &&& idle[i].1 !is Connected
        } by {
            if i > 0 {
                assert(inner.evicted[i - 1] == rest[i - 1].0);
            }
        }
    } else {
        assert(out.evicted.len() == 0);
    }
}

/// A pool of dead workers heals: where none of the idle ones accepts a
/// connection, all of them leave the pool, and the new worker is handed out.
pub proof fn law_dead_pool_heals(idle: Seq<(Plumber, Probe)>, new: Option<Plumber>)
    requires
        forall|i: int| 0 <= i < idle.len() ==> (#[trigger] idle[i]).1 !is Connected,
    ensures
        checkout(idle, new).handed == new,
        checkout(idle, new).evicted == idle.map_values(|tried: (Plumber, Probe)| tried.0),
{
    law_checkout_passes_over_dead_workers(idle, new);
    let out = checkout(idle, new);
    if out.evicted.len() < idle.len() {
        assert(idle[out.evicted.len() as int].1 !is Connected);
    }
    assert(out.evicted =~= idle.map_values(|tried: (Plumber, Probe)| tried.0));
}

/// A request goes to the worker that was handed out for it and to no other: its
/// address is that worker's, which is no other worker's.
pub proof fn law_request_goes_to_the_worker_handed_out<H, B, R>(
    worker: Plumber,
    other: Plumber,
    proxy: Result<Proxy<H, B, R>, UriError>,
    target: Option<Seq<char>>,
    head: H,
    accepted: bool,
    path: Option<Seq<char>>,
)
    requires
        worker.sets_out(proxy, target, head, accepted, path),
        worker.host@ != other.host@ || worker.port != other.port,
        proxy matches Ok(Proxy::ReadingBody { .. }),
    ensures
        proxy->Ok_0->ReadingBody_uri.authority@ == crate::text::address_text(
            worker.host@,
            worker.port,
        ),
        proxy->Ok_0->ReadingBody_uri.authority@ != crate::text::address_text(
            other.host@,
            other.port,
        ),
{
    if crate::text::address_text(worker.host@, worker.port) == crate::text::address_text(
        other.host@,
        other.port,
    ) {
        crate::text::law_address_identifies_worker(
            worker.host@,
            worker.port,
            other.host@,
            other.port,
        );
    }
}

/// There is one way for a request to set out to a worker: whatever is handed the
/// same worker, target and head, be it the handler or the worker, the same comes
/// of it.
pub proof fn law_request_sets_out_one_way<H, B, R>(
    worker: Plumber,
    one: Result<Proxy<H, B, R>, UriError>,
    other: Result<Proxy<H, B, R>, UriError>,
    target: Option<Seq<char>>,
    head: H,
    accepted: bool,
    path: Option<Seq<char>>,
)
    requires
        worker.sets_out(one, target, head, accepted, path),
        worker.sets_out(other, target, head, accepted, path),
    ensures
        match (one, other) {
            (
                Ok(Proxy::ReadingBody { uri: u, head: h }),
                Ok(Proxy::ReadingBody { uri: v, head: k }),
            ) => {
                &&& h == k
                &&& u.scheme@ == v.scheme@
                &&& u.authority@ == v.authority@
                &&& u.path_and_query@ == v.path_and_query@
            },
            _ => one == other,
        },
{
}

/// `code` reads as R code that serves the API in `filepath` at `host` and `port`:
/// the file and the host stand in quotes, the port as a numeral, each in its place.
pub open spec fn reads_as_serving(
    code: Seq<char>,
    host: Seq<char>,
    port: int,
    filepath: Seq<char>,
) -> bool {
    exists|numeral: Seq<char>|
        crate::text::is_numeral_of(numeral, port) && code == "plumber::plumb('"@ + filepath
            + "')$run(host = '"@ + host + "', port = "@ + #[trigger] (numeral + ")"@)
}

proof fn lemma_serve_expression_reads_as_serving(
    host: Seq<char>,
    port: u16,
    filepath: Seq<char>,
)
    ensures
        reads_as_serving(serve_expression(host, port, filepath), host, port as int, filepath),
{
    let numeral = crate::text::decimal_text(port as nat);
    crate::text::lemma_decimal_text_is_numeral(port as nat);
    let code = "plumber::plumb('"@ + filepath + "')$run(host = '"@ + host + "', port = "@ + (
    numeral + ")"@);
    assert(serve_expression(host, port, filepath) =~= code);
}

/// The command starts `Rscript` on one piece of code, which serves the file that
/// was given at the host and the port that were given, whichever they are.
pub proof fn law_command_serves_where_it_was_told(
    host: &str,
    port: u16,
    filepath: &str,
    command: LaunchCommand,
)
    requires
        call_ensures(spawn_plumber, (host, port, filepath), command),
    ensures
        command.program@ == "Rscript"@,
        command.args@.len() == 2,
        command.args@[0]@ == "-e"@,
        reads_as_serving(command.args@[1]@, host@, port as int, filepath@),
{
    lemma_serve_expression_reads_as_serving(host@, port, filepath@);
}

/// The code of a command tells the port that it serves at: two commands for the
/// same file and host are the same only where their ports are.
pub proof fn law_commands_tell_their_ports(
    host: &str,
    filepath: &str,
    port: u16,
    command: LaunchCommand,
    other_port: u16,
    other_command: LaunchCommand,
)
    requires
        call_ensures(spawn_plumber, (host, port, filepath), command),
        call_ensures(spawn_plumber, (host, other_port, filepath), other_command),
    ensures
        command.args@[1]@ == other_command.args@[1]@ <==> port == other_port,
{
    let code = command.args@[1]@;
    let other_code = other_command.args@[1]@;
    if code == other_code {
        let front = "plumber::plumb('"@ + filepath@ + "')$run(host = '"@ + host@ + "', port = "@;
        let digits = crate::text::decimal_text(port as nat);
        let other_digits = crate::text::decimal_text(other_port as nat);
        reveal_strlit(")");
        assert(code =~= front + digits + ")"@);
        assert(other_code =~= front + other_digits + ")"@);
        assert(code.subrange(front.len() as int, code.len() - 1) =~= digits);
        assert(code.subrange(front.len() as int, code.len() - 1) =~= other_digits);
        crate::text::law_decimal_text_identifies_number(port as nat, other_port as nat);
    }
}

/// The code of a command tells the file that it serves, and the host: two commands
/// that differ in one of them alone are different.
pub proof fn law_commands_tell_their_files_and_hosts(
    host: &str,
    other_host: &str,
    port: u16,
    filepath: &str,
    other_filepath: &str,
    command: LaunchCommand,
    for_other_host: LaunchCommand,
    for_other_file: LaunchCommand,
)
    requires
        call_ensures(spawn_plumber, (host, port, filepath), command),
        call_ensures(spawn_plumber, (other_host, port, filepath), for_other_host),
        call_ensures(spawn_plumber, (host, port, other_filepath), for_other_file),
    ensures
        command.args@[1]@ == for_other_host.args@[1]@ <==> host@ == other_host@,
        command.args@[1]@ == for_other_file.args@[1]@ <==> filepath@ == other_filepath@,
{
    let code = command.args@[1]@;
    let begin = "plumber::plumb('"@;
    let middle = begin + filepath@ + "')$run(host = '"@;
    let digits = crate::text::decimal_text(port as nat);
    let tail = "', port = "@ + digits + ")"@;
    if code == for_other_host.args@[1]@ {
        assert(code =~= middle + host@ + tail);
        assert(code =~= middle + other_host@ + tail);
        assert(code.subrange(middle.len() as int, code.len() - tail.len()) =~= host@);
        assert(code.subrange(middle.len() as int, code.len() - tail.len()) =~= other_host@);
    }
    let rest = "')$run(host = '"@ + host@ + tail;
    if code == for_other_file.args@[1]@ {
        assert(code =~= begin + filepath@ + rest);
        assert(code =~= begin + other_filepath@ + rest);
        assert(code.subrange(begin.len() as int, code.len() - rest.len()) =~= filepath@);
        assert(code.subrange(begin.len() as int, code.len() - rest.len()) =~= other_filepath@);
    }
}

/// A worker is where its command serves: the port that the pool knows it by is the
/// one that the code names, and so is the host.
pub proof fn law_worker_is_where_its_command_serves(
    host: &str,
    filepath: &str,
    port: u16,
    spawned: (Plumber, LaunchCommand),
)
    requires
        call_ensures(Plumber::spawn, (host, filepath, port), spawned),
    ensures
        spawned.0.host@ == host@,
        spawned.0.port == port,
        spawned.1.program@ == "Rscript"@,
        spawned.1.args@.len() == 2,
        spawned.1.args@[0]@ == "-e"@,
        reads_as_serving(
            spawned.1.args@[1]@,
            spawned.0.host@,
            spawned.0.port as int,
            filepath@,
        ),
{
    lemma_serve_expression_reads_as_serving(host@, port, filepath@);
}

/// A manager's workers serve its file at its host, each at the port that was found
/// for it.
pub proof fn law_manager_prepares_its_own_workers(
    manager: PrManager,
    port: u16,
    prepared: (Plumber, LaunchCommand),
)
    requires
        call_ensures(PrManager::prepare, (&manager, port), prepared),
    ensures
        prepared.0.host@ == manager.host@,
        prepared.0.port == port,
        prepared.1.program@ == "Rscript"@,
        prepared.1.args@.len() == 2,
        prepared.1.args@[0]@ == "-e"@,
        reads_as_serving(
            prepared.1.args@[1]@,
            manager.host@,
            port as int,
            manager.pr_file@,
        ),
{
    lemma_serve_expression_reads_as_serving(manager.host@, port, manager.pr_file@);
}

/// A worker joins the pool exactly where it was launched, and it is the one that
/// was.
pub proof fn law_only_launched_workers_join(
    manager: PrManager,
    prepared: Plumber,
    launched: bool,
    created: Result<Plumber, Error>,
)
    requires
        call_ensures(PrManager::create, (&manager, prepared, launched), created),
    ensures
        created is Ok <==> launched,
        created matches Ok(worker) ==> worker == prepared,
{
}

/// The manager's failure is told in words.
pub proof fn law_failure_is_told(error: Error, text: String)
    requires
        call_ensures(Error::message, (&error,), text),
    ensures
        text@ == "plumber manager failure"@,
{
}

/// A worker counts as alive exactly where its process is known to be running:
/// neither one that has exited nor one that cannot be asked after does.
pub proof fn law_only_a_running_worker_is_alive(
    worker: Plumber,
    status: WaitStatus,
    alive: bool,
)
    requires
        call_ensures(Plumber::is_alive, (&worker, status), alive),
    ensures
        status is Running ==> alive,
        status is Exited ==> !alive,
        status is Unavailable ==> !alive,
{
}

/// A worker is handed out again exactly where it accepted a connection. One that
/// did not is named, and why it goes is told: the reason of the failure, where
/// there is one, stands at the end.
pub proof fn law_only_a_reachable_worker_is_kept(
    manager: PrManager,
    worker: Plumber,
    probe: Probe,
    kept: Result<(), String>,
)
    requires
        call_ensures(PrManager::recycle, (&manager, &worker, probe), kept),
    ensures
        kept is Ok <==> probe is Connected,
        kept matches Err(reason) ==> exists|name: Seq<char>|
            crate::text::reads_as_address(name, worker.host@, worker.port as int) && {
                &&& probe matches Probe::Failed { reason: why } ==> reason@ == #[trigger] (
                "plumber worker "@ + name) + " not reachable: "@ + why@
                &&& probe is TimedOut ==> reason@ == ("plumber worker "@ + name)
                    + " health check timed out"@
            },
        HEALTH_TIMEOUT_MILLIS == 250,
{
    if kept is Err {
        let name = crate::text::address_text(worker.host@, worker.port);
        crate::text::lemma_address_text_reads_as_address(worker.host@, worker.port);
        assert(("plumber worker "@ + name).len() >= 0);
    }
}

/// `uri` leads over plain HTTP to the worker.
pub open spec fn leads_to(uri: crate::uri::UpstreamUri, worker: Plumber) -> bool {
    &&& uri.scheme@ == "http"@
    &&& crate::text::reads_as_address(uri.authority@, worker.host@, worker.port as int)
}

/// A request sets out to the worker that was asked to take it: with the client's
/// path and head, to that worker's address. Without a path it is refused, and one
/// with a malformed path is handed back.
pub proof fn law_request_sets_out_to_its_worker<H, B, R>(
    worker: Plumber,
    target: Option<&str>,
    head: H,
    proxy: Result<Proxy<H, B, R>, UriError>,
)
    requires
        call_ensures(Plumber::proxy_request::<H, B, R>, (&worker, target, head), proxy),
    ensures
        target is None ==> proxy == Ok::<Proxy<H, B, R>, UriError>(
            Proxy::Finished { outcome: Outcome::Refused(Refusal::InvalidUri) },
        ),
        target matches Some(t) ==> match proxy {
            Ok(set_out) => {
                &&& set_out is ReadingBody
                &&& leads_to(set_out->ReadingBody_uri, worker)
                &&& crate::uri::path_and_query_text(t@) == Some(
                    set_out->ReadingBody_uri.path_and_query@,
                )
                &&& t@.len() > 0 && !t@.contains('#') ==> set_out->ReadingBody_uri.path_and_query@
                    == t@
                &&& set_out->ReadingBody_head == head
            },
            Err(e) => e is Path && crate::uri::path_and_query_text(t@) is None,
        },
{
    crate::text::lemma_address_text_reads_as_address(worker.host@, worker.port);
}

/// A client's request is taken up with the worker that the pool gave: it sets out
/// to that worker's address with the client's path and head. Where the pool gave
/// none it is refused, and nothing else is refused for want of a worker.
pub proof fn law_handler_hands_the_request_to_the_worker_given<H, B, R>(
    worker: Option<&Plumber>,
    target: Option<&str>,
    head: H,
    proxy: Result<Proxy<H, B, R>, UriError>,
)
    requires
        call_ensures(plumber_handler::<H, B, R>, (worker, target, head), proxy),
    ensures
        worker is None <==> proxy == Ok::<Proxy<H, B, R>, UriError>(
            Proxy::Finished { outcome: Outcome::Refused(Refusal::NoWorker) },
        ),
        worker matches Some(w) ==> {
            let addressed = crate::uri::authority_accepts(
                w.host@ + ":"@ + crate::text::decimal_text(w.port as nat),
            );
            match proxy {
                Ok(Proxy::ReadingBody { uri, head: h }) => {
                    &&& addressed && target is Some
                    &&& leads_to(uri, *w)
                    &&& crate::uri::path_and_query_text(target->0@) == Some(uri.path_and_query@)
                    &&& target->0@.len() > 0 && !target->0@.contains('#') ==> uri.path_and_query@
                        == target->0@
                    &&& h == head
                },
                Ok(Proxy::Finished { outcome }) => {
                    &&& addressed && target is None
                    &&& outcome == Outcome::<R>::Refused(Refusal::InvalidUri)
                },
                Ok(_) => false,
                Err(e) => {
                    &&& e is Authority <==> !addressed
                    &&& e is Path <==> addressed && target is Some
                        && crate::uri::path_and_query_text(target->0@) is None
                    &&& e !is Incomplete
                },
            }
        },
{
    if let Some(w) = worker {
        crate::text::lemma_address_text_reads_as_address(w.host@, w.port);
    }
}

} // verus!
