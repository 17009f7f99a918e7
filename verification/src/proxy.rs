//! One client request on its way to a worker and back.
//!
//! `Proxy` decides; whoever drives it does the work. At every point
//! `Proxy::action` says what is to be done next, and `Proxy::advance` takes in
//! how that went. What no decision depends on is carried through untouched: a
//! request's head (`H`: method, version, headers), its buffered body (`B`) and
//! the worker's response (`R`).

use crate::uri::{UpstreamUri, UriError};
use vstd::prelude::*;

verus! {

/// How often a request is sent to its worker before the worker is given up.
pub const MAX_ATTEMPTS: u32 = 3;

/// The pause after the first failed attempt, and what each later pause adds.
pub const BACKOFF_STEP_MILLIS: u64 = 50;

/// The HTTP status of a request that could not be proxied.
pub const BAD_GATEWAY: u16 = 502;

/// A response that the proxy writes itself.
#[derive(Debug)]
pub struct ErrorResponse {
    pub status: u16,
    pub body: String,
}

/// Builds a small response of a status code and a text.
pub fn error_response(status: u16, msg: &str) -> (response: ErrorResponse)
    requires
        100 <= status < 1000,
    ensures
        response.status == status,
        response.body@ == msg@,
{
    ErrorResponse { status, body: msg.to_owned() }
}

/// Why a client gets an error in place of a worker's response.
#[derive(Clone, Copy, Debug, PartialEq, Eq, Structural)]
pub enum Refusal {
    /// The pool had no worker to give.
    NoWorker,
    /// The request has no address at the worker.
    InvalidUri,
    /// The client's request body could not be read.
    BodyUnreadable,
    /// The request to the worker could not be put together.
    RequestUnbuildable,
    /// The worker answered none of the attempts.
    WorkerUnavailable,
}

impl Refusal {
    /// What the client is told.
    pub open spec fn text(self) -> Seq<char> {
        match self {
            Refusal::NoWorker => "no plumber worker available"@,
            Refusal::InvalidUri => "invalid upstream uri"@,
            Refusal::BodyUnreadable => "could not read request body"@,
            Refusal::RequestUnbuildable => "could not build request"@,
            Refusal::WorkerUnavailable => "upstream worker unavailable"@,
        }
    }

    /// The response that tells the client so. Whatever the reason, it is a
    /// `502 Bad Gateway`.
    pub fn response(self) -> (response: ErrorResponse)
        ensures
            response.status == BAD_GATEWAY,
            response.body@ == self.text(),
    {
        match self {
            Refusal::NoWorker => error_response(BAD_GATEWAY, "no plumber worker available"),
            Refusal::InvalidUri => error_response(BAD_GATEWAY, "invalid upstream uri"),
            Refusal::BodyUnreadable => error_response(BAD_GATEWAY, "could not read request body"),
            Refusal::RequestUnbuildable => error_response(BAD_GATEWAY, "could not build request"),
            Refusal::WorkerUnavailable => error_response(
                BAD_GATEWAY,
                "upstream worker unavailable",
            ),
        }
    }
}

/// What is sent to the worker, the same at every attempt.
#[derive(Debug)]
pub struct UpstreamRequest<H, B> {
    pub uri: UpstreamUri,
    pub head: H,
    pub body: B,
}

/// What the client gets.
#[derive(Debug)]
pub enum Outcome<R> {
    /// The worker's response.
    Response(R),
    /// An error of the proxy's own.
    Refused(Refusal),
}

/// What is to be done next.
#[derive(Clone, Copy, Debug, PartialEq, Eq, Structural)]
pub enum Action {
    /// Read the client's request body to its end.
    ReadBody,
    /// Put the request for the worker together.
    BuildRequest,
    /// Send it.
    SendRequest,
    /// Wait.
    Sleep { millis: u64 },
    /// Hand the client what came of it.
    Finish,
}

/// How that went.
#[derive(Debug)]
pub enum Event<B, R> {
    BodyRead(B),
    BodyFailed,
    RequestBuilt,
    BuildFailed,
    Responded(R),
    SendFailed,
    SleptEnough,
}

/// Where a request stands. Attempts count from 0.
#[derive(Debug)]
pub enum Proxy<H, B, R> {
    ReadingBody { uri: UpstreamUri, head: H },
    Building { request: UpstreamRequest<H, B>, attempt: u32 },
    Sending { request: UpstreamRequest<H, B>, attempt: u32 },
    BackingOff { request: UpstreamRequest<H, B>, attempt: u32 },
    Finished { outcome: Outcome<R> },
}

/// The pause after the failed attempt `attempt`: it grows linearly.
pub open spec fn backoff_millis(attempt: u32) -> int {
    BACKOFF_STEP_MILLIS * (attempt + 1)
}

impl<H, B, R> Proxy<H, B, R> {
    /// No attempt beyond the last one, and no pause after it.
    pub open spec fn well_formed(self) -> bool {
        match self {
            Proxy::Building { attempt, .. } => attempt < MAX_ATTEMPTS,
            Proxy::Sending { attempt, .. } => attempt < MAX_ATTEMPTS,
            Proxy::BackingOff { attempt, .. } => attempt + 1 < MAX_ATTEMPTS,
            _ => true,
        }
    }

    /// The work that `self` waits for.
    pub open spec fn pending(self) -> Action {
        match self {
            Proxy::ReadingBody { .. } => Action::ReadBody,
            Proxy::Building { .. } => Action::BuildRequest,
            Proxy::Sending { .. } => Action::SendRequest,
            Proxy::BackingOff { attempt, .. } => Action::Sleep {
                millis: backoff_millis(attempt) as u64,
            },
            Proxy::Finished { .. } => Action::Finish,
        }
    }

    /// Whether `event` can come of the work that `self` waits for.
    pub open spec fn awaits(self, event: Event<B, R>) -> bool {
        match event {
            Event::BodyRead(_) | Event::BodyFailed => self is ReadingBody,
            Event::RequestBuilt | Event::BuildFailed => self is Building,
            Event::Responded(_) | Event::SendFailed => self is Sending,
            Event::SleptEnough => self is BackingOff,
        }
    }

    /// Where the request stands after `event`. One that is not awaited changes
    /// nothing.
    pub open spec fn next(self, event: Event<B, R>) -> Proxy<H, B, R> {
        match (self, event) {
            (Proxy::ReadingBody { uri, head }, Event::BodyRead(body)) => Proxy::Building {
                request: UpstreamRequest { uri, head, body },
                attempt: 0,
            },
            (Proxy::ReadingBody { .. }, Event::BodyFailed) => Proxy::Finished {
                outcome: Outcome::Refused(Refusal::BodyUnreadable),
            },
            (Proxy::Building { request, attempt }, Event::RequestBuilt) => Proxy::Sending {
                request,
                attempt,
            },
            (Proxy::Building { .. }, Event::BuildFailed) => Proxy::Finished {
                outcome: Outcome::Refused(Refusal::RequestUnbuildable),
            },
            (Proxy::Sending { .. }, Event::Responded(response)) => Proxy::Finished {
                outcome: Outcome::Response(response),
            },
            (Proxy::Sending { request, attempt }, Event::SendFailed) => if attempt + 1
                < MAX_ATTEMPTS {
                Proxy::BackingOff { request, attempt }
            } else {
                Proxy::Finished { outcome: Outcome::Refused(Refusal::WorkerUnavailable) }
            },
            (Proxy::BackingOff { request, attempt }, Event::SleptEnough) => Proxy::Building {
                request,
                attempt: (attempt + 1) as u32,
            },
            _ => self,
        }
    }

    /// A request whose address at its worker has been worked out as `uri`: it
    /// goes on with its body, and is refused where it names no path. A malformed
    /// address is handed back.
    pub fn begin(uri: Result<UpstreamUri, UriError>, head: H) -> (proxy: Result<Self, UriError>)
        ensures
            proxy == (match uri {
                Ok(uri) => Ok(Proxy::ReadingBody { uri, head }),
                Err(UriError::Incomplete) => Ok(
                    Proxy::<H, B, R>::Finished { outcome: Outcome::Refused(Refusal::InvalidUri) },
                ),
                Err(e) => Err(e),
            }),
            proxy matches Ok(p) ==> p.well_formed(),
    {
        match uri {
            Ok(uri) => Ok(Proxy::ReadingBody { uri, head }),
            Err(UriError::Incomplete) => Ok(
                Proxy::Finished { outcome: Outcome::Refused(Refusal::InvalidUri) },
            ),
            Err(e) => Err(e),
        }
    }

    /// What is to be done next.
    pub fn action(&self) -> (action: Action)
        requires
            self.well_formed(),
        ensures
            action == self.pending(),
            action is SendRequest <==> self is Sending,
            action is Finish <==> self is Finished,
    {
        match self {
            Proxy::ReadingBody { .. } => Action::ReadBody,
            Proxy::Building { .. } => Action::BuildRequest,
            Proxy::Sending { .. } => Action::SendRequest,
            Proxy::BackingOff { attempt, .. } => Action::Sleep {
                millis: BACKOFF_STEP_MILLIS * (*attempt as u64 + 1),
            },
            Proxy::Finished { .. } => Action::Finish,
        }
    }

    /// What the client gets, once the request is finished.
    pub fn into_outcome(self) -> (outcome: Option<Outcome<R>>)
        ensures
            outcome == (match self {
                Proxy::Finished { outcome } => Some(outcome),
                _ => None,
            }),
    {
        match self {
            Proxy::Finished { outcome } => Some(outcome),
            _ => None,
        }
    }

    /// Takes in how the work went that `self` waited for.
    pub fn advance(self, event: Event<B, R>) -> (next: Self)
        requires
            self.well_formed(),
        ensures
            next == self.next(event),
            next.well_formed(),
    {
        match (self, event) {
            (Proxy::ReadingBody { uri, head }, Event::BodyRead(body)) => Proxy::Building {
                request: UpstreamRequest { uri, head, body },
                attempt: 0,
            },
            (Proxy::ReadingBody { .. }, Event::BodyFailed) => Proxy::Finished {
                outcome: Outcome::Refused(Refusal::BodyUnreadable),
            },
            (Proxy::Building { request, attempt }, Event::RequestBuilt) => Proxy::Sending {
                request,
                attempt,
            },
            (Proxy::Building { .. }, Event::BuildFailed) => Proxy::Finished {
                outcome: Outcome::Refused(Refusal::RequestUnbuildable),
            },
            (Proxy::Sending { .. }, Event::Responded(response)) => Proxy::Finished {
                outcome: Outcome::Response(response),
            },
            (Proxy::Sending { request, attempt }, Event::SendFailed) => {
                if attempt + 1 < MAX_ATTEMPTS {
                    Proxy::BackingOff { request, attempt }
                } else {
                    Proxy::Finished { outcome: Outcome::Refused(Refusal::WorkerUnavailable) }
                }
            },
            (Proxy::BackingOff { request, attempt }, Event::SleptEnough) => Proxy::Building {
                request,
                attempt: attempt + 1,
            },
            (proxy, _) => proxy,
        }
    }
}

/// Where a request stands after all of `events`, in order.
pub open spec fn run<H, B, R>(proxy: Proxy<H, B, R>, events: Seq<Event<B, R>>) -> Proxy<H, B, R>
    decreases events.len(),
{
    if events.len() == 0 {
        proxy
    } else {
        run(proxy.next(events[0]), events.drop_first())
    }
}

/// How often the request is sent in the course of `events`.
pub open spec fn sends<H, B, R>(proxy: Proxy<H, B, R>, events: Seq<Event<B, R>>) -> nat
    decreases events.len(),
{
    if events.len() == 0 {
        0
    } else {
        let sent: nat = if proxy is Building && events[0] is RequestBuilt {
            1
        } else {
            0
        };
        sent + sends(proxy.next(events[0]), events.drop_first())
    }
}

/// The pauses that are made in the course of `events`, in milliseconds.
pub open spec fn pauses<H, B, R>(proxy: Proxy<H, B, R>, events: Seq<Event<B, R>>) -> Seq<int>
    decreases events.len(),
{
    if events.len() == 0 {
        Seq::empty()
    } else {
        let pause = match (proxy, events[0]) {
            (Proxy::BackingOff { attempt, .. }, Event::SleptEnough) => seq![
                backoff_millis(attempt),
            ],
            _ => Seq::empty(),
        };
        pause + pauses(proxy.next(events[0]), events.drop_first())
    }
}

/// How often the request can still be sent.
pub open spec fn sends_left<H, B, R>(proxy: Proxy<H, B, R>) -> int {
    match proxy {
        Proxy::ReadingBody { .. } => MAX_ATTEMPTS as int,
        Proxy::Building { attempt, .. } => MAX_ATTEMPTS - attempt,
        Proxy::Sending { attempt, .. } => MAX_ATTEMPTS - attempt - 1,
        Proxy::BackingOff { attempt, .. } => MAX_ATTEMPTS - attempt - 1,
        Proxy::Finished { .. } => 0,
    }
}

/// How many awaited events lie at most between `proxy` and its end.
pub open spec fn events_left<H, B, R>(proxy: Proxy<H, B, R>) -> int {
    match proxy {
        Proxy::ReadingBody { .. } => 3 * MAX_ATTEMPTS,
        Proxy::Building { attempt, .. } => 3 * (MAX_ATTEMPTS - attempt) - 1,
        Proxy::Sending { attempt, .. } => 3 * (MAX_ATTEMPTS - attempt) - 2,
        Proxy::BackingOff { attempt, .. } => 3 * (MAX_ATTEMPTS - attempt) - 3,
        Proxy::Finished { .. } => 0,
    }
}

/// The request that `proxy` holds, once its body has been read and until it has
/// been answered.
pub open spec fn held<H, B, R>(proxy: Proxy<H, B, R>) -> Option<UpstreamRequest<H, B>> {
    match proxy {
        Proxy::Building { request, .. } => Some(request),
        Proxy::Sending { request, .. } => Some(request),
        Proxy::BackingOff { request, .. } => Some(request),
        _ => None,
    }
}

/// The retry is bounded: whatever happens, a request is sent at most
/// `MAX_ATTEMPTS` times, and it is sent exactly that often where the worker is
/// given up as unavailable.
pub proof fn law_retry_is_bounded<H, B, R>(proxy: Proxy<H, B, R>, events: Seq<Event<B, R>>)
    requires
        proxy.well_formed(),
    ensures
        sends(proxy, events) <= sends_left(proxy) <= MAX_ATTEMPTS,
        proxy !is Finished && run(proxy, events) == (Proxy::<H, B, R>::Finished {
            outcome: Outcome::Refused(Refusal::WorkerUnavailable),
        }) ==> sends(proxy, events) == sends_left(proxy),
    decreases events.len(),
{
    if events.len() > 0 {
        let next = proxy.next(events[0]);
        law_retry_is_bounded(next, events.drop_first());
        if next is Finished {
            law_finished_is_final(next, events.drop_first());
        }
    }
}

/// Every awaited event brings a request closer to its end, from which it is
/// never further away than three events for each attempt, and only a finished
/// request waits for nothing more.
pub proof fn law_every_event_leads_to_the_end<H, B, R>(proxy: Proxy<H, B, R>, event: Event<B, R>)
    requires
        proxy.well_formed(),
    ensures
        0 <= events_left(proxy) <= 3 * MAX_ATTEMPTS,
        events_left(proxy) == 0 <==> proxy is Finished,
        proxy.awaits(event) ==> events_left(proxy.next(event)) < events_left(proxy),
        !proxy.awaits(event) ==> proxy.next(event) == proxy,
{
}

/// What the client gets is settled once and for all.
pub proof fn law_finished_is_final<H, B, R>(proxy: Proxy<H, B, R>, events: Seq<Event<B, R>>)
    requires
        proxy is Finished,
    ensures
        run(proxy, events) == proxy,
        sends(proxy, events) == 0,
        pauses(proxy, events) == Seq::<int>::empty(),
    decreases events.len(),
{
    if events.len() > 0 {
        assert(proxy.next(events[0]) == proxy);
        law_finished_is_final(proxy, events.drop_first());
    }
}

/// Every attempt sends the same request: once the body has been read, whatever
/// happens, the request is held unchanged until it has been answered.
pub proof fn law_every_attempt_sends_the_same<H, B, R>(
    proxy: Proxy<H, B, R>,
    events: Seq<Event<B, R>>,
)
    requires
        held(proxy) is Some,
    ensures
        run(proxy, events) is Finished || held(run(proxy, events)) == held(proxy),
    decreases events.len(),
{
    if events.len() > 0 {
        let next = proxy.next(events[0]);
        if next is Finished {
            law_finished_is_final(next, events.drop_first());
        } else {
            law_every_attempt_sends_the_same(next, events.drop_first());
        }
    }
}

/// What is sent is what the client asked for: a request that has gone on from
/// reading its body has the address and the head it began with, and the body
/// that was read.
pub proof fn law_request_is_forwarded_whole<H, B, R>(
    uri: UpstreamUri,
    head: H,
    body: B,
    events: Seq<Event<B, R>>,
)
    ensures
        ({
            let end = run(
                Proxy::ReadingBody { uri, head },
                seq![Event::BodyRead(body)] + events,
            );
            end is Finished || held(end) == Some(UpstreamRequest { uri, head, body })
        }),
{
    let all = seq![Event::BodyRead(body)] + events;
    assert(all.drop_first() =~= events);
    let building = Proxy::Building { request: UpstreamRequest { uri, head, body }, attempt: 0 };
    law_every_attempt_sends_the_same(building, events);
}

/// Each of `events` comes of the work that the request waits for at that point.
pub open spec fn driven<H, B, R>(proxy: Proxy<H, B, R>, events: Seq<Event<B, R>>) -> bool
    decreases events.len(),
{
    events.len() > 0 ==> proxy.awaits(events[0]) && driven(
        proxy.next(events[0]),
        events.drop_first(),
    )
}

/// A request that is driven on comes to its end: what has been done and what is
/// left to do never exceed what was left at the beginning.
pub proof fn law_driven_request_ends<H, B, R>(proxy: Proxy<H, B, R>, events: Seq<Event<B, R>>)
    requires
        proxy.well_formed(),
        driven(proxy, events),
    ensures
        events.len() + events_left(run(proxy, events)) <= events_left(proxy),
        events.len() == events_left(proxy) ==> run(proxy, events) is Finished,
    decreases events.len(),
{
    if events.len() > 0 {
        law_every_event_leads_to_the_end(proxy, events[0]);
        law_driven_request_ends(proxy.next(events[0]), events.drop_first());
    }
    law_run_is_well_formed(proxy, events);
}

/// A request stays well-formed, whatever happens.
pub proof fn law_run_is_well_formed<H, B, R>(proxy: Proxy<H, B, R>, events: Seq<Event<B, R>>)
    requires
        proxy.well_formed(),
    ensures
        run(proxy, events).well_formed(),
    decreases events.len(),
{
    if events.len() > 0 {
        law_run_is_well_formed(proxy.next(events[0]), events.drop_first());
    }
}

/// A client gets a response exactly where the worker gave it: a driven request
/// ends in the response that came, unchanged, and in none that did not come.
pub proof fn law_client_gets_the_response_that_came<H, B, R>(
    proxy: Proxy<H, B, R>,
    events: Seq<Event<B, R>>,
    response: R,
)
    requires
        proxy !is Finished,
        driven(proxy, events),
    ensures
        run(proxy, events) == (Proxy::<H, B, R>::Finished { outcome: Outcome::Response(response) })
            <==> events.contains(Event::Responded(response)),
    decreases events.len(),
{
    let came = Event::<B, R>::Responded(response);
    if events.len() > 0 {
        let next = proxy.next(events[0]);
        let rest = events.drop_first();
        if next is Finished {
            law_finished_is_final(next, rest);
            assert(rest.len() == 0) by {
                reveal_with_fuel(driven, 2);
            }
            assert(events.len() == 1);
            assert(events[0] == came ==> events.contains(came));
        } else {
            law_client_gets_the_response_that_came(next, rest, response);
            assert(events[0] != came);
            if rest.contains(came) {
                let i = choose|i: int| 0 <= i < rest.len() && rest[i] == came;
                assert(events[i + 1] == came);
            }
            if events.contains(came) {
                let i = choose|i: int| 0 <= i < events.len() && events[i] == came;
                assert(rest[i - 1] == came);
            }
        }
    }
}

/// A dead worker ends in a clean refusal: where the request was read and built
/// but the worker never responds, all the client can get is
/// `Refusal::WorkerUnavailable`.
pub proof fn law_dead_worker_is_refused<H, B, R>(proxy: Proxy<H, B, R>, events: Seq<Event<B, R>>)
    requires
        proxy !is Finished,
        forall|i: int|
            0 <= i < events.len() ==> {
                let event = #[trigger] events[i];
                event !is Responded && event !is BuildFailed && event !is BodyFailed
            },
    ensures
        run(proxy, events) is Finished ==> run(proxy, events) == (Proxy::<H, B, R>::Finished {
            outcome: Outcome::Refused(Refusal::WorkerUnavailable),
        }),
    decreases events.len(),
{
    if events.len() > 0 {
        let next = proxy.next(events[0]);
        let rest = events.drop_first();
        assert(events[0] !is Responded);
        assert forall|i: int| 0 <= i < rest.len() implies {
            let event = #[trigger] rest[i];
            event !is Responded && event !is BuildFailed && event !is BodyFailed
        } by {
            assert(rest[i] == events[i + 1]);
        }
        if next is Finished {
            law_finished_is_final(next, rest);
        } else {
            law_dead_worker_is_refused(next, rest);
        }
    }
}

proof fn lemma_concat<H, B, R>(
    proxy: Proxy<H, B, R>,
    first: Seq<Event<B, R>>,
    last: Seq<Event<B, R>>,
)
    ensures
        run(proxy, first + last) == run(run(proxy, first), last),
        sends(proxy, first + last) == sends(proxy, first) + sends(run(proxy, first), last),
        pauses(proxy, first + last) == pauses(proxy, first) + pauses(run(proxy, first), last),
    decreases first.len(),
{
    if first.len() == 0 {
        assert(first + last =~= last);
        assert(pauses(proxy, last) =~= pauses(proxy, first) + pauses(proxy, last));
    } else {
        assert((first + last).drop_first() =~= first.drop_first() + last);
        lemma_concat(proxy.next(first[0]), first.drop_first(), last);
        assert(pauses(proxy, first + last) =~= pauses(proxy, first) + pauses(
            run(proxy, first),
            last,
        ));
    }
}

/// `n` attempts in a row that fail and are followed by a pause.
pub open spec fn failures<B, R>(n: nat) -> Seq<Event<B, R>>
    decreases n,
{
    if n == 0 {
        Seq::empty()
    } else {
        failures((n - 1) as nat) + seq![
            Event::RequestBuilt,
            Event::SendFailed,
            Event::SleptEnough,
        ]
    }
}

/// The pauses that `n` failed attempts bring: one step, two steps and so on.
pub open spec fn linear_pauses(n: nat) -> Seq<int> {
    Seq::new(n, |k: int| BACKOFF_STEP_MILLIS * (k + 1))
}

proof fn lemma_failures<H, B, R>(request: UpstreamRequest<H, B>, n: nat)
    requires
        n < MAX_ATTEMPTS,
    ensures
        ({
            let start = Proxy::<H, B, R>::Building { request, attempt: 0 };
            &&& run(start, failures(n)) == (Proxy::<H, B, R>::Building {
                request,
                attempt: n as u32,
            })
            &&& sends(start, failures(n)) == n
            &&& pauses(start, failures(n)) == linear_pauses(n)
        }),
    decreases n,
{
    let start = Proxy::<H, B, R>::Building { request, attempt: 0 };
    if n == 0 {
        assert(pauses(start, failures(n)) =~= linear_pauses(n));
    } else {
        let before = failures::<B, R>((n - 1) as nat);
        let last = seq![Event::<B, R>::RequestBuilt, Event::SendFailed, Event::SleptEnough];
        lemma_failures::<H, B, R>(request, (n - 1) as nat);
        lemma_concat(start, before, last);
        assert(last.drop_first() =~= seq![Event::<B, R>::SendFailed, Event::SleptEnough]);
        assert(last.drop_first().drop_first() =~= seq![Event::<B, R>::SleptEnough]);
        assert(last.drop_first().drop_first().drop_first() =~= Seq::<Event<B, R>>::empty());
        reveal_with_fuel(run, 4);
        reveal_with_fuel(sends, 4);
        reveal_with_fuel(pauses, 4);
        let building = Proxy::<H, B, R>::Building { request, attempt: (n - 1) as u32 };
        assert(pauses(building, last) =~= seq![backoff_millis((n - 1) as u32)]);
        assert(pauses(start, failures(n)) =~= linear_pauses(n));
    }
}

/// A worker that is late is heard: after any number `n` of failed attempts short
/// of `MAX_ATTEMPTS`, the client gets the response that the next one brings. By
/// then the request has been sent `n + 1` times, with pauses of one step, two
/// steps and so on in between.
pub proof fn law_late_worker_is_heard<H, B, R>(
    request: UpstreamRequest<H, B>,
    n: nat,
    response: R,
)
    requires
        n < MAX_ATTEMPTS,
    ensures
        ({
            let start = Proxy::<H, B, R>::Building { request, attempt: 0 };
            let events = failures(n) + seq![Event::RequestBuilt, Event::Responded(response)];
            &&& driven(start, events)
            &&& run(start, events) == (Proxy::<H, B, R>::Finished {
                outcome: Outcome::Response(response),
            })
            &&& sends(start, events) == n + 1
            &&& pauses(start, events) == linear_pauses(n)
        }),
{
    let start = Proxy::<H, B, R>::Building { request, attempt: 0 };
    let good = seq![Event::<B, R>::RequestBuilt, Event::Responded(response)];
    lemma_failures::<H, B, R>(request, n);
    lemma_failures_are_driven::<H, B, R>(request, n);
    lemma_concat(start, failures(n), good);
    assert(good.drop_first() =~= seq![Event::<B, R>::Responded(response)]);
    assert(good.drop_first().drop_first() =~= Seq::<Event<B, R>>::empty());
    reveal_with_fuel(run, 3);
    reveal_with_fuel(sends, 3);
    reveal_with_fuel(pauses, 3);
    reveal_with_fuel(driven, 3);
    lemma_driven_concat(start, failures(n), good);
    assert(pauses(start, failures(n) + good) =~= linear_pauses(n));
}

/// A worker is given up where the last attempt fails like those before it: the
/// request has then been sent `MAX_ATTEMPTS` times, with a pause after each
/// attempt but the last.
pub proof fn law_worker_is_given_up_after_the_last_attempt<H, B, R>(
    request: UpstreamRequest<H, B>,
)
    ensures
        ({
            let start = Proxy::<H, B, R>::Building { request, attempt: 0 };
            let last = (MAX_ATTEMPTS - 1) as nat;
            let events = failures(last) + seq![Event::RequestBuilt, Event::SendFailed];
            &&& driven(start, events)
            &&& run(start, events) == (Proxy::<H, B, R>::Finished {
                outcome: Outcome::Refused(Refusal::WorkerUnavailable),
            })
            &&& sends(start, events) == MAX_ATTEMPTS
            &&& pauses(start, events) == linear_pauses(last)
        }),
{
    let start = Proxy::<H, B, R>::Building { request, attempt: 0 };
    let n = (MAX_ATTEMPTS - 1) as nat;
    let bad = seq![Event::<B, R>::RequestBuilt, Event::SendFailed];
    lemma_failures::<H, B, R>(request, n);
    lemma_failures_are_driven::<H, B, R>(request, n);
    lemma_concat(start, failures(n), bad);
    assert(bad.drop_first() =~= seq![Event::<B, R>::SendFailed]);
    assert(bad.drop_first().drop_first() =~= Seq::<Event<B, R>>::empty());
    reveal_with_fuel(run, 3);
    reveal_with_fuel(sends, 3);
    reveal_with_fuel(pauses, 3);
    reveal_with_fuel(driven, 3);
    lemma_driven_concat(start, failures(n), bad);
    assert(pauses(start, failures(n) + bad) =~= linear_pauses(n));
}

proof fn lemma_driven_concat<H, B, R>(
    proxy: Proxy<H, B, R>,
    first: Seq<Event<B, R>>,
    last: Seq<Event<B, R>>,
)
    requires
        driven(proxy, first),
        driven(run(proxy, first), last),
    ensures
        driven(proxy, first + last),
    decreases first.len(),
{
    if first.len() == 0 {
        assert(first + last =~= last);
    } else {
        assert((first + last).drop_first() =~= first.drop_first() + last);
        lemma_driven_concat(proxy.next(first[0]), first.drop_first(), last);
    }
}

proof fn lemma_failures_are_driven<H, B, R>(request: UpstreamRequest<H, B>, n: nat)
    requires
        n < MAX_ATTEMPTS,
    ensures
        driven(Proxy::<H, B, R>::Building { request, attempt: 0 }, failures(n)),
    decreases n,
{
    if n > 0 {
        let start = Proxy::<H, B, R>::Building { request, attempt: 0 };
        let last = seq![Event::<B, R>::RequestBuilt, Event::SendFailed, Event::SleptEnough];
        lemma_failures::<H, B, R>(request, (n - 1) as nat);
        lemma_failures_are_driven::<H, B, R>(request, (n - 1) as nat);
        assert(last.drop_first() =~= seq![Event::<B, R>::SendFailed, Event::SleptEnough]);
        assert(last.drop_first().drop_first() =~= seq![Event::<B, R>::SleptEnough]);
        assert(last.drop_first().drop_first().drop_first() =~= Seq::<Event<B, R>>::empty());
        reveal_with_fuel(driven, 4);
        lemma_driven_concat(start, failures((n - 1) as nat), last);
    }
}

/// The pauses between attempts grow linearly: those still to come after
/// attempt `a` are a run of `(a + 1) * 50`, `(a + 2) * 50` and so on, one for
/// each attempt but the last.
pub proof fn law_backoff_is_linear<H, B, R>(proxy: Proxy<H, B, R>, events: Seq<Event<B, R>>)
    requires
        proxy.well_formed(),
    ensures
        ({
            let made = pauses(proxy, events);
            let first = match proxy {
                Proxy::Building { attempt, .. } => attempt as int,
                Proxy::Sending { attempt, .. } => attempt as int,
                Proxy::BackingOff { attempt, .. } => attempt as int,
                _ => 0,
            };
            &&& first + made.len() < MAX_ATTEMPTS
            &&& forall|k: int|
                0 <= k < made.len() ==> #[trigger] made[k] == BACKOFF_STEP_MILLIS * (first + k + 1)
        }),
    decreases events.len(),
{
    if events.len() > 0 {
        let next = proxy.next(events[0]);
        law_backoff_is_linear(next, events.drop_first());
        if next is Finished {
            law_finished_is_final(next, events.drop_first());
        }
    }
}

/// A response of the proxy's own says what it was told to say.
pub proof fn law_error_response_says_what_it_is_told(
    status: u16,
    msg: &str,
    response: ErrorResponse,
)
    requires
        call_ensures(error_response, (status, msg), response),
    ensures
        response.status == status,
        response.body@ == msg@,
{
}

/// Every refusal is a `502 Bad Gateway`, and tells the client in words of its own
/// what went wrong: no two refusals read the same.
pub proof fn law_refusals_are_told_apart(
    refusal: Refusal,
    response: ErrorResponse,
    other: Refusal,
    other_response: ErrorResponse,
)
    requires
        call_ensures(Refusal::response, (refusal,), response),
        call_ensures(Refusal::response, (other,), other_response),
    ensures
        response.status == 502,
        response.body@ == other_response.body@ <==> refusal == other,
        refusal is NoWorker ==> response.body@ == "no plumber worker available"@,
        refusal is InvalidUri ==> response.body@ == "invalid upstream uri"@,
        refusal is BodyUnreadable ==> response.body@ == "could not read request body"@,
        refusal is RequestUnbuildable ==> response.body@ == "could not build request"@,
        refusal is WorkerUnavailable ==> response.body@ == "upstream worker unavailable"@,
{
    reveal_strlit("no plumber worker available");
    reveal_strlit("invalid upstream uri");
    reveal_strlit("could not read request body");
    reveal_strlit("could not build request");
    reveal_strlit("upstream worker unavailable");
    assert("no plumber worker available"@[0] == 'n');
    assert("invalid upstream uri"@[0] == 'i');
    assert("could not read request body"@[10] == 'r');
    assert("could not build request"@[10] == 'b');
    assert("upstream worker unavailable"@[0] == 'u');
    assert("could not read request body"@[0] == 'c');
    assert("could not build request"@[0] == 'c');
    assert("could not read request body"@ != "could not build request"@);
}

/// A request begins by reading its body, with the address and the head that it was
/// given. One without a path is refused, and no other.
pub proof fn law_request_begins_with_its_body<H, B, R>(
    uri: Result<UpstreamUri, UriError>,
    head: H,
    proxy: Result<Proxy<H, B, R>, UriError>,
)
    requires
        call_ensures(Proxy::<H, B, R>::begin, (uri, head), proxy),
    ensures
        uri matches Ok(u) ==> proxy == Ok::<Proxy<H, B, R>, UriError>(
            Proxy::ReadingBody { uri: u, head },
        ),
        uri matches Err(e) ==> {
            &&& proxy is Ok <==> e is Incomplete
            &&& proxy matches Ok(p) ==> p == (Proxy::<H, B, R>::Finished {
                outcome: Outcome::Refused(Refusal::InvalidUri),
            })
            &&& proxy matches Err(handed_back) ==> handed_back == e
        },
{
}

/// What is asked for is what the request waits for, and tells where it stands,
/// whatever the request holds: the body, then the request to the worker, then its
/// sending, a pause of 50 milliseconds for each attempt so far, and the end exactly
/// where there is an outcome to hand out.
pub proof fn law_action_tells_where_the_request_stands<H, B, R>(
    proxy: Proxy<H, B, R>,
    action: Action,
    outcome: Option<Outcome<R>>,
)
    requires
        call_ensures(Proxy::<H, B, R>::action, (&proxy,), action),
        call_ensures(Proxy::<H, B, R>::into_outcome, (proxy,), outcome),
        proxy.well_formed(),
    ensures
        action is ReadBody <==> proxy is ReadingBody,
        action is BuildRequest <==> proxy is Building,
        action is SendRequest <==> proxy is Sending,
        action is Sleep <==> proxy is BackingOff,
        action is Sleep ==> action->millis == 50 * (proxy->BackingOff_attempt + 1),
        action is Finish <==> proxy is Finished,
        action is Finish <==> outcome is Some,
        outcome matches Some(o) ==> proxy == (Proxy::<H, B, R>::Finished { outcome: o }),
{
}

/// What is asked for and what the request takes in go together: an event changes
/// where the request stands exactly where it comes of the work that was asked for.
pub proof fn law_only_what_was_asked_for_is_taken_in<H, B, R>(
    proxy: Proxy<H, B, R>,
    action: Action,
    event: Event<B, R>,
    next: Proxy<H, B, R>,
)
    requires
        call_ensures(Proxy::<H, B, R>::action, (&proxy,), action),
        call_ensures(Proxy::<H, B, R>::advance, (proxy, event), next),
        proxy.well_formed(),
    ensures
        comes_of(action, event) <==> next != proxy,
        comes_of(action, event) <==> proxy.awaits(event),
        next.well_formed(),
{
}

/// Whether `event` can come of `action`.
pub open spec fn comes_of<B, R>(action: Action, event: Event<B, R>) -> bool {
    match action {
        Action::ReadBody => event is BodyRead || event is BodyFailed,
        Action::BuildRequest => event is RequestBuilt || event is BuildFailed,
        Action::SendRequest => event is Responded || event is SendFailed,
        Action::Sleep { .. } => event is SleptEnough,
        Action::Finish => false,
    }
}

/// A request is driven through `states`: in each of them one of `actions` is asked
/// for, and one of `events` comes of it, which leads to the next.
pub open spec fn conversation<H, B, R>(
    states: Seq<Proxy<H, B, R>>,
    actions: Seq<Action>,
    events: Seq<Event<B, R>>,
) -> bool {
    &&& states.len() == events.len() + 1
    &&& actions.len() == states.len()
    &&& forall|i: int|
        0 <= i < states.len() ==> call_ensures(
            Proxy::<H, B, R>::action,
            (&#[trigger] states[i],),
            actions[i],
        )
    &&& forall|i: int|
        0 <= i < events.len() ==> call_ensures(
            Proxy::<H, B, R>::advance,
            (states[i], #[trigger] events[i]),
            states[i + 1],
        )
    &&& forall|i: int| 0 <= i < events.len() ==> comes_of(actions[i], #[trigger] events[i])
}

/// Where a request stands after `i` steps, where none of them has ended it.
spec fn stands<H, B, R>(request: UpstreamRequest<H, B>, i: int, proxy: Proxy<H, B, R>) -> bool {
    let attempt = ((i - 1) / 3) as u32;
    if i % 3 == 1 {
        proxy == (Proxy::<H, B, R>::Building { request, attempt })
    } else if i % 3 == 2 {
        proxy == (Proxy::<H, B, R>::Sending { request, attempt })
    } else {
        proxy == (Proxy::<H, B, R>::BackingOff { request, attempt })
    }
}

proof fn lemma_conversation<H, B, R>(
    uri: UpstreamUri,
    head: H,
    states: Seq<Proxy<H, B, R>>,
    actions: Seq<Action>,
    events: Seq<Event<B, R>>,
    i: int,
)
    requires
        conversation(states, actions, events),
        states[0] == (Proxy::<H, B, R>::ReadingBody { uri, head }),
        0 <= i < states.len(),
    ensures
        i == 0 || states[i] is Finished || (i < 9 && events[0] is BodyRead && stands(
            UpstreamRequest { uri, head, body: events[0]->BodyRead_0 },
            i,
            states[i],
        )),
        i > 0 ==> states[i - 1] !is Finished && states[i - 1].next(events[i - 1]) == states[i],
    decreases i,
{
    if i > 0 {
        lemma_conversation(uri, head, states, actions, events, i - 1);
        let before = states[i - 1];
        let event = events[i - 1];
        assert(call_ensures(Proxy::<H, B, R>::action, (&states[i - 1],), actions[i - 1]));
        assert(call_ensures(
            Proxy::<H, B, R>::advance,
            (states[i - 1], events[i - 1]),
            states[i - 1 + 1],
        ));
        assert(comes_of(actions[i - 1], events[i - 1]));
        assert(actions[i - 1] == before.pending());
        assert(states[i] == before.next(event));
    }
}

/// A request's whole course, whatever happens. It asks for the body first, and
/// then in turn for the request to be built, to be sent and, after a failure, for
/// a pause of 50, then 100 milliseconds. It is sent three times at most: it ends
/// at the first response, at the first failure to read or build it, or when the
/// third sending fails. What it ends in is what it ended at.
pub proof fn law_course_of_a_request<H, B, R>(
    uri: UpstreamUri,
    head: H,
    states: Seq<Proxy<H, B, R>>,
    actions: Seq<Action>,
    events: Seq<Event<B, R>>,
    i: int,
)
    requires
        conversation(states, actions, events),
        states[0] == (Proxy::<H, B, R>::ReadingBody { uri, head }),
        0 <= i < states.len(),
    ensures
        states.len() <= 10,
        actions[0] is ReadBody,
        i > 0 ==> (actions[i] is Finish <==> events[i - 1] is BodyFailed || events[i - 1]
            is BuildFailed || events[i - 1] is Responded || i == 9),
        i > 0 && actions[i] !is Finish ==> {
            &&& i % 3 == 1 ==> actions[i] is BuildRequest
            &&& i % 3 == 2 ==> actions[i] is SendRequest
            &&& i % 3 == 0 ==> actions[i] == (Action::Sleep { millis: (50 * (i / 3)) as u64 })
        },
        actions[i] is Finish ==> i == events.len() && states[i] is Finished && match events[i
            - 1] {
            Event::BodyFailed => states[i]->outcome == Outcome::<R>::Refused(
                Refusal::BodyUnreadable,
            ),
            Event::BuildFailed => states[i]->outcome == Outcome::<R>::Refused(
                Refusal::RequestUnbuildable,
            ),
            Event::Responded(response) => states[i]->outcome == Outcome::Response(response),
            _ => i == 9 && events[i - 1] is SendFailed && states[i]->outcome
                == Outcome::<R>::Refused(Refusal::WorkerUnavailable),
        },
{
    let last = states.len() - 1;
    lemma_conversation(uri, head, states, actions, events, last);
    if last > 9 {
        lemma_conversation(uri, head, states, actions, events, 9);
        lemma_conversation(uri, head, states, actions, events, 10);
    }
    assert(call_ensures(Proxy::<H, B, R>::action, (&states[0],), actions[0]));
    assert(call_ensures(Proxy::<H, B, R>::action, (&states[i],), actions[i]));
    lemma_conversation(uri, head, states, actions, events, i);
    if i > 0 {
        lemma_conversation(uri, head, states, actions, events, i - 1);
        assert(comes_of(actions[i - 1], events[i - 1]));
        assert(call_ensures(Proxy::<H, B, R>::action, (&states[i - 1],), actions[i - 1]));
    }
    if i < last {
        lemma_conversation(uri, head, states, actions, events, i + 1);
    }
}

/// What a worker is sent is what the client asked for: wherever in its course a
/// request is to be built or sent, it is the address and the head that it began
/// with and the body that was read.
pub proof fn law_worker_is_sent_what_the_client_asked_for<H, B, R>(
    uri: UpstreamUri,
    head: H,
    states: Seq<Proxy<H, B, R>>,
    actions: Seq<Action>,
    events: Seq<Event<B, R>>,
    i: int,
)
    requires
        conversation(states, actions, events),
        states[0] == (Proxy::<H, B, R>::ReadingBody { uri, head }),
        0 <= i < states.len(),
        actions[i] is BuildRequest || actions[i] is SendRequest,
    ensures
        events[0] is BodyRead,
        ({
            let request = UpstreamRequest { uri, head, body: events[0]->BodyRead_0 };
            &&& actions[i] is BuildRequest ==> states[i] == (Proxy::<H, B, R>::Building {
                request,
                attempt: (i / 3) as u32,
            })
            &&& actions[i] is SendRequest ==> states[i] == (Proxy::<H, B, R>::Sending {
                request,
                attempt: (i / 3) as u32,
            })
        }),
{
    assert(call_ensures(Proxy::<H, B, R>::action, (&states[i],), actions[i]));
    lemma_conversation(uri, head, states, actions, events, i);
}

} // verus!
