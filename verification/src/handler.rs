//! One client request, from the worker that it borrows to the worker's return.
//!
//! `Handler` goes round `Proxy`: it asks the pool for a worker, holds it (`W`)
//! while the request is under way, and hands it back before the client gets its
//! answer.

use crate::proxy::{Action, Event, Outcome, Proxy};
use vstd::prelude::*;

verus! {

/// What is to be done next.
#[derive(Clone, Copy, Debug, PartialEq, Eq, Structural)]
pub enum HandlerAction {
    /// Ask the pool for a worker, and set the request out to it.
    Acquire,
    /// Go on with the request.
    Proxy(Action),
    /// Give the worker back.
    Release,
    /// Hand the client what came of it.
    Answer,
}

/// Where a request stands.
#[derive(Debug)]
pub enum Handler<W, H, B, R> {
    Acquiring,
    Proxying { worker: Option<W>, proxy: Proxy<H, B, R> },
    Releasing { worker: Option<W>, outcome: Outcome<R> },
    Done { outcome: Outcome<R> },
}

/// Something that happens to a request.
pub ghost enum Happening<W, H, B, R> {
    Acquired { worker: Option<W>, proxy: Proxy<H, B, R> },
    Worked(Event<B, R>),
    Released,
}

/// The request that `proxy` is about, with the worker it has: it is under way, or
/// at its end.
pub open spec fn under_way<W, H, B, R>(
    worker: Option<W>,
    proxy: Proxy<H, B, R>,
) -> Handler<W, H, B, R> {
    match proxy {
        Proxy::Finished { outcome } => Handler::Releasing { worker, outcome },
        _ => Handler::Proxying { worker, proxy },
    }
}

fn go_on<W, H, B, R>(worker: Option<W>, proxy: Proxy<H, B, R>) -> (handler: Handler<W, H, B, R>)
    requires
        proxy.well_formed(),
        worker is None ==> proxy is Finished,
    ensures
        handler == under_way(worker, proxy),
        handler.well_formed(),
{
    match proxy {
        Proxy::Finished { outcome } => Handler::Releasing { worker, outcome },
        proxy => Handler::Proxying { worker, proxy },
    }
}

impl<W, H, B, R> Handler<W, H, B, R> {
    /// A request that is under way has a worker, and is not at its end.
    pub open spec fn well_formed(self) -> bool {
        self matches Handler::Proxying { worker, proxy } ==> {
            &&& worker is Some
            &&& proxy.well_formed()
            &&& proxy !is Finished
        }
    }

    /// The work that `self` waits for.
    pub open spec fn pending(self) -> HandlerAction {
        match self {
            Handler::Acquiring => HandlerAction::Acquire,
            Handler::Proxying { proxy, .. } => HandlerAction::Proxy(proxy.pending()),
            Handler::Releasing { .. } => HandlerAction::Release,
            Handler::Done { .. } => HandlerAction::Answer,
        }
    }

    /// Where the request stands after `happening`. One that is not awaited
    /// changes nothing.
    pub open spec fn next(self, happening: Happening<W, H, B, R>) -> Handler<W, H, B, R> {
        match (self, happening) {
            (Handler::Acquiring, Happening::Acquired { worker, proxy }) => under_way(
                worker,
                proxy,
            ),
            (Handler::Proxying { worker, proxy }, Happening::Worked(event)) => under_way(
                worker,
                proxy.next(event),
            ),
            (Handler::Releasing { outcome, .. }, Happening::Released) => Handler::Done { outcome },
            _ => self,
        }
    }

    /// The worker that the request has.
    pub open spec fn held(self) -> Option<W> {
        match self {
            Handler::Proxying { worker, .. } => worker,
            Handler::Releasing { worker, .. } => worker,
            _ => None,
        }
    }

    /// A request that has come in.
    pub fn new() -> (handler: Self)
        ensures
            handler == Handler::<W, H, B, R>::Acquiring,
            handler.well_formed(),
    {
        Handler::Acquiring
    }

    /// What is to be done next.
    pub fn action(&self) -> (action: HandlerAction)
        requires
            self.well_formed(),
        ensures
            action == self.pending(),
    {
        match self {
            Handler::Acquiring => HandlerAction::Acquire,
            Handler::Proxying { proxy, .. } => HandlerAction::Proxy(proxy.action()),
            Handler::Releasing { .. } => HandlerAction::Release,
            Handler::Done { .. } => HandlerAction::Answer,
        }
    }

    /// Takes in the worker that the pool gave, if it gave one, and how the request
    /// has set out to it. Without a worker it has been refused.
    pub fn acquired(self, worker: Option<W>, proxy: Proxy<H, B, R>) -> (handler: Self)
        requires
            self.well_formed(),
            proxy.well_formed(),
            worker is None ==> proxy is Finished,
        ensures
            handler == self.next(Happening::Acquired { worker, proxy }),
            handler.well_formed(),
    {
        match self {
            Handler::Acquiring => go_on(worker, proxy),
            handler => handler,
        }
    }

    /// Takes in how a step of the request went.
    pub fn worked(self, event: Event<B, R>) -> (handler: Self)
        requires
            self.well_formed(),
        ensures
            handler == self.next(Happening::Worked(event)),
            handler.well_formed(),
    {
        match self {
            Handler::Proxying { worker, proxy } => go_on(worker, proxy.advance(event)),
            handler => handler,
        }
    }

    /// Gives the worker out of the handler's hands, once the request is at its
    /// end.
    pub fn release(self) -> (released: (Self, Option<W>))
        requires
            self.well_formed(),
        ensures
            released.0 == self.next(Happening::Released),
            released.1 == (if self is Releasing {
                self.held()
            } else {
                None
            }),
            released.0.well_formed(),
    {
        match self {
            Handler::Releasing { worker, outcome } => (Handler::Done { outcome }, worker),
            handler => (handler, None),
        }
    }

    /// What the client gets, once the worker is back.
    pub fn into_outcome(self) -> (outcome: Option<Outcome<R>>)
        ensures
            outcome == (match self {
                Handler::Done { outcome } => Some(outcome),
                _ => None,
            }),
    {
        match self {
            Handler::Done { outcome } => Some(outcome),
            _ => None,
        }
    }
}

/// Where a request stands after all of `happenings`, in order.
pub open spec fn handled<W, H, B, R>(
    handler: Handler<W, H, B, R>,
    happenings: Seq<Happening<W, H, B, R>>,
) -> Handler<W, H, B, R>
    decreases happenings.len(),
{
    if happenings.len() == 0 {
        handler
    } else {
        handled(handler.next(happenings[0]), happenings.drop_first())
    }
}

/// The workers that are taken from the pool in the course of `happenings`.
pub open spec fn taken<W, H, B, R>(
    handler: Handler<W, H, B, R>,
    happenings: Seq<Happening<W, H, B, R>>,
) -> Seq<Option<W>>
    decreases happenings.len(),
{
    if happenings.len() == 0 {
        Seq::empty()
    } else {
        let first = match (handler, happenings[0]) {
            (Handler::Acquiring, Happening::Acquired { worker, .. }) => seq![worker],
            _ => Seq::empty(),
        };
        first + taken(handler.next(happenings[0]), happenings.drop_first())
    }
}

/// The workers that are given back in the course of `happenings`.
pub open spec fn given_back<W, H, B, R>(
    handler: Handler<W, H, B, R>,
    happenings: Seq<Happening<W, H, B, R>>,
) -> Seq<Option<W>>
    decreases happenings.len(),
{
    if happenings.len() == 0 {
        Seq::empty()
    } else {
        let first = match (handler, happenings[0]) {
            (Handler::Releasing { worker, .. }, Happening::Released) => seq![worker],
            _ => Seq::empty(),
        };
        first + given_back(handler.next(happenings[0]), happenings.drop_first())
    }
}

/// The events that the request is taken through in the course of `happenings`.
pub open spec fn worked_through<W, H, B, R>(
    handler: Handler<W, H, B, R>,
    happenings: Seq<Happening<W, H, B, R>>,
) -> Seq<Event<B, R>>
    decreases happenings.len(),
{
    if happenings.len() == 0 {
        Seq::empty()
    } else {
        let first = match (handler, happenings[0]) {
            (Handler::Proxying { .. }, Happening::Worked(event)) => seq![event],
            _ => Seq::empty(),
        };
        first + worked_through(handler.next(happenings[0]), happenings.drop_first())
    }
}

proof fn lemma_done_is_final<W, H, B, R>(
    handler: Handler<W, H, B, R>,
    happenings: Seq<Happening<W, H, B, R>>,
)
    requires
        handler is Done,
    ensures
        handled(handler, happenings) == handler,
        taken(handler, happenings) == Seq::<Option<W>>::empty(),
        given_back(handler, happenings) == Seq::<Option<W>>::empty(),
        worked_through(handler, happenings) == Seq::<Event<B, R>>::empty(),
    decreases happenings.len(),
{
    if happenings.len() > 0 {
        lemma_done_is_final(handler, happenings.drop_first());
    }
}

proof fn lemma_borrowed<W, H, B, R>(
    handler: Handler<W, H, B, R>,
    happenings: Seq<Happening<W, H, B, R>>,
)
    requires
        handler is Proxying || handler is Releasing,
    ensures
        handled(handler, happenings) !is Acquiring,
        taken(handler, happenings) == Seq::<Option<W>>::empty(),
        handled(handler, happenings) is Done ==> given_back(handler, happenings)
            == seq![handler.held()],
        handled(handler, happenings) !is Done ==> given_back(handler, happenings)
            == Seq::<Option<W>>::empty() && handled(handler, happenings).held() == handler.held(),
    decreases happenings.len(),
{
    if happenings.len() > 0 {
        let next = handler.next(happenings[0]);
        let rest = happenings.drop_first();
        if next is Done {
            lemma_done_is_final(next, rest);
        } else {
            lemma_borrowed(next, rest);
        }
        assert(taken(handler, happenings) =~= taken(next, rest));
        if next is Done {
            assert(given_back(handler, happenings) =~= seq![handler.held()]);
        } else {
            assert(given_back(handler, happenings) =~= given_back(next, rest));
        }
    }
}

/// Without a worker nothing is under way: a request that the pool gave none for
/// is refused without a step being made, whatever happens after.
pub proof fn law_no_worker_means_an_immediate_refusal<W, H, B, R>(
    outcome: Outcome<R>,
    happenings: Seq<Happening<W, H, B, R>>,
)
    ensures
        ({
            let start = Handler::<W, H, B, R>::Acquiring;
            let set_out = Happening::Acquired {
                worker: None,
                proxy: Proxy::<H, B, R>::Finished { outcome },
            };
            let end = handled(start, seq![set_out] + happenings);
            &&& worked_through(start, seq![set_out] + happenings) == Seq::<Event<B, R>>::empty()
            &&& end == (Handler::<W, H, B, R>::Releasing { worker: None, outcome }) || end
                == (Handler::<W, H, B, R>::Done { outcome })
        }),
{
    let start = Handler::<W, H, B, R>::Acquiring;
    let set_out = Happening::Acquired {
        worker: None,
        proxy: Proxy::<H, B, R>::Finished { outcome },
    };
    let all = seq![set_out] + happenings;
    assert(all.drop_first() =~= happenings);
    lemma_releasing(None::<W>, outcome, happenings);
    assert(worked_through(start, all) =~= Seq::<Event<B, R>>::empty());
}

proof fn lemma_releasing<W, H, B, R>(
    worker: Option<W>,
    outcome: Outcome<R>,
    happenings: Seq<Happening<W, H, B, R>>,
)
    ensures
        ({
            let start = Handler::<W, H, B, R>::Releasing { worker, outcome };
            let end = handled(start, happenings);
            &&& worked_through(start, happenings) == Seq::<Event<B, R>>::empty()
            &&& end == start || end == (Handler::<W, H, B, R>::Done { outcome })
        }),
    decreases happenings.len(),
{
    let start = Handler::<W, H, B, R>::Releasing { worker, outcome };
    if happenings.len() > 0 {
        let rest = happenings.drop_first();
        if happenings[0] is Released {
            lemma_done_is_final(start.next(happenings[0]), rest);
        } else {
            lemma_releasing(worker, outcome, rest);
        }
        assert(worked_through(start, happenings) =~= Seq::<Event<B, R>>::empty());
    }
}

/// A worker is borrowed once and given back: whatever happens, a request takes
/// from the pool no more than once; by the time its client gets an answer, be it
/// a response or a refusal, it has given back exactly what it took; and until then
/// it holds it.
pub proof fn law_worker_is_borrowed_once_and_given_back<W, H, B, R>(
    happenings: Seq<Happening<W, H, B, R>>,
)
    ensures
        ({
            let start = Handler::<W, H, B, R>::Acquiring;
            let end = handled(start, happenings);
            let took = taken(start, happenings);
            let gave = given_back(start, happenings);
            &&& took.len() <= 1
            &&& end is Acquiring <==> took.len() == 0
            &&& end is Done ==> took.len() == 1 && gave == took
            &&& end !is Done ==> gave.len() == 0
            &&& took.len() == 1 && end !is Done ==> end.held() == took[0]
        }),
    decreases happenings.len(),
{
    let start = Handler::<W, H, B, R>::Acquiring;
    if happenings.len() > 0 {
        let next = start.next(happenings[0]);
        let rest = happenings.drop_first();
        assert(given_back(start, happenings) =~= given_back(next, rest));
        match happenings[0] {
            Happening::Acquired { worker, .. } => {
                lemma_borrowed(next, rest);
                assert(taken(start, happenings) =~= seq![worker]);
                assert(next.held() == worker);
            },
            _ => {
                law_worker_is_borrowed_once_and_given_back(rest);
                assert(taken(start, happenings) =~= taken(next, rest));
            },
        }
    }
}

/// What the handler answers is what the proxying brought, and the request is
/// proxied once: from the point where it set out, the request is where its own
/// events have taken it, and the answer is that request's outcome.
pub proof fn law_answer_is_what_proxying_brought<W, H, B, R>(
    worker: Option<W>,
    proxy: Proxy<H, B, R>,
    happenings: Seq<Happening<W, H, B, R>>,
)
    ensures
        ({
            let start = under_way(worker, proxy);
            let end = handled(start, happenings);
            let reached = crate::proxy::run(proxy, worked_through(start, happenings));
            match end {
                Handler::Acquiring => false,
                Handler::Proxying { proxy: p, .. } => p == reached,
                Handler::Releasing { outcome, .. } => reached == (Proxy::<H, B, R>::Finished {
                    outcome,
                }),
                Handler::Done { outcome } => reached == (Proxy::<H, B, R>::Finished { outcome }),
            }
        }),
    decreases happenings.len(),
{
    let start = under_way(worker, proxy);
    if happenings.len() > 0 {
        let rest = happenings.drop_first();
        let next = start.next(happenings[0]);
        let through = worked_through(start, happenings);
        if next is Done {
            lemma_done_is_final(next, rest);
            assert(through =~= Seq::<Event<B, R>>::empty());
        } else {
            match (start, happenings[0]) {
                (Handler::Proxying { .. }, Happening::Worked(event)) => {
                    law_answer_is_what_proxying_brought(worker, proxy.next(event), rest);
                    assert(through[0] == event);
                    assert(through.drop_first() =~= worked_through(next, rest));
                },
                _ => {
                    assert(next == start);
                    law_answer_is_what_proxying_brought(worker, proxy, rest);
                    assert(through =~= worked_through(next, rest));
                },
            }
        }
    }
}

/// A request that has come in waits for a worker.
pub proof fn law_request_begins_by_asking_for_a_worker<W, H, B, R>(
    handler: Handler<W, H, B, R>,
    action: HandlerAction,
)
    requires
        call_ensures(Handler::<W, H, B, R>::new, (), handler),
        call_ensures(Handler::<W, H, B, R>::action, (&handler,), action),
    ensures
        action is Acquire,
{
}

/// What is asked for tells where the request stands: a worker first, then what the
/// proxying asks for, then the worker's return, and the answer exactly where there
/// is one.
pub proof fn law_handler_action_tells_where_the_request_stands<W, H, B, R>(
    handler: Handler<W, H, B, R>,
    action: HandlerAction,
    outcome: Option<Outcome<R>>,
)
    requires
        call_ensures(Handler::<W, H, B, R>::action, (&handler,), action),
        call_ensures(Handler::<W, H, B, R>::into_outcome, (handler,), outcome),
    ensures
        action is Acquire <==> handler is Acquiring,
        action is Proxy <==> handler is Proxying,
        action is Release <==> handler is Releasing,
        action is Answer <==> handler is Done,
        action is Answer <==> outcome is Some,
        outcome matches Some(o) ==> handler == (Handler::<W, H, B, R>::Done { outcome: o }),
{
}

/// While the request is under way the handler asks for what the proxying asks for,
/// takes in what came of it as the proxying does, and keeps the worker; it turns to
/// the worker's return exactly where the proxying is at its end, with its outcome.
pub proof fn law_handler_follows_the_proxying<W, H, B, R>(
    worker: Option<W>,
    proxy: Proxy<H, B, R>,
    action: HandlerAction,
    proxy_action: Action,
    event: Event<B, R>,
    after: Handler<W, H, B, R>,
    proxy_after: Proxy<H, B, R>,
)
    requires
        call_ensures(
            Handler::<W, H, B, R>::action,
            (&Handler::<W, H, B, R>::Proxying { worker, proxy },),
            action,
        ),
        call_ensures(Proxy::<H, B, R>::action, (&proxy,), proxy_action),
        call_ensures(
            Handler::<W, H, B, R>::worked,
            (Handler::<W, H, B, R>::Proxying { worker, proxy }, event),
            after,
        ),
        call_ensures(Proxy::<H, B, R>::advance, (proxy, event), proxy_after),
    ensures
        action == HandlerAction::Proxy(proxy_action),
        proxy_after !is Finished ==> after == (Handler::<W, H, B, R>::Proxying {
            worker,
            proxy: proxy_after,
        }),
        proxy_after matches Proxy::Finished { outcome } ==> after
            == (Handler::<W, H, B, R>::Releasing { worker, outcome }),
{
}

/// What the handler does not wait for leaves it as it is: a worker once it has
/// asked for one, a step of a request that is not under way, and the return of a
/// worker that is not due.
pub proof fn law_handler_takes_in_only_what_it_waits_for<W, H, B, R>(
    handler: Handler<W, H, B, R>,
    worker: Option<W>,
    proxy: Proxy<H, B, R>,
    acquired: Handler<W, H, B, R>,
    event: Event<B, R>,
    worked: Handler<W, H, B, R>,
    released: (Handler<W, H, B, R>, Option<W>),
)
    requires
        call_ensures(Handler::<W, H, B, R>::acquired, (handler, worker, proxy), acquired),
        call_ensures(Handler::<W, H, B, R>::worked, (handler, event), worked),
        call_ensures(Handler::<W, H, B, R>::release, (handler,), released),
    ensures
        handler !is Acquiring ==> acquired == handler,
        handler !is Proxying ==> worked == handler,
        handler !is Releasing ==> released == (handler, None::<W>),
{
}

/// The worker that the pool gave stays with the request that it was given for: the
/// request goes on with it, or, where it has been refused at once, turns to its
/// return.
pub proof fn law_request_keeps_the_worker_given<W, H, B, R>(
    worker: Option<W>,
    proxy: Proxy<H, B, R>,
    handler: Handler<W, H, B, R>,
)
    requires
        call_ensures(
            Handler::<W, H, B, R>::acquired,
            (Handler::<W, H, B, R>::Acquiring, worker, proxy),
            handler,
        ),
    ensures
        proxy !is Finished ==> handler == (Handler::<W, H, B, R>::Proxying { worker, proxy }),
        proxy matches Proxy::Finished { outcome } ==> handler
            == (Handler::<W, H, B, R>::Releasing { worker, outcome }),
{
}

/// The client is answered once the worker is back: what is released is the worker
/// that the request has, the answer is asked for next, and it is the outcome that
/// the request came to.
pub proof fn law_client_is_answered_once_the_worker_is_back<W, H, B, R>(
    worker: Option<W>,
    outcome: Outcome<R>,
    released: (Handler<W, H, B, R>, Option<W>),
    action: HandlerAction,
    answer: Option<Outcome<R>>,
)
    requires
        call_ensures(
            Handler::<W, H, B, R>::release,
            (Handler::<W, H, B, R>::Releasing { worker, outcome },),
            released,
        ),
        call_ensures(Handler::<W, H, B, R>::action, (&released.0,), action),
        call_ensures(Handler::<W, H, B, R>::into_outcome, (released.0,), answer),
    ensures
        released.1 == worker,
        action is Answer,
        answer == Some(outcome),
{
}

} // verus!
