use valve::handler::{Handler, HandlerAction};
use valve::plumber::{plumber_handler, Plumber};
use valve::proxy::{Action, Event, Outcome, Proxy, Refusal};

type Request = Handler<&'static str, (), Vec<u8>, u16>;

fn set_out(worker: Option<&Plumber>, target: Option<&str>) -> Proxy<(), Vec<u8>, u16> {
    plumber_handler(worker, target, ()).unwrap()
}

fn worker() -> Plumber {
    Plumber { host: String::from("127.0.0.1"), port: 8000 }
}

fn under_way() -> Request {
    Handler::new().acquired(Some("w"), set_out(Some(&worker()), Some("/x")))
}

#[test]
fn worker_is_borrowed_and_given_back_with_a_response() {
    let handler: Request = Handler::new();
    assert_eq!(handler.action(), HandlerAction::Acquire);
    let handler = handler.acquired(Some("w"), set_out(Some(&worker()), Some("/x")));
    assert_eq!(handler.action(), HandlerAction::Proxy(Action::ReadBody));
    let handler = handler
        .worked(Event::BodyRead(vec![]))
        .worked(Event::RequestBuilt)
        .worked(Event::Responded(201));
    assert_eq!(handler.action(), HandlerAction::Release);
    let (handler, given_back) = handler.release();
    assert_eq!(given_back, Some("w"));
    assert_eq!(handler.action(), HandlerAction::Answer);
    assert!(matches!(handler.into_outcome(), Some(Outcome::Response(201))));
}

#[test]
fn worker_is_given_back_with_a_refusal_too() {
    let handler = under_way().worked(Event::BodyFailed);
    let (handler, given_back) = handler.release();
    assert_eq!(given_back, Some("w"));
    assert!(matches!(
        handler.into_outcome(),
        Some(Outcome::Refused(Refusal::BodyUnreadable))
    ));
}

#[test]
fn request_without_path_gives_its_worker_back_at_once() {
    let handler: Request = Handler::new().acquired(Some("w"), set_out(Some(&worker()), None));
    assert_eq!(handler.action(), HandlerAction::Release);
    assert_eq!(handler.release().1, Some("w"));
}

#[test]
fn request_without_worker_is_refused() {
    let handler: Request = Handler::new().acquired(None, set_out(None, Some("/x")));
    assert_eq!(handler.action(), HandlerAction::Release);
    let (handler, given_back) = handler.release();
    assert_eq!(given_back, None);
    match handler.into_outcome() {
        Some(Outcome::Refused(refusal)) => {
            assert_eq!(refusal.response().status, 502);
            assert_eq!(refusal.response().body, "no plumber worker available");
        }
        _ => panic!("not refused"),
    }
}

#[test]
fn worker_is_taken_and_given_back_only_once() {
    let handler = under_way().acquired(Some("v"), set_out(Some(&worker()), Some("/y")));
    let (handler, given_back) = handler.release();
    assert_eq!(given_back, None);
    let (handler, given_back) = handler.worked(Event::BodyFailed).release();
    assert_eq!(given_back, Some("w"));
    let (handler, given_back) = handler.worked(Event::Responded(200)).release();
    assert_eq!(given_back, None);
    assert!(matches!(handler.into_outcome(), Some(Outcome::Refused(_))));
}
