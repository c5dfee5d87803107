//! What routers and actors are asked through their handles, with nobody to answer.
use crossbeam_channel::{unbounded, RecvError, SendError};
use herbert::channel::{exchange_with, post_with};
use herbert::client::{route, route_with};
use herbert::service::outcome_of_delivery;
use herbert::{
    answered, delivered, notice, stop_in_turn, Actor, ActorContext, ActorCtl, ActorStatus, Effect,
    Error, Inbox, Notice, Outcome, Router, RouterCore, RouterCtl, RouterRequest, Task,
};

use std::cell::RefCell;

type Core = RouterCore<u32, u8, ()>;
type Mail = Inbox<u32, u8>;

fn gone() -> Router<u32, u8, ()> {
    Router::run("gone", |_core: Core, _inbox: Mail| ())
}

fn kept() -> Router<u32, u8, Mail> {
    Router::run("kept", |_core: Core, inbox: Mail| inbox)
}

fn orphan() -> ActorContext<u32, u8> {
    let router = gone();
    ActorContext::new(
        "me".to_owned(),
        unbounded().1,
        unbounded().1,
        router.req,
        router.ctl,
        unbounded().0,
    )
}

fn is_send_failure<T>(res: Result<T, Error>) -> bool {
    match res {
        Err(e) => {
            e.to_string() == "sending on a disconnected channel" && matches!(e, Error::SendError(_))
        }
        Ok(_) => false,
    }
}

#[test]
fn handle_without_router_fails_to_send() {
    let router = gone();
    assert_eq!(router.id, "gone");
    assert!(is_send_failure(router.spawn("foo", 1)));
    assert!(is_send_failure(router.has("foo")));
    assert!(is_send_failure(router.get("foo")));
    assert!(is_send_failure(router.send("foo", 1)));
    assert!(is_send_failure(router.stop("foo")));
    assert!(is_send_failure(router.stop_async("foo")));
    assert!(is_send_failure(router.stop_list(vec!["foo".to_owned(), "bar".to_owned()])));
    assert!(is_send_failure(router.shutdown()));
}

#[test]
fn context_without_router_fails_to_send() {
    let ctx = orphan();
    assert!(is_send_failure(ctx.spawn("foo", 1)));
    assert!(is_send_failure(ctx.has("foo")));
    assert!(is_send_failure(ctx.get("foo")));
    assert!(is_send_failure(ctx.send("foo", 1)));
    assert!(is_send_failure(ctx.stop("foo")));
    assert!(is_send_failure(ctx.stop_async("foo")));
    assert!(is_send_failure(ctx.report_stopped()));
}

#[test]
fn stopping_nothing_succeeds() {
    gone().stop_list(Vec::new()).unwrap();
}

#[test]
fn stop_async_and_shutdown_reach_the_inbox() {
    let router = kept();
    router.stop_async("bar").unwrap();
    let msg = router.handle.ctl.try_recv().unwrap();
    assert!(matches!(msg, RouterCtl::StopActorAsync(id) if id == "bar"));
    let inbox = router.shutdown().unwrap();
    assert!(matches!(inbox.ctl.try_recv(), Ok(RouterCtl::Shutdown)));
}

#[test]
fn context_reaches_the_inbox() {
    let router = kept();
    let (stat, notices) = unbounded();
    let ctx = ActorContext::new(
        "me".to_owned(),
        unbounded().1,
        unbounded().1,
        router.req.clone(),
        router.ctl.clone(),
        stat,
    );
    ctx.stop_async("you").unwrap();
    let msg = router.handle.ctl.try_recv().unwrap();
    assert!(matches!(msg, RouterCtl::StopActorAsync(id) if id == "you"));
    ctx.report_stopped().unwrap();
    assert!(matches!(notices.try_recv(), Ok(ActorStatus::Stopped(id)) if id == "me"));
}

#[test]
fn context_sends_without_asking() {
    let (_q, req) = unbounded();
    let (_c, ctl) = unbounded();
    let (rq, rq_rx) = unbounded();
    let (rc, rc_rx) = unbounded();
    let (st, st_rx) = unbounded();
    let ctx: ActorContext<u32, u8> = ActorContext::new("me".to_owned(), req, ctl, rq, rc, st);
    ctx.send("foo", 7).unwrap();
    let request = rq_rx.try_recv().unwrap();
    assert_eq!((request.id.as_str(), request.val), ("foo", 7));
    assert!(rq_rx.is_empty() && rc_rx.is_empty() && st_rx.is_empty());
}

/// A send that keeps a record, and fails where the message is 0.
fn record(mut log: Vec<String>, msg: u32) -> (Vec<String>, Result<(), SendError<u32>>) {
    log.push(format!("put {}", msg));
    (log, if msg == 0 { Err(SendError(msg)) } else { Ok(()) })
}

#[test]
fn messages_are_put_once() {
    let (log, out) = post_with(5, Vec::new(), &record);
    assert_eq!(log, ["put 5"]);
    assert!(out.is_ok());
    let (log, out) = post_with(0, Vec::new(), &record);
    assert_eq!(log, ["put 0"]);
    assert!(is_send_failure(out));
}

#[test]
fn answers_are_waited_for_once_and_after_the_message() {
    let get = |mut log: Vec<String>| {
        log.push("get".to_owned());
        (log, Ok('x'))
    };
    let (log, out) = exchange_with(5, Vec::new(), &record, &get);
    assert_eq!(log, ["put 5", "get"]);
    assert_eq!(out.unwrap(), 'x');
    let (log, out) = exchange_with(0, Vec::new(), &record, &get);
    assert_eq!(log, ["put 0"]);
    assert!(is_send_failure(out));
    let lost = |log: Vec<String>| (log, Err::<char, RecvError>(RecvError));
    let (_, out) = exchange_with(5, Vec::new(), &record, &lost);
    assert!(matches!(out, Err(Error::RecvError(_))));
}

#[test]
fn only_a_found_actor_is_routed_to() {
    let put = |mut log: Vec<(String, u32)>, msg: RouterRequest<u32>| {
        log.push((msg.id, msg.val));
        (log, Ok(()))
    };
    let (log, out) = route_with("foo", 3, Ok(unbounded().0), Vec::new(), &put);
    assert_eq!(log, [("foo".to_owned(), 3)]);
    assert!(out.is_ok());
    let missing = Err(Error::NoSuchActor("foo".to_owned()));
    let (log, out) = route_with("foo", 3, missing, Vec::new(), &put);
    assert!(log.is_empty());
    assert!(matches!(out, Err(Error::NoSuchActor(id)) if id == "foo"));
}

#[test]
fn message_for_a_found_actor_is_handed_to_the_router() {
    let (req, requests) = unbounded();
    route(&req, "foo", 42, Ok(unbounded().0)).unwrap();
    let request = requests.try_recv().unwrap();
    assert_eq!((request.id.as_str(), request.val), ("foo", 42));
    drop(requests);
    assert!(is_send_failure(route(&req, "foo", 42, Ok(unbounded().0))));
}

#[test]
fn message_for_a_missing_actor_is_not_sent() {
    let (req, requests) = unbounded();
    let out = route(&req, "foo", 42, Err(Error::NoSuchActor("foo".to_owned())));
    assert!(matches!(out, Err(Error::NoSuchActor(id)) if id == "foo"));
    assert!(requests.try_recv().is_err());
}

#[test]
fn actors_are_stopped_in_turn_up_to_the_first_failure() {
    let ids: Vec<String> = ["a", "b", "c", "d"].iter().map(|id| id.to_string()).collect();
    let stop_but = |bad: &'static str| {
        move |mut stopped: Vec<String>, id: &String| {
            stopped.push(id.clone());
            if id == bad {
                (stopped, Err(Error::NoSuchActor(id.clone())))
            } else {
                (stopped, Ok(()))
            }
        }
    };
    let (stopped, out) = stop_in_turn(&ids, Vec::new(), &stop_but("none"));
    assert_eq!(stopped, ids);
    assert!(out.is_ok());
    let (stopped, out) = stop_in_turn(&ids, Vec::new(), &stop_but("c"));
    assert_eq!(stopped, ["a", "b", "c"]);
    assert!(matches!(out, Err(Error::NoSuchActor(id)) if id == "c"));
}

#[test]
fn only_a_panic_is_worth_a_notice() {
    assert!(notice("foo".to_owned(), true).is_none());
    let status = notice("foo".to_owned(), false);
    assert!(matches!(status, Some(ActorStatus::Paniced(id)) if id == "foo"));
}

#[test]
fn notices_are_sent_as_they_are() {
    let (stat, notices) = unbounded();
    let told = Notice { stat: stat.clone(), status: ActorStatus::Paniced("foo".to_owned()) };
    told.post().unwrap();
    assert!(matches!(notices.try_recv(), Ok(ActorStatus::Paniced(id)) if id == "foo"));
    drop(notices);
    let told = Notice { stat, status: ActorStatus::Paniced("foo".to_owned()) };
    assert!(is_send_failure(told.post()));
}

type Deed = Effect<u32, u8, u64>;

fn perform(effect: Deed) -> Outcome<u32, u64> {
    effect.perform(&|task: Task<u32, u8>| u64::from(task.f), &|_: u64| ())
}

#[test]
fn effects_are_had_on_their_channels() {
    let (to, messages) = unbounded();
    let deed = Deed::Deliver { id: "foo".to_owned(), to: to.clone(), val: 3 };
    assert!(matches!(perform(deed), Outcome::Done));
    assert_eq!(messages.try_recv(), Ok(3));
    drop(messages);
    let deed = Deed::Deliver { id: "foo".to_owned(), to, val: 3 };
    assert!(matches!(perform(deed), Outcome::Lost(id) if id == "foo"));

    let (confirm, confirmed) = unbounded();
    assert!(matches!(perform(Deed::Confirm(confirm)), Outcome::Done));
    assert!(confirmed.try_recv().is_ok());

    let (answer, answers) = unbounded();
    let deed = Deed::Answer { to: answer, answer: Err(Error::NoSuchActor("foo".to_owned())) };
    assert!(matches!(perform(deed), Outcome::Done));
    assert!(matches!(answers.try_recv(), Ok(Err(Error::NoSuchActor(id))) if id == "foo"));

    let (tell, told) = unbounded();
    assert!(matches!(perform(Deed::Tell { to: tell, found: true }), Outcome::Done));
    assert_eq!(told.try_recv(), Ok(true));

    let (ctl, orders) = unbounded();
    assert!(matches!(perform(Deed::Stop { id: "foo".to_owned(), ctl: ctl.clone() }), Outcome::Done));
    assert!(matches!(orders.try_recv(), Ok(ActorCtl::Stop)));
    drop(orders);
    assert!(matches!(perform(Deed::Stop { id: "foo".to_owned(), ctl }), Outcome::Done));

    let actor = |handle| Actor {
        id: "foo".to_owned(),
        req: unbounded().0,
        ctl: unbounded().0,
        handle,
    };
    let joined = RefCell::new(Vec::new());
    let join = |handle: u64| joined.borrow_mut().push(handle);
    for deed in [Deed::Join(actor(1)), Deed::Release(actor(2))] {
        assert!(matches!(deed.perform(&|_: Task<u32, u8>| 0, &join), Outcome::Done));
    }
    assert_eq!(joined.into_inner(), [1]);
    assert!(matches!(perform(Deed::Reject(Error::NoSuchActor("foo".to_owned()))), Outcome::Done));
}

#[test]
fn start_gives_the_actor_its_thread() {
    let (mut core, _inbox): (RouterCore<u32, u8, u64>, Mail) = RouterCore::open();
    let (msg, _resp) = RouterCtl::spawn("foo", 9);
    let mut todo = core.decide(herbert::Event::Ctl(Ok(msg)));
    match perform(todo.remove(0)) {
        Outcome::Started(actor) => assert_eq!((actor.id.as_str(), actor.handle), ("foo", 9)),
        _ => panic!("not started"),
    }
}

#[test]
fn failed_delivery_loses_the_actor() {
    let done: Outcome<u32, ()> = outcome_of_delivery("foo".to_owned(), Ok(()));
    assert!(matches!(done, Outcome::Done));
    let put = Err(Error::SendError("x".to_owned()));
    let lost: Outcome<u32, ()> = outcome_of_delivery("foo".to_owned(), put);
    assert!(matches!(lost, Outcome::Lost(id) if id == "foo"));
}

#[test]
fn requests_hold_what_they_are_made_of() {
    let request = RouterRequest::new("foo", 3);
    assert_eq!((request.id.as_str(), request.val), ("foo", 3));

    let (msg, rx) = RouterCtl::<u32, u8>::spawn("foo", 9);
    match msg {
        RouterCtl::Spawn { id, f, resp } => {
            assert_eq!((id.as_str(), f), ("foo", 9));
            resp.send(()).unwrap();
            rx.recv().unwrap();
        }
        _ => panic!("not a spawn request"),
    }

    let (msg, rx) = RouterCtl::<u32, u8>::get("foo");
    match msg {
        RouterCtl::Get { id, resp } => {
            assert_eq!(id, "foo");
            resp.send(Err(Error::NoSuchActor(id))).unwrap();
            assert!(matches!(rx.recv().unwrap(), Err(Error::NoSuchActor(id)) if id == "foo"));
        }
        _ => panic!("not a get request"),
    }

    let (msg, rx) = RouterCtl::<u32, u8>::has("foo");
    match msg {
        RouterCtl::Has { id, resp } => {
            assert_eq!(id, "foo");
            resp.send(true).unwrap();
            assert!(rx.recv().unwrap());
        }
        _ => panic!("not a has request"),
    }

    let (msg, rx) = RouterCtl::<u32, u8>::stop_actor("foo");
    match msg {
        RouterCtl::StopActor { id, resp } => {
            assert_eq!(id, "foo");
            drop(resp);
            assert!(rx.recv().is_err());
        }
        _ => panic!("not a stop request"),
    }

    let msg = RouterCtl::<u32, u8>::stop_actor_async("foo");
    assert!(matches!(msg, RouterCtl::StopActorAsync(id) if id == "foo"));
}

#[test]
fn results_of_channels_keep_their_text() {
    let (tx, rx) = unbounded::<u8>();
    assert!(delivered(tx.send(1)).is_ok());
    assert_eq!(answered(rx.recv()).unwrap(), 1);
    drop(rx);
    assert!(is_send_failure(delivered(tx.send(2))));
    let e = answered::<u8>(Err(RecvError)).unwrap_err();
    assert!(matches!(&e, Error::RecvError(_)));
    assert_eq!(e.to_string(), "receiving on an empty and disconnected channel");
}

#[test]
fn errors_read_as_they_should() {
    assert_eq!(Error::SendError("a".to_owned()).to_string(), "a");
    assert_eq!(Error::RecvError("b".to_owned()).to_string(), "b");
    assert_eq!(Error::NoSuchActor("c".to_owned()).to_string(), "no such actor: c");
    assert_eq!(Error::NoSuchActor(String::new()).to_string(), "no such actor: ");
}
