//! A router and its actors on one thread: an actor runs when its thread would be joined.
use crossbeam_channel::{unbounded, RecvError, Sender, TryRecvError};
use herbert::{
    ActorContext, ActorCtl, ActorStatus, Effect, Error, Event, Inbox, Outcome, Router, RouterCore,
    RouterCtl, RouterRequest, Task,
};
use std::any::Any;
use std::cell::RefCell;

type Message = Box<dyn Any + Send>;
type Context = ActorContext<Message, Body>;
type Job = Task<Message, Body>;
type Core = RouterCore<Message, Body, Job>;
type Mail = Inbox<Message, Body>;
type Rig = Router<Message, Body, (Core, Mail)>;

struct Body(Box<dyn FnOnce(Context)>);

fn body(f: impl FnOnce(Context) + 'static) -> Body {
    Body(Box::new(f))
}

fn rig(id: &str) -> Rig {
    Router::run(id, |core: Core, inbox: Mail| (core, inbox))
}

/// How an effect reads in the log of a step.
fn entry<H>(effect: &Effect<Message, Body, H>) -> String {
    match effect {
        Effect::Deliver { id, .. } => format!("deliver {}", id),
        Effect::Reject(e) => format!("reject: {}", e.to_string()),
        Effect::Start { seat, .. } => format!("start {}", seat.id),
        Effect::Confirm(_) => "confirm".to_owned(),
        Effect::Answer { answer, .. } => format!("answer {}", answer.is_ok()),
        Effect::Tell { found, .. } => format!("tell {}", found),
        Effect::Stop { id, .. } => format!("stop {}", id),
        Effect::Join(actor) => format!("join {}", actor.id),
        Effect::Release(actor) => format!("release {}", actor.id),
    }
}

fn entries<H>(todo: &[Effect<Message, Body, H>]) -> Vec<String> {
    todo.iter().map(entry).collect()
}

/// Runs the job of an actor that is waited for.
fn finish(job: Job) {
    let told = job.run(|f, ctx| {
        (f.0)(ctx);
        true
    });
    assert!(told.is_none());
}

/// Has the core deal with an event. Returns the log, and whether the router goes on.
fn step(core: &mut Core, event: Event<Message, Body>) -> (Vec<String>, bool) {
    core.step(event, Vec::new(), &|mut log: Vec<String>, effect| {
        log.push(entry(&effect));
        (log, effect.perform(&|job: Job| job, &finish))
    })
}

/// Hands the core what has come into the inbox, until nothing is left or it does not go on.
fn pump(core: &mut Core, inbox: &Mail) -> (Vec<String>, bool) {
    let mut log = Vec::new();
    loop {
        let event = if let Ok(request) = inbox.req.try_recv() {
            Event::Request(Ok(request))
        } else if let Ok(msg) = inbox.ctl.try_recv() {
            Event::Ctl(Ok(msg))
        } else if let Ok(status) = inbox.stat.try_recv() {
            Event::Status(Ok(status))
        } else {
            return (log, true);
        };
        let (more, goes_on) = step(core, event);
        log.extend(more);
        if !goes_on {
            return (log, false);
        }
    }
}

fn serve(router: &mut Rig) -> Vec<String> {
    let (core, inbox) = &mut router.handle;
    let (log, goes_on) = pump(core, inbox);
    assert!(goes_on);
    log
}

fn has(router: &mut Rig, id: &str) -> bool {
    let (msg, resp) = RouterCtl::has(id);
    router.ctl.send(msg).unwrap();
    serve(router);
    resp.recv().unwrap()
}

fn get(router: &mut Rig, id: &str) -> Result<Sender<Message>, Error> {
    let (msg, resp) = RouterCtl::get(id);
    router.ctl.send(msg).unwrap();
    serve(router);
    resp.recv().unwrap()
}

fn spawn(router: &mut Rig, id: &str, f: impl FnOnce(Context) + 'static) {
    let (msg, resp) = RouterCtl::spawn(id, body(f));
    router.ctl.send(msg).unwrap();
    serve(router);
    resp.recv().unwrap()
}

fn stop(router: &mut Rig, id: &str) -> bool {
    let (msg, resp) = RouterCtl::stop_actor(id);
    router.ctl.send(msg).unwrap();
    serve(router);
    resp.recv().is_ok()
}

fn send<T: Any + Send>(router: &mut Rig, id: &str, val: T) -> Vec<String> {
    router.req.send(RouterRequest::new(id, Box::new(val))).unwrap();
    serve(router)
}

/// A router whose actors are not run but kept aside.
type Desk = (RouterCore<Message, Body, ()>, Mail);

/// Has the router of the desk spawn an actor, and returns what its thread would have to do.
fn hire(desk: &mut Desk, id: &str) -> Job {
    let jobs = RefCell::new(Vec::new());
    let (msg, resp) = RouterCtl::spawn(id, body(obey));
    assert!(desk.0.serve(
        Event::Ctl(Ok(msg)),
        &|job: Job| jobs.borrow_mut().push(job),
        &|_: ()| (),
        &|_| (),
    ));
    resp.recv().unwrap();
    jobs.into_inner().pop().unwrap()
}

/// Has the router of the desk deal with an event. Returns what was noted, and whether it goes on.
fn tell(desk: &mut Desk, event: Event<Message, Body>) -> (Vec<String>, bool) {
    let log = RefCell::new(Vec::new());
    let goes_on = desk.0.serve(
        event,
        &|_: Job| (),
        &|_: ()| (),
        &|effect| log.borrow_mut().push(entry(effect)),
    );
    (log.into_inner(), goes_on)
}

fn knows(desk: &mut Desk, id: &str) -> bool {
    let (msg, resp) = RouterCtl::has(id);
    assert!(tell(desk, Event::Ctl(Ok(msg))).1);
    resp.recv().unwrap()
}

fn request<T: Any + Send>(id: &str, val: T) -> Event<Message, Body> {
    Event::Request(Ok(RouterRequest::new(id, Box::new(val))))
}

fn obey(ctx: Context) {
    ctx.ctl.recv().unwrap();
    ctx.report_stopped().unwrap();
}

#[test]
fn basic_router() {
    let mut router = rig("test");

    assert!(!has(&mut router, "foo"));

    spawn(&mut router, "foo", |ctx| {
        ctx.ctl.recv().unwrap();
        ctx.report_stopped().unwrap();
    });

    assert!(has(&mut router, "foo"));

    assert!(stop(&mut router, "foo"));

    assert!(!has(&mut router, "foo"));

    let (mut core, inbox) = router.shutdown().unwrap();
    assert!(!pump(&mut core, &inbox).1);
}

#[test]
fn run_keeps_the_id() {
    assert_eq!(rig("example").id, "example");
}

#[test]
fn message_reaches_the_actor() {
    let mut router = rig("test");
    let (seen, log) = unbounded();
    spawn(&mut router, "herbert", move |ctx| {
        let order = ctx.req.recv().unwrap();
        seen.send(order.downcast_ref::<String>().unwrap().clone()).unwrap();
        obey(ctx);
    });
    assert_eq!(send(&mut router, "herbert", String::from("2 gorditas")), ["deliver herbert"]);
    assert!(stop(&mut router, "herbert"));
    assert_eq!(log.recv().unwrap(), "2 gorditas");
}

#[test]
fn direct_channel_reaches_the_actor() {
    let mut router = rig("test");
    let (seen, log) = unbounded();
    spawn(&mut router, "one", move |ctx| {
        seen.send(*ctx.req.recv().unwrap().downcast_ref::<i32>().unwrap()).unwrap();
        obey(ctx);
    });
    get(&mut router, "one").unwrap().send(Box::new(7)).unwrap();
    assert!(stop(&mut router, "one"));
    assert_eq!(log.recv().unwrap(), 7);
}

#[test]
fn messages_come_in_order_and_to_their_actor_only() {
    let mut desk: Desk = RouterCore::open();
    let a = hire(&mut desk, "a");
    let b = hire(&mut desk, "b");
    for (id, val) in [("a", 1), ("b", 2), ("a", 3), ("nobody", 4), ("a", 5)] {
        assert!(tell(&mut desk, request(id, val)).1);
    }
    let read = |job: &Job| -> Vec<i32> {
        job.ctx.req.try_iter().map(|val| *val.downcast_ref().unwrap()).collect()
    };
    assert_eq!(read(&a), [1, 3, 5]);
    assert_eq!(read(&b), [2]);
    assert!(a.ctx.ctl.is_empty() && b.ctx.ctl.is_empty());
}

#[test]
fn message_for_unknown_actor_is_rejected() {
    let mut router = rig("test");
    assert_eq!(send(&mut router, "nobody", 1), ["reject: no such actor: nobody"]);
}

#[test]
fn get_of_unknown_actor_fails() {
    let mut router = rig("test");
    assert!(matches!(get(&mut router, "nobody"), Err(Error::NoSuchActor(id)) if id == "nobody"));
}

#[test]
fn stop_of_unknown_actor_is_not_confirmed() {
    let mut router = rig("test");
    spawn(&mut router, "foo", obey);
    assert!(!stop(&mut router, "bar"));
    assert!(has(&mut router, "foo"));
}

#[test]
fn second_stop_is_not_confirmed() {
    let mut router = rig("test");
    spawn(&mut router, "foo", obey);
    assert!(stop(&mut router, "foo"));
    assert!(!stop(&mut router, "foo"));
}

#[test]
fn decisions_are_listed_in_order() {
    let (mut core, _inbox): (Core, Mail) = RouterCore::open();
    let mut decide = |event| entries(&core.decide(event));
    let (confirm, _confirmed) = unbounded();
    let ctl = |msg| Event::Ctl(Ok(msg));
    let spawn = RouterCtl::Spawn { id: "foo".to_owned(), f: body(obey), resp: confirm.clone() };
    assert_eq!(decide(ctl(spawn)), ["start foo", "confirm"]);
    assert_eq!(decide(ctl(RouterCtl::get("foo").0)), ["answer false"]);
    assert_eq!(decide(ctl(RouterCtl::has("foo").0)), ["tell false"]);
    assert!(decide(ctl(RouterCtl::stop_actor("foo").0)).is_empty());
    assert!(decide(ctl(RouterCtl::stop_actor_async("foo"))).is_empty());
    assert!(decide(ctl(RouterCtl::Shutdown)).is_empty());
    assert_eq!(decide(request("foo", 1)), ["reject: no such actor: foo"]);
    assert!(decide(Event::Status(Ok(ActorStatus::Stopped("foo".to_owned())))).is_empty());
}

#[test]
fn started_actor_is_found_by_decisions() {
    let (mut core, _inbox): (Core, Mail) = RouterCore::open();
    let ctl = |msg| Event::Ctl(Ok(msg));
    step(&mut core, ctl(RouterCtl::spawn("foo", body(obey)).0));
    assert_eq!(entries(&core.decide(request("foo", 1))), ["deliver foo"]);
    assert_eq!(entries(&core.decide(ctl(RouterCtl::get("foo").0))), ["answer true"]);
    assert_eq!(entries(&core.decide(ctl(RouterCtl::has("foo").0))), ["tell true"]);
    let (msg, _resp) = RouterCtl::stop_actor("foo");
    assert_eq!(entries(&core.decide(ctl(msg))), ["stop foo", "join foo", "confirm"]);
    assert_eq!(entries(&core.decide(ctl(RouterCtl::has("foo").0))), ["tell false"]);
    step(&mut core, ctl(RouterCtl::spawn("bar", body(obey)).0));
    let todo = core.decide(ctl(RouterCtl::stop_actor_async("bar")));
    assert_eq!(entries(&todo), ["stop bar", "release bar"]);
}

#[test]
fn outcomes_are_settled() {
    let (mut core, _inbox): (Core, Mail) = RouterCore::open();
    let ctl = |msg| Event::Ctl(Ok(msg));
    step(&mut core, ctl(RouterCtl::spawn("foo", body(obey)).0));
    assert!(core.settle(Outcome::Done).is_none());
    assert_eq!(entries(&core.decide(ctl(RouterCtl::has("foo").0))), ["tell true"]);
    let next = core.settle(Outcome::Lost("foo".to_owned()));
    assert!(matches!(next, Some(Effect::Reject(Error::NoSuchActor(id))) if id == "foo"));
    assert_eq!(entries(&core.decide(ctl(RouterCtl::has("foo").0))), ["tell false"]);
}

#[test]
fn confirmation_follows_the_end_of_the_actor() {
    let mut router = rig("test");
    let (ended, ends) = unbounded();
    let (msg, resp) = RouterCtl::stop_actor("foo");
    let unconfirmed = resp.clone();
    spawn(&mut router, "foo", move |ctx| {
        assert!(matches!(ctx.ctl.recv(), Ok(ActorCtl::Stop)));
        ended.send(unconfirmed.is_empty()).unwrap();
    });
    router.ctl.send(msg).unwrap();
    assert_eq!(serve(&mut router), ["stop foo", "join foo", "confirm"]);
    assert!(ends.try_recv().unwrap());
    assert!(resp.try_recv().is_ok());
    assert!(resp.try_recv().is_err());
}

/// Reads `Stop`, and sends what the two channels hold then.
fn report_channels(ctx: Context, seen: Sender<(TryRecvError, TryRecvError)>) {
    assert!(matches!(ctx.ctl.recv(), Ok(ActorCtl::Stop)));
    seen.send((ctx.req.try_recv().err().unwrap(), ctx.ctl.try_recv().err().unwrap())).unwrap();
}

const OPEN: (TryRecvError, TryRecvError) = (TryRecvError::Empty, TryRecvError::Empty);

#[test]
fn stopped_actor_finds_its_channels_open() {
    let mut router = rig("test");
    let (seen, log) = unbounded();
    spawn(&mut router, "foo", move |ctx| report_channels(ctx, seen));
    assert!(stop(&mut router, "foo"));
    assert_eq!(log.try_recv(), Ok(OPEN));
}

#[test]
fn actors_find_their_channels_open_at_a_shutdown() {
    let mut router = rig("test");
    let (seen, log) = unbounded();
    for id in ["a", "b", "c"] {
        let seen = seen.clone();
        spawn(&mut router, id, move |ctx| report_channels(ctx, seen));
    }
    let (mut core, inbox) = router.shutdown().unwrap();
    assert!(!pump(&mut core, &inbox).1);
    assert_eq!(log.try_iter().collect::<Vec<_>>(), [OPEN, OPEN, OPEN]);
}

#[test]
fn channels_are_let_go_after_the_wait() {
    let (mut core, _inbox): (RouterCore<Message, Body, ()>, Mail) = RouterCore::open();
    let jobs = RefCell::new(Vec::new());
    let start = |job: Job| jobs.borrow_mut().push(job);
    let open = |jobs: &RefCell<Vec<Job>>| {
        let jobs = jobs.borrow();
        (jobs[0].ctx.req.try_recv().err(), jobs[0].ctx.ctl.try_recv().err())
    };
    let (msg, _resp) = RouterCtl::spawn("foo", body(obey));
    assert!(core.serve(Event::Ctl(Ok(msg)), &start, &|_: ()| (), &|_| ()));
    let waited = RefCell::new(Vec::new());
    let join = |_: ()| {
        assert!(matches!(jobs.borrow()[0].ctx.ctl.try_recv(), Ok(ActorCtl::Stop)));
        waited.borrow_mut().push(open(&jobs));
    };
    let (msg, _resp) = RouterCtl::stop_actor("foo");
    assert!(core.serve(Event::Ctl(Ok(msg)), &start, &join, &|_| ()));
    let (empty, closed) = (Some(TryRecvError::Empty), Some(TryRecvError::Disconnected));
    assert_eq!(waited.into_inner(), [(empty, empty)]);
    assert_eq!(open(&jobs), (closed, closed));
}

#[test]
fn async_stop_is_told_before_the_channels_are_let_go() {
    let mut desk: Desk = RouterCore::open();
    let job = hire(&mut desk, "foo");
    let log = RefCell::new(Vec::new());
    assert!(desk.0.serve(
        Event::Ctl(Ok(RouterCtl::stop_actor_async("foo"))),
        &|_: Job| (),
        &|_: ()| (),
        &|_| log.borrow_mut().push((job.ctx.ctl.len(), job.ctx.req.try_recv().err())),
    ));
    let empty = Some(TryRecvError::Empty);
    assert_eq!(log.into_inner(), [(0, empty), (1, empty)]);
    assert!(matches!(job.ctx.ctl.try_recv(), Ok(ActorCtl::Stop)));
    assert_eq!(job.ctx.req.try_recv().err(), Some(TryRecvError::Disconnected));
}

#[test]
fn questions_are_answered_once() {
    let mut router = rig("test");
    spawn(&mut router, "foo", obey);
    let (msg, found) = RouterCtl::has("foo");
    router.ctl.send(msg).unwrap();
    let (msg, sender) = RouterCtl::get("foo");
    router.ctl.send(msg).unwrap();
    assert_eq!(serve(&mut router), ["tell true", "answer true"]);
    assert_eq!((found.len(), sender.len()), (1, 1));
}

#[test]
fn stop_async_of_unknown_actor_does_nothing() {
    let mut router = rig("test");
    router.stop_async("nobody").unwrap();
    assert!(serve(&mut router).is_empty());
}

#[test]
fn stopped_and_paniced_actors_are_gone() {
    for status in [ActorStatus::Stopped("foo".to_owned()), ActorStatus::Paniced("foo".to_owned())] {
        let mut router = rig("test");
        spawn(&mut router, "foo", obey);
        spawn(&mut router, "bar", obey);
        let (core, _) = &mut router.handle;
        assert_eq!(step(core, Event::Status(Ok(status))), (Vec::new(), true));
        assert!(!has(&mut router, "foo"));
        assert!(get(&mut router, "foo").is_err());
        assert_eq!(send(&mut router, "foo", 1), ["reject: no such actor: foo"]);
        assert!(has(&mut router, "bar"));
    }
}

#[test]
fn notice_of_a_former_actor_ends_its_successor() {
    let mut router = rig("test");
    spawn(&mut router, "foo", obey);
    let (msg, resp) = RouterCtl::stop_actor("foo");
    let (core, inbox) = &mut router.handle;
    assert!(step(core, Event::Ctl(Ok(msg))).1);
    resp.recv().unwrap();
    let (msg, resp) = RouterCtl::spawn("foo", body(obey));
    assert!(step(core, Event::Ctl(Ok(msg))).1);
    resp.recv().unwrap();
    let notice = inbox.stat.try_recv().unwrap();
    assert!(step(core, Event::Status(Ok(notice))).1);
    assert!(!has(&mut router, "foo"));
}

#[test]
fn ending_twice_is_ending_once() {
    let mut router = rig("test");
    spawn(&mut router, "foo", obey);
    spawn(&mut router, "bar", obey);
    let (core, _) = &mut router.handle;
    for _ in 0..2 {
        let notice = ActorStatus::Stopped("foo".to_owned());
        assert_eq!(step(core, Event::Status(Ok(notice))), (Vec::new(), true));
    }
    assert!(!has(&mut router, "foo"));
    assert!(has(&mut router, "bar"));
}

#[test]
fn spawning_again_replaces_the_actor() {
    let mut router = rig("test");
    spawn(&mut router, "foo", obey);
    let first = get(&mut router, "foo").unwrap();
    spawn(&mut router, "foo", obey);
    let second = get(&mut router, "foo").unwrap();
    assert!(!first.same_channel(&second));
    assert!(stop(&mut router, "foo"));
    assert!(!has(&mut router, "foo"));
}

#[test]
fn replaced_actor_is_left_alone() {
    let mut desk: Desk = RouterCore::open();
    let first = hire(&mut desk, "foo");
    let second = hire(&mut desk, "foo");
    assert!(first.ctx.ctl.is_empty());
    assert!(tell(&mut desk, request("foo", 1)).1);
    assert_eq!((first.ctx.req.len(), second.ctx.req.len()), (0, 1));
    assert!(tell(&mut desk, Event::Ctl(Ok(RouterCtl::Shutdown))).0.contains(&"join foo".to_owned()));
    assert_eq!((first.ctx.ctl.len(), second.ctx.ctl.len()), (0, 1));
}

#[test]
fn get_hands_out_the_same_channel() {
    let mut router = rig("test");
    spawn(&mut router, "foo", obey);
    let first = get(&mut router, "foo").unwrap();
    let second = get(&mut router, "foo").unwrap();
    assert!(first.same_channel(&second));
}

#[test]
fn contexts_lead_to_the_router() {
    let mut router = rig("test");
    let (req, ctl) = (router.req.clone(), router.ctl.clone());
    let (seen, log) = unbounded();
    spawn(&mut router, "foo", move |ctx| {
        seen.send((
            ctx.id.clone(),
            ctx.router_req.same_channel(&req),
            ctx.router_ctl.same_channel(&ctl),
        ))
        .unwrap();
        obey(ctx);
    });
    assert!(stop(&mut router, "foo"));
    assert_eq!(log.recv().unwrap(), ("foo".to_owned(), true, true));
}

#[test]
fn shutdown_stops_every_actor_once_and_waits_for_it() {
    let mut router = rig("test");
    let (seen, log) = unbounded();
    for id in ["a", "b", "c"] {
        let seen = seen.clone();
        spawn(&mut router, id, move |ctx| {
            let told = matches!(ctx.ctl.recv(), Ok(ActorCtl::Stop));
            seen.send((ctx.id.clone(), told, ctx.ctl.is_empty())).unwrap();
        });
    }
    let (mut core, inbox) = router.shutdown().unwrap();
    let (done, goes_on) = pump(&mut core, &inbox);
    assert!(!goes_on);
    let mut stopped: Vec<(String, bool, bool)> = log.try_iter().collect();
    let order: Vec<String> =
        stopped.iter().flat_map(|(id, ..)| [format!("stop {}", id), format!("join {}", id)]).collect();
    assert_eq!(done, order);
    stopped.sort();
    assert_eq!(
        stopped,
        vec![
            ("a".to_owned(), true, true),
            ("b".to_owned(), true, true),
            ("c".to_owned(), true, true),
        ]
    );
    let (msg, resp) = RouterCtl::has("a");
    assert!(step(&mut core, Event::Ctl(Ok(msg))).1);
    assert!(!resp.recv().unwrap());
}

#[test]
fn lost_channels_are_rejected() {
    let (mut core, _inbox): (Core, Mail) = RouterCore::open();
    for event in [
        Event::Request(Err(RecvError)),
        Event::Ctl(Err(RecvError)),
        Event::Status(Err(RecvError)),
    ] {
        let (log, goes_on) = step(&mut core, event);
        assert_eq!(log, ["reject: receiving on an empty and disconnected channel"]);
        assert!(goes_on);
    }
}

#[test]
fn stop_async_sends_stop_and_forgets() {
    let mut desk: Desk = RouterCore::open();
    let job = hire(&mut desk, "foo");
    let other = hire(&mut desk, "bar");
    let msg = RouterCtl::stop_actor_async("foo");
    let (log, goes_on) = tell(&mut desk, Event::Ctl(Ok(msg)));
    assert_eq!(log, ["stop foo", "release foo"]);
    assert!(goes_on);
    assert!(matches!(job.ctx.ctl.try_recv(), Ok(ActorCtl::Stop)));
    assert!(other.ctx.ctl.is_empty());
    assert!(!knows(&mut desk, "foo"));
    assert!(knows(&mut desk, "bar"));
}

#[test]
fn panic_takes_the_actor_out() {
    let mut desk: Desk = RouterCore::open();
    let job = hire(&mut desk, "foo");
    job.run(|_f, _ctx| false).unwrap().post().unwrap();
    let notice = desk.1.stat.try_recv().unwrap();
    assert!(matches!(&notice, ActorStatus::Paniced(id) if id == "foo"));
    assert!(tell(&mut desk, Event::Status(Ok(notice))).1);
    assert!(!knows(&mut desk, "foo"));
}

#[test]
fn report_takes_the_actor_out() {
    let mut desk: Desk = RouterCore::open();
    let job = hire(&mut desk, "foo");
    job.ctx.report_stopped().unwrap();
    let notice = desk.1.stat.try_recv().unwrap();
    assert!(matches!(&notice, ActorStatus::Stopped(id) if id == "foo"));
    assert!(tell(&mut desk, Event::Status(Ok(notice))).1);
    assert!(!knows(&mut desk, "foo"));
}

#[test]
fn quiet_end_is_not_reported() {
    let mut desk: Desk = RouterCore::open();
    let job = hire(&mut desk, "foo");
    assert!(job.run(|_f, _ctx| true).is_none());
    assert!(desk.1.stat.try_recv().is_err());
    assert!(knows(&mut desk, "foo"));
}

#[test]
fn message_for_a_lost_actor_takes_it_out() {
    let mut desk: Desk = RouterCore::open();
    drop(hire(&mut desk, "lost"));
    let kept = hire(&mut desk, "kept");
    let (log, goes_on) = tell(&mut desk, request("lost", 1));
    assert_eq!(log, ["deliver lost", "reject: no such actor: lost"]);
    assert!(goes_on);
    assert!(!knows(&mut desk, "lost"));
    assert_eq!(tell(&mut desk, request("lost", 2)).0, ["reject: no such actor: lost"]);
    assert_eq!(tell(&mut desk, request("kept", 3)).0, ["deliver kept"]);
    assert_eq!(kept.ctx.req.len(), 1);
}

#[test]
fn stop_of_a_lost_actor_is_confirmed() {
    let mut desk: Desk = RouterCore::open();
    drop(hire(&mut desk, "lost"));
    let (msg, resp) = RouterCtl::stop_actor("lost");
    let (log, goes_on) = tell(&mut desk, Event::Ctl(Ok(msg)));
    assert_eq!(log, ["stop lost", "join lost", "confirm"]);
    assert!(goes_on);
    resp.recv().unwrap();
    assert!(!knows(&mut desk, "lost"));
}

#[test]
fn stop_async_of_a_lost_actor_is_served() {
    let mut desk: Desk = RouterCore::open();
    drop(hire(&mut desk, "lost"));
    let msg = RouterCtl::stop_actor_async("lost");
    let (log, goes_on) = tell(&mut desk, Event::Ctl(Ok(msg)));
    assert_eq!(log, ["stop lost", "release lost"]);
    assert!(goes_on);
    assert!(!knows(&mut desk, "lost"));
}

#[test]
fn router_outlives_its_askers() {
    let mut desk: Desk = RouterCore::open();
    let _job = hire(&mut desk, "foo");
    let msgs = vec![
        RouterCtl::has("foo").0,
        RouterCtl::get("foo").0,
        RouterCtl::get("nobody").0,
        RouterCtl::spawn("bar", body(obey)).0,
        RouterCtl::stop_actor("foo").0,
    ];
    for msg in msgs {
        assert!(tell(&mut desk, Event::Ctl(Ok(msg))).1);
    }
    assert!(!knows(&mut desk, "foo"));
    assert!(knows(&mut desk, "bar"));
}

#[test]
fn shutdown_goes_past_a_lost_actor() {
    let mut desk: Desk = RouterCore::open();
    let first = hire(&mut desk, "first");
    drop(hire(&mut desk, "lost"));
    let last = hire(&mut desk, "last");
    let (mut log, goes_on) = tell(&mut desk, Event::Ctl(Ok(RouterCtl::Shutdown)));
    assert!(!goes_on);
    log.sort();
    assert_eq!(
        log,
        ["join first", "join last", "join lost", "stop first", "stop last", "stop lost"]
    );
    assert_eq!((first.ctx.ctl.len(), last.ctx.ctl.len()), (1, 1));
    for id in ["first", "lost", "last"] {
        assert!(!knows(&mut desk, id));
    }
}

#[test]
fn task_and_context_share_the_router() {
    let mut desk: Desk = RouterCore::open();
    let (req, ctl) = desk.0.senders();
    let job = hire(&mut desk, "foo");
    assert_eq!((job.id.as_str(), job.ctx.id.as_str()), ("foo", "foo"));
    assert!(job.ctx.router_req.same_channel(&req));
    assert!(job.ctx.router_ctl.same_channel(&ctl));
    assert!(job.stat.same_channel(&job.ctx.stat));
}
