//! What a router can be asked through its channels. The handle of a router and the
//! context of an actor ask it in the same way, but for the sending of messages: an actor hands
//! them over without a question.
//!
//! A function here has no more than the lines that it is given, by value: on each it can send the
//! one message that its contract speaks of, and none besides.
use crossbeam_channel::{Receiver, SendError, Sender};
use vstd::prelude::*;

use crate::channel::{exchanged, post_with, posted, posted_with, Line};
use crate::error::Error;
use crate::message::{RouterCtl, RouterRequest};

verus! {

/// The router behind `ctl` was asked to spawn an actor of ID `id` that runs `f`, and its
/// confirmation waited for.
pub open spec fn asked_to_spawn<M, F>(
    ctl: Sender<RouterCtl<M, F>>,
    id: Seq<char>,
    f: F,
    out: Result<(), Error>,
) -> bool {
    exists|msg: RouterCtl<M, F>, rx: Receiver<()>| #[trigger]
        msg.is_spawn(id, f, rx) && exchanged(ctl, msg, rx, out)
}

/// The router behind `ctl` was asked whether it has an actor of ID `id`.
pub open spec fn asked_whether_has<M, F>(
    ctl: Sender<RouterCtl<M, F>>,
    id: Seq<char>,
    out: Result<bool, Error>,
) -> bool {
    exists|msg: RouterCtl<M, F>, rx: Receiver<bool>| #[trigger]
        msg.is_has(id, rx) && exchanged(ctl, msg, rx, out)
}

/// The router behind `ctl` was asked for the channel of the actor of ID `id`: its own
/// answer, where one came, is the outcome.
pub open spec fn asked_to_get<M, F>(
    ctl: Sender<RouterCtl<M, F>>,
    id: Seq<char>,
    out: Result<Sender<M>, Error>,
) -> bool {
    exists|
        msg: RouterCtl<M, F>,
        rx: Receiver<Result<Sender<M>, Error>>,
        reply: Result<Result<Sender<M>, Error>, Error>,
    |
        #![trigger msg.is_get(id, rx), exchanged(ctl, msg, rx, reply)]
        msg.is_get(id, rx) && exchanged(ctl, msg, rx, reply) && match reply {
            Ok(answer) => out == answer,
            Err(e) => out == Err::<Sender<M>, Error>(e),
        }
}

/// What comes of `val` for the actor of ID `id` once the router has looked the actor up:
/// where there is none, that error; else the router behind `req` is handed the message.
pub open spec fn routes<M>(
    req: Sender<RouterRequest<M>>,
    id: Seq<char>,
    val: M,
    found: Result<Sender<M>, Error>,
    out: Result<(), Error>,
) -> bool {
    match found {
        Ok(_) => exists|msg: RouterRequest<M>| #[trigger]
            msg.is_for(id, val) && posted(req, msg, out),
        Err(e) => out == Err::<(), Error>(e),
    }
}

/// What `routes` says, of `put` to hand the message over with: where the actor was found, `put`
/// did so in the world `start`, which left the world `end`; else nothing was sent.
pub open spec fn routed_with<
    W,
    M,
    P: Fn(W, RouterRequest<M>) -> (W, Result<(), SendError<RouterRequest<M>>>),
>(
    id: Seq<char>,
    val: M,
    found: Result<Sender<M>, Error>,
    start: W,
    put: P,
    end: W,
    out: Result<(), Error>,
) -> bool {
    match found {
        Ok(_) => exists|msg: RouterRequest<M>| #[trigger]
            msg.is_for(id, val) && posted_with(msg, start, put, end, out),
        Err(e) => end == start && out == Err::<(), Error>(e),
    }
}

/// The router behind `ctl` was asked for the actor of ID `id`, and where it has one, handed
/// `val` for it through `req`.
pub open spec fn asked_to_route<M, F>(
    ctl: Sender<RouterCtl<M, F>>,
    req: Sender<RouterRequest<M>>,
    id: Seq<char>,
    val: M,
    out: Result<(), Error>,
) -> bool {
    exists|found: Result<Sender<M>, Error>| #[trigger]
        asked_to_get(ctl, id, found) && routes(req, id, val, found, out)
}

/// The router behind `ctl` was asked to stop the actor of ID `id`, and its confirmation
/// waited for.
pub open spec fn asked_to_stop<M, F>(
    ctl: Sender<RouterCtl<M, F>>,
    id: Seq<char>,
    out: Result<(), Error>,
) -> bool {
    exists|msg: RouterCtl<M, F>, rx: Receiver<()>| #[trigger]
        msg.is_stop_actor(id, rx) && exchanged(ctl, msg, rx, out)
}

/// The router behind `ctl` was asked to stop the actor of ID `id`, and not waited for.
pub open spec fn asked_to_stop_async<M, F>(
    ctl: Sender<RouterCtl<M, F>>,
    id: Seq<char>,
    out: Result<(), Error>,
) -> bool {
    exists|msg: RouterCtl<M, F>| #[trigger] msg.is_stop_actor_async(id) && posted(ctl, msg, out)
}

/// Asks the router behind `ctl` for a new actor.
pub(crate) fn spawn<M, F, L: Line<RouterCtl<M, F>>>(ctl: L, id: &str, f: F) -> (out: Result<
    (),
    Error,
>)
    ensures
        asked_to_spawn(ctl.sender(), id@, f, out),
{
    let (msg, rx) = RouterCtl::spawn(id, f);
    ctl.exchange(msg, &rx)
}

/// Asks the router behind `ctl` whether it has an actor.
pub(crate) fn has<M, F, L: Line<RouterCtl<M, F>>>(ctl: L, id: &str) -> (out: Result<bool, Error>)
    ensures
        asked_whether_has(ctl.sender(), id@, out),
{
    let (msg, rx) = RouterCtl::has(id);
    ctl.exchange(msg, &rx)
}

/// Asks the router behind `ctl` for the channel of an actor.
pub(crate) fn get<M, F, L: Line<RouterCtl<M, F>>>(ctl: L, id: &str) -> (out: Result<Sender<M>, Error>)
    ensures
        asked_to_get(ctl.sender(), id@, out),
{
    let (msg, rx) = RouterCtl::get(id);
    let reply = ctl.exchange(msg, &rx);
    assert(msg.is_get(id@, rx) && exchanged(ctl.sender(), msg, rx, reply));
    match reply {
        Ok(answer) => answer,
        Err(e) => Err(e),
    }
}

/// Hands a message over with `put`, once, if the actor it is for was found.
///
/// `put` is handed the world `start`, and what it leaves is returned: nothing else can be sent,
/// and nothing at all for a missing actor.
pub fn route_with<
    W,
    M,
    P: Fn(W, RouterRequest<M>) -> (W, Result<(), SendError<RouterRequest<M>>>),
>(id: &str, val: M, found: Result<Sender<M>, Error>, start: W, put: &P) -> (res: (
    W,
    Result<(), Error>,
))
    requires
        forall|world: W, msg: RouterRequest<M>| call_requires(*put, (world, msg)),
    ensures
        routed_with(id@, val, found, start, *put, res.0, res.1),
{
    match found {
        Ok(_) => post_with(RouterRequest::new(id, val), start, put),
        Err(e) => (start, Err(e)),
    }
}

/// Hands the router behind `req` a message for an actor that it was found to have.
pub fn route<M, R: Line<RouterRequest<M>>>(
    req: R,
    id: &str,
    val: M,
    found: Result<Sender<M>, Error>,
) -> (out: Result<(), Error>)
    ensures
        routes(req.sender(), id@, val, found, out),
{
    match found {
        Ok(_) => req.post(RouterRequest::new(id, val)),
        Err(e) => Err(e),
    }
}

/// Has a message routed to an actor, if there is such an actor.
pub(crate) fn send<M, F, L: Line<RouterCtl<M, F>>, R: Line<RouterRequest<M>>>(
    ctl: L,
    req: R,
    id: &str,
    val: M,
) -> (out: Result<(), Error>)
    ensures
        asked_to_route(ctl.sender(), req.sender(), id@, val, out),
{
    let found = get(ctl, id);
    assert(asked_to_get(ctl.sender(), id@, found));
    route(req, id, val, found)
}

/// Asks the router behind `ctl` to stop an actor, and waits until it has.
pub(crate) fn stop<M, F, L: Line<RouterCtl<M, F>>>(ctl: L, id: &str) -> (out: Result<(), Error>)
    ensures
        asked_to_stop(ctl.sender(), id@, out),
{
    let (msg, rx) = RouterCtl::stop_actor(id);
    ctl.exchange(msg, &rx)
}

/// Asks the router behind `ctl` to stop an actor, without waiting for it.
pub(crate) fn stop_async<M, F, L: Line<RouterCtl<M, F>>>(ctl: L, id: &str) -> (out: Result<(), Error>)
    ensures
        asked_to_stop_async(ctl.sender(), id@, out),
{
    ctl.post(RouterCtl::stop_actor_async(id))
}

} // verus!
