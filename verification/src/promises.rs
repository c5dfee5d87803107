//! What the functions of the library do, told by the sends and receives on channels, the calls
//! of functions that are handed in, and the values that go in and come out.
//!
//! Each promise is made of a call of the function itself. It rests on nothing that the contract
//! of that function says it by.
use crossbeam_channel::{Receiver, RecvError, SendError, Sender};
use vstd::prelude::*;

use crate::actor::{notice, Actor, ActorContext, Notice, Task};
use crate::channel::{answered, delivered, exchange_with, post_with};
use crate::client::{route, route_with};
use crate::error::Error;
use crate::message::{ActorStatus, RouterCtl, RouterRequest};
use crate::registry::Registry;
use crate::router::{stop_in_turn, Router};
use crate::service::{RouterState, Seat};

verus! {

/// `msg` was sent on `tx`, with success or without.
pub open spec fn put<T>(tx: Sender<T>, msg: T, ok: bool) -> bool {
    exists|res: Result<(), SendError<T>>| #[trigger]
        call_ensures(Sender::<T>::send, (&tx, msg), res) && (res is Ok <==> ok)
}

/// `res` is what was received on `rx`.
pub open spec fn took<T>(rx: Receiver<T>, res: Result<T, RecvError>) -> bool {
    call_ensures(Receiver::<T>::recv, (&rx,), res)
}

/// `tx` and `rx` are the ends of a channel that was made for them.
pub open spec fn are_ends<T>(tx: Sender<T>, rx: Receiver<T>) -> bool {
    call_ensures(crossbeam_channel::unbounded::<T>, (), (tx, rx))
}

/// The error says that a send failed.
pub open spec fn says_send_failed(e: Error) -> bool {
    e matches Error::SendError(text) && text@ == "sending on a disconnected channel"@
}

/// The error says that a receive failed.
pub open spec fn says_receive_failed(e: Error) -> bool {
    e matches Error::RecvError(text) && text@ == "receiving on an empty and disconnected channel"@
}

/// The error says that there is no actor of ID `id`.
pub open spec fn says_no_actor(e: Error, id: Seq<char>) -> bool {
    e matches Error::NoSuchActor(name) && name@ == id
}

/// `msg` was handed over on `tx`: the outcome is whether that succeeded.
pub open spec fn handed<T>(tx: Sender<T>, msg: T, out: Result<(), Error>) -> bool {
    match out {
        Ok(()) => put(tx, msg, true),
        Err(e) => put(tx, msg, false) && says_send_failed(e),
    }
}

/// `msg` was sent on `tx` and, where that succeeded, its answer taken from `rx`: the outcome is
/// that answer, or that there is none.
pub open spec fn asked<C, T>(
    tx: Sender<C>,
    msg: C,
    rx: Receiver<T>,
    out: Result<T, Error>,
) -> bool {
    ||| put(tx, msg, false) && out is Err && says_send_failed(out->Err_0)
    ||| put(tx, msg, true) && out is Ok && took(rx, Ok(out->Ok_0))
    ||| put(tx, msg, true) && out is Err && says_receive_failed(out->Err_0) && exists|e: RecvError|
        #[trigger] took(rx, Err(e))
}

/// The actor of ID `id` was asked to be stopped on `ctl`, and that waited for.
pub open spec fn asked_to_stop<M, F>(
    ctl: Sender<RouterCtl<M, F>>,
    id: Seq<char>,
    out: Result<(), Error>,
) -> bool {
    exists|name: String, resp: Sender<()>, rx: Receiver<()>|
        name@ == id && are_ends(resp, rx) && #[trigger] asked(
            ctl,
            RouterCtl::StopActor { id: name, resp },
            rx,
            out,
        )
}

/// The two sides of a new actor: the task runs `f` under the ID on the receiving ends of the
/// channels of which the seat has the sending ends, and reports to this router.
pub open spec fn are_sides<M, F, H>(
    router: RouterState<M, F, H>,
    id: Seq<char>,
    f: F,
    task: Task<M, F>,
    seat: Seat<M>,
) -> bool {
    &&& task.f == f
    &&& task.id@ == id && task.ctx.id@ == id && seat.id@ == id
    &&& are_ends(seat.req, task.ctx.req)
    &&& are_ends(seat.ctl, task.ctx.ctl)
    &&& task.ctx.router_req == router.req
    &&& task.ctx.router_ctl == router.ctl
    &&& task.ctx.stat == router.stat && task.stat == router.stat
}

/// The result of a send keeps its success, and of its failure the text.
pub proof fn law_delivered<T>(res: Result<(), SendError<T>>, out: Result<(), Error>)
    requires
        call_ensures(delivered::<T>, (res,), out),
    ensures
        out is Ok <==> res is Ok,
        out matches Err(e) ==> says_send_failed(e),
{
}

/// The result of a receive keeps the value received, and of its failure the text.
pub proof fn law_answered<T>(res: Result<T, RecvError>, out: Result<T, Error>)
    requires
        call_ensures(answered::<T>, (res,), out),
    ensures
        res is Ok ==> out == Ok::<T, Error>(res->Ok_0),
        res is Err ==> out is Err && says_receive_failed(out->Err_0),
{
}

/// The error of a failed send tells so.
pub proof fn law_send_error<T>(e: SendError<T>, err: Error)
    requires
        call_ensures(Error::send_error::<T>, (e,), err),
    ensures
        says_send_failed(err),
{
}

/// The error of a failed receive tells so.
pub proof fn law_recv_error(e: RecvError, err: Error)
    requires
        call_ensures(Error::recv_error, (e,), err),
    ensures
        says_receive_failed(err),
{
}

/// An error of a channel reads as its text, and that of a missing actor names the actor.
pub proof fn law_to_string(e: Error, text: String)
    requires
        call_ensures(Error::to_string, (&e,), text),
    ensures
        e matches Error::SendError(told) ==> text@ == told@,
        e matches Error::RecvError(told) ==> text@ == told@,
        e matches Error::NoSuchActor(id) ==> text@ == "no such actor: "@ + id@,
{
}

/// A message that is posted is put once: the world that is left is the one that this left.
pub proof fn law_post_with<W, C, P: Fn(W, C) -> (W, Result<(), SendError<C>>)>(
    msg: C,
    start: W,
    put: P,
    res: (W, Result<(), Error>),
)
    requires
        call_ensures(post_with::<W, C, P>, (msg, start, &put), res),
    ensures
        exists|sent: Result<(), SendError<C>>| #[trigger]
            call_ensures(put, (start, msg), (res.0, sent)) && (res.1 is Ok <==> sent is Ok),
        res.1 matches Err(e) ==> says_send_failed(e),
{
}

/// A question is put once, and only where that succeeds the answer is taken, once, in the world
/// that the putting left; the outcome is that answer.
pub proof fn law_exchange_with<
    W,
    C,
    T,
    P: Fn(W, C) -> (W, Result<(), SendError<C>>),
    G: Fn(W) -> (W, Result<T, RecvError>),
>(msg: C, start: W, put: P, get: G, res: (W, Result<T, Error>)) -> (done: (
    W,
    Result<(), SendError<C>>,
    Result<T, RecvError>,
))
    requires
        call_ensures(exchange_with::<W, C, T, P, G>, (msg, start, &put, &get), res),
    ensures
        call_ensures(put, (start, msg), (done.0, done.1)),
        done.1 is Err ==> res.0 == done.0 && res.1 is Err && says_send_failed(res.1->Err_0),
        done.1 is Ok ==> call_ensures(get, (done.0,), (res.0, done.2)),
        done.1 is Ok && done.2 is Ok ==> res.1 == Ok::<T, Error>(done.2->Ok_0),
        done.1 is Ok && done.2 is Err ==> res.1 is Err && says_receive_failed(res.1->Err_0),
{
    let (then, sent) = choose|then: W, sent: Result<(), Error>| #[trigger]
        crate::channel::posted_with(msg, start, put, then, sent) && match sent {
            Ok(()) => exists|back: Result<T, RecvError>| #[trigger]
                call_ensures(get, (then,), (res.0, back)) && crate::channel::is_answer(back, res.1),
            Err(e) => res.0 == then && res.1 == Err::<T, Error>(e),
        };
    let first = choose|first: Result<(), SendError<C>>| #[trigger]
        call_ensures(put, (start, msg), (then, first)) && crate::channel::is_delivery(first, sent);
    let back = choose|back: Result<T, RecvError>| #[trigger]
        call_ensures(get, (then,), (res.0, back)) && crate::channel::is_answer(back, res.1);
    (then, first, back)
}

/// A request holds the ID and the value that it is made of.
pub proof fn law_request_new<M>(id: &str, val: M, request: RouterRequest<M>)
    requires
        call_ensures(RouterRequest::<M>::new, (id, val), request),
    ensures
        request.id@ == id@,
        request.val == val,
{
}

/// A request to spawn holds what it is made of, and its confirmation is to come to the receiver
/// that is returned with it.
pub proof fn law_ctl_spawn<M, F>(id: &str, f: F, res: (RouterCtl<M, F>, Receiver<()>))
    requires
        call_ensures(RouterCtl::<M, F>::spawn, (id, f), res),
    ensures
        res.0 matches RouterCtl::Spawn { id: name, f: task, resp } && name@ == id@ && task == f
            && are_ends(resp, res.1),
{
}

/// A request for a channel names the actor, and its answer is to come to the receiver that is
/// returned with it.
pub proof fn law_ctl_get<M, F>(
    id: &str,
    res: (RouterCtl<M, F>, Receiver<Result<Sender<M>, Error>>),
)
    requires
        call_ensures(RouterCtl::<M, F>::get, (id,), res),
    ensures
        res.0 matches RouterCtl::Get { id: name, resp } && name@ == id@ && are_ends(resp, res.1),
{
}

/// A question after an actor names it, and its answer is to come to the receiver that is
/// returned with it.
pub proof fn law_ctl_has<M, F>(id: &str, res: (RouterCtl<M, F>, Receiver<bool>))
    requires
        call_ensures(RouterCtl::<M, F>::has, (id,), res),
    ensures
        res.0 matches RouterCtl::Has { id: name, resp } && name@ == id@ && are_ends(resp, res.1),
{
}

/// A request to stop an actor names it, and its confirmation is to come to the receiver that is
/// returned with it.
pub proof fn law_ctl_stop_actor<M, F>(id: &str, res: (RouterCtl<M, F>, Receiver<()>))
    requires
        call_ensures(RouterCtl::<M, F>::stop_actor, (id,), res),
    ensures
        res.0 matches RouterCtl::StopActor { id: name, resp } && name@ == id@ && are_ends(
            resp,
            res.1,
        ),
{
}

/// A request to stop an actor that nobody waits for names the actor.
pub proof fn law_ctl_stop_actor_async<M, F>(id: &str, msg: RouterCtl<M, F>)
    requires
        call_ensures(RouterCtl::<M, F>::stop_actor_async, (id,), msg),
    ensures
        msg matches RouterCtl::StopActorAsync(name) && name@ == id@,
{
}

/// To spawn is to ask for that actor on the control channel of the router: success means that
/// the confirmation of this very request has come.
pub proof fn law_spawn<M, F, J>(router: Router<M, F, J>, id: &str, f: F, out: Result<(), Error>) -> (w:
    (String, Sender<()>, Receiver<()>))
    requires
        call_ensures(Router::<M, F, J>::spawn, (&router, id, f), out),
    ensures
        w.0@ == id@,
        are_ends(w.1, w.2),
        asked(router.ctl, RouterCtl::Spawn { id: w.0, f, resp: w.1 }, w.2, out),
{
    let (msg, rx) = choose|msg: RouterCtl<M, F>, rx: Receiver<()>| #[trigger]
        msg.is_spawn(id@, f, rx) && crate::channel::exchanged(router.ctl, msg, rx, out);
    lemma_asked(router.ctl, msg, rx, out);
    (msg->Spawn_id, msg->Spawn_resp, rx)
}

/// To ask after an actor is to put that question on the control channel of the router: the
/// outcome is the answer that came, as it came.
pub proof fn law_has<M, F, J>(router: Router<M, F, J>, id: &str, out: Result<bool, Error>) -> (w: (
    String,
    Sender<bool>,
    Receiver<bool>,
))
    requires
        call_ensures(Router::<M, F, J>::has, (&router, id), out),
    ensures
        w.0@ == id@,
        are_ends(w.1, w.2),
        asked(router.ctl, RouterCtl::Has { id: w.0, resp: w.1 }, w.2, out),
{
    let (msg, rx) = choose|msg: RouterCtl<M, F>, rx: Receiver<bool>| #[trigger]
        msg.is_has(id@, rx) && crate::channel::exchanged(router.ctl, msg, rx, out);
    lemma_asked(router.ctl, msg, rx, out);
    (msg->Has_id, msg->Has_resp, rx)
}

/// To get the channel of an actor is to ask for it on the control channel of the router: the
/// outcome is the answer that came, as it came.
pub proof fn law_get<M, F, J>(router: Router<M, F, J>, id: &str, out: Result<Sender<M>, Error>) -> (w:
    (
    String,
    Sender<Result<Sender<M>, Error>>,
    Receiver<Result<Sender<M>, Error>>,
    Result<Result<Sender<M>, Error>, Error>,
))
    requires
        call_ensures(Router::<M, F, J>::get, (&router, id), out),
    ensures
        w.0@ == id@,
        are_ends(w.1, w.2),
        asked(router.ctl, RouterCtl::Get { id: w.0, resp: w.1 }, w.2, w.3),
        w.3 is Ok ==> out == w.3->Ok_0,
        w.3 is Err ==> out == Err::<Sender<M>, Error>(w.3->Err_0),
{
    lemma_get(router.ctl, id@, out)
}

/// To send a message to an actor is to ask for the actor, and where there is one, to put a
/// request with just this ID and value on the request channel of the router. Success means
/// that the request was put there with success, and that the actor had been found.
pub proof fn law_send<M, F, J>(
    router: Router<M, F, J>,
    id: &str,
    msg: M,
    out: Result<(), Error>,
) -> (w: (
    String,
    Sender<Result<Sender<M>, Error>>,
    Receiver<Result<Sender<M>, Error>>,
    Result<Result<Sender<M>, Error>, Error>,
    RouterRequest<M>,
))
    requires
        call_ensures(Router::<M, F, J>::send, (&router, id, msg), out),
    ensures
        w.0@ == id@,
        are_ends(w.1, w.2),
        asked(router.ctl, RouterCtl::Get { id: w.0, resp: w.1 }, w.2, w.3),
        w.4.id@ == id@,
        w.4.val == msg,
        w.3 is Ok && w.3->Ok_0 is Ok ==> handed(router.req, w.4, out),
        w.3 is Ok && w.3->Ok_0 is Err ==> out == Err::<(), Error>(w.3->Ok_0->Err_0),
        w.3 is Err ==> out == Err::<(), Error>(w.3->Err_0),
        out is Ok ==> put(router.req, w.4, true),
{
    let found = choose|found: Result<Sender<M>, Error>| #[trigger]
        crate::client::asked_to_get(router.ctl, id@, found) && crate::client::routes(
            router.req,
            id@,
            msg,
            found,
            out,
        );
    let (name, resp, rx, reply) = lemma_get(router.ctl, id@, found);
    let request = if found is Ok {
        let request = choose|request: RouterRequest<M>| #[trigger]
            request.is_for(id@, msg) && crate::channel::posted(router.req, request, out);
        lemma_handed(router.req, request, out);
        request
    } else {
        RouterRequest { id: name, val: msg }
    };
    (name, resp, rx, reply, request)
}

/// To stop an actor is to ask for that on the control channel of the router: success means that
/// the confirmation of this very request has come.
pub proof fn law_stop<M, F, J>(router: Router<M, F, J>, id: &str, out: Result<(), Error>) -> (w: (
    String,
    Sender<()>,
    Receiver<()>,
))
    requires
        call_ensures(Router::<M, F, J>::stop, (&router, id), out),
    ensures
        w.0@ == id@,
        are_ends(w.1, w.2),
        asked(router.ctl, RouterCtl::StopActor { id: w.0, resp: w.1 }, w.2, out),
{
    lemma_stop(router.ctl, id@, out)
}

/// To stop an actor without waiting is to hand the router that request.
pub proof fn law_stop_async<M, F, J>(router: Router<M, F, J>, id: &str, out: Result<(), Error>) -> (name:
    String)
    requires
        call_ensures(Router::<M, F, J>::stop_async, (&router, id), out),
    ensures
        name@ == id@,
        handed(router.ctl, RouterCtl::StopActorAsync(name), out),
{
    let msg = choose|msg: RouterCtl<M, F>| #[trigger]
        msg.is_stop_actor_async(id@) && crate::channel::posted(router.ctl, msg, out);
    lemma_handed(router.ctl, msg, out);
    msg->StopActorAsync_0
}

/// To stop a list of actors is to stop its actors in order: all of them, where that succeeds, and
/// else all before the first that failed, with success, and that one, whose error is the outcome.
/// `outs` is what the stops came to.
pub proof fn law_stop_list<M, F, J>(
    router: Router<M, F, J>,
    ids: Vec<String>,
    out: Result<(), Error>,
) -> (outs: Seq<Result<(), Error>>)
    requires
        call_ensures(Router::<M, F, J>::stop_list, (&router, ids), out),
    ensures
        outs.len() <= ids@.len(),
        out is Ok ==> outs.len() == ids@.len(),
        out is Ok ==> forall|i: int| 0 <= i < outs.len() ==> #[trigger] outs[i] is Ok,
        out is Err ==> outs.len() > 0 && outs.last() == out,
        out is Err ==> forall|i: int| 0 <= i < outs.len() - 1 ==> #[trigger] outs[i] is Ok,
        forall|i: int|
            0 <= i < outs.len() ==> asked_to_stop(router.ctl, ids@[i]@, #[trigger] outs[i]),
{
    let n = if out is Ok {
        ids@.len() as int
    } else {
        choose|n: int|
            {
                &&& 0 <= n < ids@.len()
                &&& crate::client::asked_to_stop(
                    router.ctl,
                    #[trigger] ids@[n]@,
                    Err::<(), Error>(out->Err_0),
                )
                &&& forall|i: int|
                    0 <= i < n ==> crate::client::asked_to_stop(
                        router.ctl,
                        #[trigger] ids@[i]@,
                        Ok(()),
                    )
            }
    };
    let done = Seq::new(n as nat, |i: int| Ok::<(), Error>(()));
    let outs = if out is Ok {
        done
    } else {
        done.push(out)
    };
    assert forall|i: int| 0 <= i < outs.len() implies asked_to_stop(
        router.ctl,
        ids@[i]@,
        #[trigger] outs[i],
    ) by {
        if i < n {
            assert(outs[i] == done[i]);
            if out is Ok {
                assert(crate::router::stops_all(router.ctl, ids@));
                assert(crate::client::asked_to_stop(router.ctl, ids@[i]@, Ok(())));
            } else {
                assert(crate::client::asked_to_stop(router.ctl, ids@[i]@, Ok(())));
            }
            assert(outs[i] == Ok::<(), Error>(()));
        } else {
            assert(outs[i] == Err::<(), Error>(out->Err_0));
        }
        assert(crate::client::asked_to_stop(router.ctl, ids@[i]@, outs[i]));
        let (name, resp, rx) = lemma_stop(router.ctl, ids@[i]@, outs[i]);
        assert(asked(router.ctl, RouterCtl::StopActor { id: name, resp }, rx, outs[i]));
    }
    outs
}

/// To shut a router down is to hand it that message; where that succeeds, the handle of its
/// thread is returned.
pub proof fn law_shutdown<M, F, J>(router: Router<M, F, J>, out: Result<J, Error>)
    requires
        call_ensures(Router::<M, F, J>::shutdown, (router,), out),
    ensures
        out is Ok ==> put(router.ctl, RouterCtl::Shutdown, true) && out->Ok_0 == router.handle,
        out is Err ==> put(router.ctl, RouterCtl::Shutdown, false) && says_send_failed(out->Err_0),
{
    let done = choose|done: Result<(), Error>| #[trigger]
        crate::channel::posted(router.ctl, RouterCtl::Shutdown, done) && match done {
            Ok(()) => out == Ok::<J, Error>(router.handle),
            Err(e) => out == Err::<J, Error>(e),
        };
    lemma_handed(router.ctl, RouterCtl::Shutdown, done);
}

/// An actor asks its router for another actor as the handle of the router does.
pub proof fn law_context_spawn<M, F>(
    ctx: ActorContext<M, F>,
    id: &str,
    f: F,
    out: Result<(), Error>,
) -> (w: (String, Sender<()>, Receiver<()>))
    requires
        call_ensures(ActorContext::<M, F>::spawn, (&ctx, id, f), out),
    ensures
        w.0@ == id@,
        are_ends(w.1, w.2),
        asked(ctx.router_ctl, RouterCtl::Spawn { id: w.0, f, resp: w.1 }, w.2, out),
{
    let (msg, rx) = choose|msg: RouterCtl<M, F>, rx: Receiver<()>| #[trigger]
        msg.is_spawn(id@, f, rx) && crate::channel::exchanged(ctx.router_ctl, msg, rx, out);
    lemma_asked(ctx.router_ctl, msg, rx, out);
    (msg->Spawn_id, msg->Spawn_resp, rx)
}

/// An actor asks its router after another actor as the handle of the router does.
pub proof fn law_context_has<M, F>(
    ctx: ActorContext<M, F>,
    id: &str,
    out: Result<bool, Error>,
) -> (w: (String, Sender<bool>, Receiver<bool>))
    requires
        call_ensures(ActorContext::<M, F>::has, (&ctx, id), out),
    ensures
        w.0@ == id@,
        are_ends(w.1, w.2),
        asked(ctx.router_ctl, RouterCtl::Has { id: w.0, resp: w.1 }, w.2, out),
{
    let (msg, rx) = choose|msg: RouterCtl<M, F>, rx: Receiver<bool>| #[trigger]
        msg.is_has(id@, rx) && crate::channel::exchanged(ctx.router_ctl, msg, rx, out);
    lemma_asked(ctx.router_ctl, msg, rx, out);
    (msg->Has_id, msg->Has_resp, rx)
}

/// An actor gets the channel of another from its router as the handle of the router does.
pub proof fn law_context_get<M, F>(
    ctx: ActorContext<M, F>,
    id: &str,
    out: Result<Sender<M>, Error>,
) -> (w: (
    String,
    Sender<Result<Sender<M>, Error>>,
    Receiver<Result<Sender<M>, Error>>,
    Result<Result<Sender<M>, Error>, Error>,
))
    requires
        call_ensures(ActorContext::<M, F>::get, (&ctx, id), out),
    ensures
        w.0@ == id@,
        are_ends(w.1, w.2),
        asked(ctx.router_ctl, RouterCtl::Get { id: w.0, resp: w.1 }, w.2, w.3),
        w.3 is Ok ==> out == w.3->Ok_0,
        w.3 is Err ==> out == Err::<Sender<M>, Error>(w.3->Err_0),
{
    lemma_get(ctx.router_ctl, id@, out)
}

/// An actor hands its router a message for another actor: a request with just this ID and value.
pub proof fn law_context_send<M, F>(
    ctx: ActorContext<M, F>,
    id: &str,
    msg: M,
    out: Result<(), Error>,
) -> (request: RouterRequest<M>)
    requires
        call_ensures(ActorContext::<M, F>::send, (&ctx, id, msg), out),
    ensures
        request.id@ == id@,
        request.val == msg,
        handed(ctx.router_req, request, out),
{
    let request = choose|request: RouterRequest<M>| #[trigger]
        request.is_for(id@, msg) && crate::channel::posted(ctx.router_req, request, out);
    lemma_handed(ctx.router_req, request, out);
    request
}

/// An actor stops another as the handle of the router does.
pub proof fn law_context_stop<M, F>(
    ctx: ActorContext<M, F>,
    id: &str,
    out: Result<(), Error>,
) -> (w: (String, Sender<()>, Receiver<()>))
    requires
        call_ensures(ActorContext::<M, F>::stop, (&ctx, id), out),
    ensures
        w.0@ == id@,
        are_ends(w.1, w.2),
        asked(ctx.router_ctl, RouterCtl::StopActor { id: w.0, resp: w.1 }, w.2, out),
{
    lemma_stop(ctx.router_ctl, id@, out)
}

/// An actor stops another without waiting as the handle of the router does.
pub proof fn law_context_stop_async<M, F>(
    ctx: ActorContext<M, F>,
    id: &str,
    out: Result<(), Error>,
) -> (name: String)
    requires
        call_ensures(ActorContext::<M, F>::stop_async, (&ctx, id), out),
    ensures
        name@ == id@,
        handed(ctx.router_ctl, RouterCtl::StopActorAsync(name), out),
{
    let msg = choose|msg: RouterCtl<M, F>| #[trigger]
        msg.is_stop_actor_async(id@) && crate::channel::posted(ctx.router_ctl, msg, out);
    lemma_handed(ctx.router_ctl, msg, out);
    msg->StopActorAsync_0
}

/// An actor reports its own stop, under its own ID, on its status channel.
pub proof fn law_report_stopped<M, F>(ctx: ActorContext<M, F>, out: Result<(), Error>)
    requires
        call_ensures(ActorContext::<M, F>::report_stopped, (&ctx,), out),
    ensures
        handed(ctx.stat, ActorStatus::Stopped(ctx.id), out),
{
    lemma_handed(ctx.stat, ActorStatus::Stopped(ctx.id), out);
}

/// A context holds what it is made of, each in its place.
pub proof fn law_context_new<M, F>(
    id: String,
    req: Receiver<M>,
    ctl: Receiver<crate::message::ActorCtl>,
    router_req: Sender<RouterRequest<M>>,
    router_ctl: Sender<RouterCtl<M, F>>,
    stat: Sender<ActorStatus>,
    ctx: ActorContext<M, F>,
)
    requires
        call_ensures(
            ActorContext::<M, F>::new,
            (id, req, ctl, router_req, router_ctl, stat),
            ctx,
        ),
    ensures
        ctx.id == id,
        ctx.req == req,
        ctx.ctl == ctl,
        ctx.router_req == router_req,
        ctx.router_ctl == router_ctl,
        ctx.stat == stat,
{
}

/// There is something to tell of an actor that came to an end if and only if it paniced, and
/// then just that, under its ID.
pub proof fn law_notice(id: String, ended: bool, status: Option<ActorStatus>)
    requires
        call_ensures(notice, (id, ended), status),
    ensures
        status is None <==> ended,
        status matches Some(told) ==> told == ActorStatus::Paniced(id),
{
}

/// A notice is put, as it is, on the channel that it is for.
pub proof fn law_notice_post(told: Notice, out: Result<(), Error>)
    requires
        call_ensures(Notice::post, (told,), out),
    ensures
        handed(told.stat, told.status, out),
{
    lemma_handed(told.stat, told.status, out);
}

/// A task runs the function of the actor on its own context, once, and leaves a notice if and
/// only if that did not come to an end: that the actor of this ID paniced, for its router.
pub proof fn law_task_run<M, F, G: FnOnce(F, ActorContext<M, F>) -> bool>(
    task: Task<M, F>,
    guarded: G,
    told: Option<Notice>,
)
    requires
        call_ensures(Task::<M, F>::run::<G>, (task, guarded), told),
    ensures
        call_ensures(guarded, (task.f, task.ctx), told is None),
        told matches Some(told) ==> told.stat == task.stat && told.status == ActorStatus::Paniced(
            task.id,
        ),
{
}

/// A message for an actor that was found is put on the line to the router; for one that was not,
/// the error with which it was not found is the outcome.
pub proof fn law_route<M>(
    req: Sender<RouterRequest<M>>,
    id: &str,
    val: M,
    found: Result<Sender<M>, Error>,
    out: Result<(), Error>,
)
    requires
        call_ensures(route::<M, &Sender<RouterRequest<M>>>, (&req, id, val, found), out),
    ensures
        found matches Err(e) ==> out == Err::<(), Error>(e),
        found is Ok ==> exists|request: RouterRequest<M>|
            request.id@ == id@ && request.val == val && #[trigger] handed(req, request, out),
{
    if found is Ok {
        let request = choose|request: RouterRequest<M>| #[trigger]
            request.is_for(id@, val) && crate::channel::posted(req, request, out);
        lemma_handed(req, request, out);
        assert(handed(req, request, out));
    }
}

/// A message for an actor that was found is put once, and one for an actor that was not is not
/// put at all.
pub proof fn law_route_with<
    W,
    M,
    P: Fn(W, RouterRequest<M>) -> (W, Result<(), SendError<RouterRequest<M>>>),
>(
    id: &str,
    val: M,
    found: Result<Sender<M>, Error>,
    start: W,
    put: P,
    res: (W, Result<(), Error>),
) -> (done: (RouterRequest<M>, Result<(), SendError<RouterRequest<M>>>))
    requires
        call_ensures(route_with::<W, M, P>, (id, val, found, start, &put), res),
    ensures
        found is Err ==> res.0 == start && res.1 == Err::<(), Error>(found->Err_0),
        found is Ok ==> {
            &&& done.0.id@ == id@
            &&& done.0.val == val
            &&& call_ensures(put, (start, done.0), (res.0, done.1))
            &&& res.1 is Ok <==> done.1 is Ok
            &&& res.1 matches Err(e) ==> says_send_failed(e)
        },
{
    let msg = choose|msg: RouterRequest<M>| #[trigger]
        msg.is_for(id@, val) && crate::channel::posted_with(msg, start, put, res.0, res.1);
    let sent = choose|sent: Result<(), SendError<RouterRequest<M>>>| #[trigger]
        call_ensures(put, (start, msg), (res.0, sent)) && crate::channel::is_delivery(sent, res.1);
    (msg, sent)
}

/// Actors are stopped in the order of the list, each once and in the world that the one before it
/// left, up to the first failure, which is the outcome. `worlds` and `outs` are what the stops
/// left and came to.
pub proof fn law_stop_in_turn<W, S: Fn(W, &String) -> (W, Result<(), Error>)>(
    ids: Vec<String>,
    start: W,
    stop: S,
    res: (W, Result<(), Error>),
) -> (done: (Seq<W>, Seq<Result<(), Error>>))
    requires
        call_ensures(stop_in_turn::<W, S>, (&ids, start, &stop), res),
    ensures
        done.0.len() == done.1.len() + 1,
        done.0[0] == start,
        done.0.last() == res.0,
        done.1.len() <= ids@.len(),
        forall|i: int|
            0 <= i < done.1.len() ==> call_ensures(
                stop,
                (done.0[i], &ids@[i]),
                (done.0[i + 1], #[trigger] done.1[i]),
            ),
        res.1 is Ok ==> done.1.len() == ids@.len() && forall|i: int|
            0 <= i < done.1.len() ==> #[trigger] done.1[i] is Ok,
        res.1 is Err ==> done.1.len() > 0 && done.1.last() == res.1 && forall|i: int|
            0 <= i < done.1.len() - 1 ==> #[trigger] done.1[i] is Ok,
{
    if res.1 is Ok {
        lemma_turns(ids@, ids@.len() as int, start, stop, res.0)
    } else {
        let (n, before) = choose|n: int, before: W|
            #![trigger crate::router::stopped_in_turn(ids@, n, start, stop, before)]
            {
                &&& 0 <= n < ids@.len()
                &&& crate::router::stopped_in_turn(ids@, n, start, stop, before)
                &&& call_ensures(stop, (before, &ids@[n]), (res.0, Err(res.1->Err_0)))
            };
        let (worlds, outs) = lemma_turns(ids@, n, start, stop, before);
        let done = (worlds.push(res.0), outs.push(res.1));
        assert forall|i: int| 0 <= i < done.1.len() implies call_ensures(
            stop,
            (done.0[i], &ids@[i]),
            (done.0[i + 1], #[trigger] done.1[i]),
        ) by {
            if i < n {
                assert(done.1[i] == outs[i]);
            }
        }
        assert forall|i: int| 0 <= i < done.1.len() - 1 implies #[trigger] done.1[i] is Ok by {
            assert(done.1[i] == outs[i]);
        }
        done
    }
}

/// The worlds and outcomes of stops that all succeeded.
proof fn lemma_turns<W, S: Fn(W, &String) -> (W, Result<(), Error>)>(
    ids: Seq<String>,
    n: int,
    start: W,
    stop: S,
    end: W,
) -> (done: (Seq<W>, Seq<Result<(), Error>>))
    requires
        0 <= n <= ids.len(),
        crate::router::stopped_in_turn(ids, n, start, stop, end),
    ensures
        done.0.len() == n + 1,
        done.1.len() == n,
        done.0[0] == start,
        done.0.last() == end,
        forall|i: int|
            0 <= i < n ==> call_ensures(
                stop,
                (done.0[i], &ids[i]),
                (done.0[i + 1], #[trigger] done.1[i]),
            ),
        forall|i: int| 0 <= i < n ==> #[trigger] done.1[i] is Ok,
    decreases n,
{
    if n == 0 {
        (seq![start], Seq::empty())
    } else {
        let (before, out) = choose|before: W, out: Result<(), Error>|
            crate::router::stopped_in_turn(ids, n - 1, start, stop, before)
                && #[trigger] call_ensures(stop, (before, &ids[n - 1]), (end, out)) && out is Ok;
        let (worlds, outs) = lemma_turns(ids, n - 1, start, stop, before);
        let done = (worlds.push(end), outs.push(out));
        assert forall|i: int| 0 <= i < n implies call_ensures(
            stop,
            (done.0[i], &ids[i]),
            (done.0[i + 1], #[trigger] done.1[i]),
        ) by {
            if i < n - 1 {
                assert(done.1[i] == outs[i]);
            }
        }
        assert forall|i: int| 0 <= i < n implies #[trigger] done.1[i] is Ok by {
            if i < n - 1 {
                assert(done.1[i] == outs[i]);
            }
        }
        done
    }
}

/// A new registry holds no actor.
pub proof fn law_registry_new<M, H>(registry: Registry<M, H>)
    requires
        call_ensures(Registry::<M, H>::new, (), registry),
    ensures
        forall|id: Seq<char>| !(#[trigger] registry@.contains_key(id)),
{
}

/// A registry holds an actor under an ID if and only if it gives one for it, and gives just that.
pub proof fn law_registry_get<M, H>(
    registry: Registry<M, H>,
    id: String,
    found: bool,
    actor: Option<&Actor<M, H>>,
)
    requires
        call_ensures(Registry::<M, H>::contains, (&registry, &id), found),
        call_ensures(Registry::<M, H>::get, (&registry, &id), actor),
    ensures
        found == registry@.contains_key(id@),
        actor is Some <==> found,
        actor matches Some(actor) ==> *actor == registry@[id@],
{
}

/// An actor that is put in is held under its ID; what is held under any other ID is the same.
pub proof fn law_registry_insert<M, H>(
    registry: &mut Registry<M, H>,
    actor: Actor<M, H>,
    other: Seq<char>,
)
    requires
        call_ensures(Registry::<M, H>::insert, (registry, actor), ()),
        other != actor.id@,
    ensures
        final(registry)@.contains_key(actor.id@),
        final(registry)@[actor.id@] == actor,
        final(registry)@.contains_key(other) <==> old(registry)@.contains_key(other),
        old(registry)@.contains_key(other) ==> final(registry)@[other] == old(registry)@[other],
{
}

/// What is taken out under an ID is what was held there, and is held no more; what is held under
/// any other ID is the same.
pub proof fn law_registry_remove<M, H>(
    registry: &mut Registry<M, H>,
    id: String,
    removed: Option<Actor<M, H>>,
    other: Seq<char>,
)
    requires
        call_ensures(Registry::<M, H>::remove, (registry, &id), removed),
        other != id@,
    ensures
        removed is Some <==> old(registry)@.contains_key(id@),
        removed matches Some(actor) ==> actor == old(registry)@[id@],
        !final(registry)@.contains_key(id@),
        final(registry)@.contains_key(other) <==> old(registry)@.contains_key(other),
        old(registry)@.contains_key(other) ==> final(registry)@[other] == old(registry)@[other],
{
}

/// Some actor is taken out as long as there is one, and only that one.
pub proof fn law_registry_take_any<M, H>(
    registry: &mut Registry<M, H>,
    taken: Option<Actor<M, H>>,
    other: Seq<char>,
)
    requires
        call_ensures(Registry::<M, H>::take_any, (registry,), taken),
        taken matches Some(actor) ==> other != actor.id@,
    ensures
        taken is None ==> !old(registry)@.contains_key(other),
        taken matches Some(actor) ==> {
            &&& old(registry)@.contains_key(actor.id@)
            &&& old(registry)@[actor.id@] == actor
            &&& !final(registry)@.contains_key(actor.id@)
        },
        final(registry)@.contains_key(other) <==> old(registry)@.contains_key(other),
        old(registry)@.contains_key(other) ==> final(registry)@[other] == old(registry)@[other],
{
}

/// What an exchange comes to on the channels.
proof fn lemma_asked<C, T>(tx: Sender<C>, msg: C, rx: Receiver<T>, out: Result<T, Error>)
    requires
        crate::channel::exchanged(tx, msg, rx, out),
    ensures
        asked(tx, msg, rx, out),
{
    let done = choose|done: Result<(), Error>| #[trigger]
        crate::channel::posted(tx, msg, done) && match done {
            Ok(()) => crate::channel::awaited(rx, out),
            Err(e) => out == Err::<T, Error>(e),
        };
    lemma_handed(tx, msg, done);
    if done is Ok {
        let res = choose|res: Result<T, RecvError>| #[trigger]
            crate::channel::received(rx, res) && crate::channel::is_answer(res, out);
        match res {
            Ok(v) => {
                assert(took(rx, Ok(v)));
            },
            Err(e) => {
                assert(took(rx, Err(e)));
            },
        }
    }
}

/// What posting comes to on the channel.
proof fn lemma_handed<T>(tx: Sender<T>, msg: T, out: Result<(), Error>)
    requires
        crate::channel::posted(tx, msg, out),
    ensures
        handed(tx, msg, out),
{
    let res = choose|res: Result<(), SendError<T>>| #[trigger]
        crate::channel::sent(tx, msg, res) && crate::channel::is_delivery(res, out);
    assert(call_ensures(Sender::<T>::send, (&tx, msg), res));
}

/// What asking for a channel comes to on the channels.
proof fn lemma_get<M, F>(
    ctl: Sender<RouterCtl<M, F>>,
    id: Seq<char>,
    out: Result<Sender<M>, Error>,
) -> (w: (
    String,
    Sender<Result<Sender<M>, Error>>,
    Receiver<Result<Sender<M>, Error>>,
    Result<Result<Sender<M>, Error>, Error>,
))
    requires
        crate::client::asked_to_get(ctl, id, out),
    ensures
        w.0@ == id,
        are_ends(w.1, w.2),
        asked(ctl, RouterCtl::Get { id: w.0, resp: w.1 }, w.2, w.3),
        w.3 is Ok ==> out == w.3->Ok_0,
        w.3 is Err ==> out == Err::<Sender<M>, Error>(w.3->Err_0),
{
    let (msg, rx, reply) = choose|
        msg: RouterCtl<M, F>,
        rx: Receiver<Result<Sender<M>, Error>>,
        reply: Result<Result<Sender<M>, Error>, Error>,
    |
        #![trigger msg.is_get(id, rx), crate::channel::exchanged(ctl, msg, rx, reply)]
        msg.is_get(id, rx) && crate::channel::exchanged(ctl, msg, rx, reply) && match reply {
            Ok(answer) => out == answer,
            Err(e) => out == Err::<Sender<M>, Error>(e),
        };
    lemma_asked(ctl, msg, rx, reply);
    (msg->Get_id, msg->Get_resp, rx, reply)
}

/// What asking for a stop comes to on the channels.
proof fn lemma_stop<M, F>(ctl: Sender<RouterCtl<M, F>>, id: Seq<char>, out: Result<(), Error>) -> (w:
    (String, Sender<()>, Receiver<()>))
    requires
        crate::client::asked_to_stop(ctl, id, out),
    ensures
        w.0@ == id,
        are_ends(w.1, w.2),
        asked(ctl, RouterCtl::StopActor { id: w.0, resp: w.1 }, w.2, out),
{
    let (msg, rx) = choose|msg: RouterCtl<M, F>, rx: Receiver<()>| #[trigger]
        msg.is_stop_actor(id, rx) && crate::channel::exchanged(ctl, msg, rx, out);
    lemma_asked(ctl, msg, rx, out);
    (msg->StopActor_id, msg->StopActor_resp, rx)
}

} // verus!
