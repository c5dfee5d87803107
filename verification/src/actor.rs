//! Actors, and what an actor function is given to work with.
use crossbeam_channel::{Receiver, Sender};
use vstd::prelude::*;

use crate::channel::{post, posted};
use crate::client;
use crate::error::Error;
use crate::message::{ActorCtl, ActorStatus, RouterCtl, RouterRequest};

verus! {

/// A handle to an actor.
///
/// When the router constructs an actor it encapsulates that actor's communication
/// channels and its thread handle, of type `H`, into an `Actor`. The router maps the ID
/// of the actor to its `Actor` in its registry.
#[verifier::reject_recursive_types(M)]
pub struct Actor<M, H> {
    pub id: String,
    pub req: Sender<M>,
    pub ctl: Sender<ActorCtl>,
    pub handle: H,
}

/// A handle to communication channels provided to an actor function.
///
/// Actor functions spawned through the router are passed an `ActorContext` that provides
/// the `Receiver`s over which the actor receives messages and control messages from the
/// router and `Sender`s the actor can use to communicate back with the router.
#[verifier::reject_recursive_types(M)]
#[verifier::reject_recursive_types(F)]
pub struct ActorContext<M, F> {
    pub id: String,
    pub req: Receiver<M>,
    pub ctl: Receiver<ActorCtl>,
    pub router_req: Sender<RouterRequest<M>>,
    pub router_ctl: Sender<RouterCtl<M, F>>,
    pub stat: Sender<ActorStatus>,
}

impl<M, F> ActorContext<M, F> {
    /// Construct an `ActorContext`. This is typically used only by the router.
    pub fn new(
        id: String,
        req: Receiver<M>,
        ctl: Receiver<ActorCtl>,
        router_req: Sender<RouterRequest<M>>,
        router_ctl: Sender<RouterCtl<M, F>>,
        stat: Sender<ActorStatus>,
    ) -> (ctx: Self)
        ensures
            ctx == (ActorContext { id, req, ctl, router_req, router_ctl, stat }),
    {
        ActorContext { id, req, ctl, router_req, router_ctl, stat }
    }

    /// Spawn a new actor.
    pub fn spawn(&self, id: &str, f: F) -> (out: Result<(), Error>)
        ensures
            client::asked_to_spawn(self.router_ctl, id@, f, out),
    {
        client::spawn(&self.router_ctl, id, f)
    }

    /// Determine whether the router has a route to another actor, at the time of
    /// inspection.
    pub fn has(&self, id: &str) -> (out: Result<bool, Error>)
        ensures
            client::asked_whether_has(self.router_ctl, id@, out),
    {
        client::has(&self.router_ctl, id)
    }

    /// Retrieve a copy of another actor's request channel `Sender`.
    pub fn get(&self, id: &str) -> (out: Result<Sender<M>, Error>)
        ensures
            client::asked_to_get(self.router_ctl, id@, out),
    {
        client::get(&self.router_ctl, id)
    }

    /// Send a message to another actor.
    ///
    /// Hands the message to the router and does not wait for it. Where the router does not have
    /// that actor, it only takes note of that; `get` and `has` tell beforehand.
    pub fn send(&self, id: &str, msg: M) -> (out: Result<(), Error>)
        ensures
            exists|request: RouterRequest<M>| #[trigger]
                request.is_for(id@, msg) && posted(self.router_req, request, out),
    {
        post(&self.router_req, RouterRequest::new(id, msg))
    }

    /// Stop another actor.
    ///
    /// Warning: if attempting to stop another actor while in the process of being stopped,
    /// the router will be blocked awaiting a response. The router will not receive the stop
    /// request until after you have completed stopping and a deadlock will occur.
    pub fn stop(&self, id: &str) -> (out: Result<(), Error>)
        ensures
            client::asked_to_stop(self.router_ctl, id@, out),
    {
        client::stop(&self.router_ctl, id)
    }

    /// Stop another actor without waiting for it to stop.
    ///
    /// This should be used when stopping an actor from within an actor that is currently in
    /// the process of being stopped.
    pub fn stop_async(&self, id: &str) -> (out: Result<(), Error>)
        ensures
            client::asked_to_stop_async(self.router_ctl, id@, out),
    {
        client::stop_async(&self.router_ctl, id)
    }

    /// Inform the router that we are stopping.
    pub fn report_stopped(&self) -> (out: Result<(), Error>)
        ensures
            posted(self.stat, ActorStatus::Stopped(self.id), out),
    {
        post(&self.stat, ActorStatus::Stopped(self.id.clone()))
    }
}

/// What the router is to be told of an actor whose function came to an end: nothing, unless it
/// paniced.
pub fn notice(id: String, ended: bool) -> (status: Option<ActorStatus>)
    ensures
        ended ==> status is None,
        !ended ==> status == Some(ActorStatus::Paniced(id)),
{
    if ended {
        None
    } else {
        Some(ActorStatus::Paniced(id))
    }
}

/// A status message that is to be sent to a router.
pub struct Notice {
    pub stat: Sender<ActorStatus>,
    pub status: ActorStatus,
}

impl Notice {
    /// Sends the message.
    pub fn post(self) -> (out: Result<(), Error>)
        ensures
            posted(self.stat, self.status, out),
    {
        post(&self.stat, self.status)
    }
}

/// What the thread of a new actor has to do: run the function `f` on its context, and
/// tell the router should it panic.
#[verifier::reject_recursive_types(M)]
#[verifier::reject_recursive_types(F)]
pub struct Task<M, F> {
    pub id: String,
    pub f: F,
    pub ctx: ActorContext<M, F>,
    pub stat: Sender<ActorStatus>,
}

impl<M, F> Task<M, F> {
    /// Does the task on the current thread, and returns what the router is to be told then.
    ///
    /// `guarded` runs the function on the context, catches its panic, and says whether it
    /// came to an end without one. Only where it did not is there something to tell: that
    /// the actor paniced.
    pub fn run<G: FnOnce(F, ActorContext<M, F>) -> bool>(self, guarded: G) -> (told: Option<Notice>)
        requires
            call_requires(guarded, (self.f, self.ctx)),
        ensures
            exists|ended: bool| #[trigger]
                call_ensures(guarded, (self.f, self.ctx), ended) && told == (if ended {
                    None::<Notice>
                } else {
                    Some(Notice { stat: self.stat, status: ActorStatus::Paniced(self.id) })
                }),
    {
        let Task { id, f, ctx, stat } = self;
        let ended = guarded(f, ctx);
        match notice(id, ended) {
            Some(status) => Some(Notice { stat, status }),
            None => None,
        }
    }
}

} // verus!
