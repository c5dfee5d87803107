//! The messages that routers, actors and their users exchange.
use crossbeam_channel::{Receiver, Sender};
use vstd::prelude::*;

use crate::channel::{is_channel, open_channel};
use crate::error::Error;

verus! {

/// A request to route a message to an actor.
///
/// The request consists of the ID of an actor previously spawned through the router and
/// an arbitrary value, of type `M`, to be sent to the actor.
pub struct RouterRequest<M> {
    pub id: String,
    pub val: M,
}

impl<M> RouterRequest<M> {
    /// A request to send `val` to the actor of ID `id`.
    pub open spec fn is_for(self, id: Seq<char>, val: M) -> bool {
        self.id@ == id && self.val == val
    }

    /// Construct a `RouterRequest`.
    pub fn new(id: &str, val: M) -> (request: Self)
        ensures
            request.is_for(id@, val),
    {
        RouterRequest { id: id.to_owned(), val }
    }
}

/// A control message for the router.
///
/// These messages are processed directly by the router itself and control aspects of its
/// operation. Notably, the router is responsible for creating actors and their threads
/// and must receive a `RouterCtl::Spawn` request to do so. `M` is the type of the messages
/// that actors take, `F` that of the functions which actors run.
#[verifier::reject_recursive_types(M)]
#[verifier::reject_recursive_types(F)]
#[allow(inconsistent_fields)]
pub enum RouterCtl<M, F> {
    /// Create a new actor managed by the router.
    Spawn { id: String, f: F, resp: Sender<()> },
    /// Retrieve the request channel for an actor from the router.
    Get { id: String, resp: Sender<Result<Sender<M>, Error>> },
    /// Determine whether or not the router has an actor.
    Has { id: String, resp: Sender<bool> },
    /// Stop an actor.
    StopActor { id: String, resp: Sender<()> },
    /// Stop an actor without waiting for it to stop.
    StopActorAsync(String),
    /// Stop all actors and then stop the router.
    Shutdown,
}

impl<M, F> RouterCtl<M, F> {
    /// A request to spawn an actor of ID `id` that runs `f`, to be confirmed to `rx`.
    pub open spec fn is_spawn(self, id: Seq<char>, f: F, rx: Receiver<()>) -> bool {
        self matches RouterCtl::Spawn { id: name, f: task, resp } && name@ == id && task == f
            && is_channel(resp, rx)
    }

    /// A request for the channel of the actor of ID `id`, to be answered to `rx`.
    pub open spec fn is_get(
        self,
        id: Seq<char>,
        rx: Receiver<Result<Sender<M>, Error>>,
    ) -> bool {
        self matches RouterCtl::Get { id: name, resp } && name@ == id && is_channel(resp, rx)
    }

    /// A question after the actor of ID `id`, to be answered to `rx`.
    pub open spec fn is_has(self, id: Seq<char>, rx: Receiver<bool>) -> bool {
        self matches RouterCtl::Has { id: name, resp } && name@ == id && is_channel(resp, rx)
    }

    /// A request to stop the actor of ID `id`, to be confirmed to `rx`.
    pub open spec fn is_stop_actor(self, id: Seq<char>, rx: Receiver<()>) -> bool {
        self matches RouterCtl::StopActor { id: name, resp } && name@ == id && is_channel(resp, rx)
    }

    /// A request to stop the actor of ID `id` that nobody waits for.
    pub open spec fn is_stop_actor_async(self, id: Seq<char>) -> bool {
        self matches RouterCtl::StopActorAsync(name) && name@ == id
    }

    /// Construct a `RouterCtl::Spawn` request.
    ///
    /// Returns the request object as well as a `Receiver` over which the router will send
    /// confirmation back to the requestor that the actor has been spawned.
    pub fn spawn(id: &str, f: F) -> (res: (Self, Receiver<()>))
        ensures
            res.0.is_spawn(id@, f, res.1),
    {
        let (tx, rx) = open_channel();
        (RouterCtl::Spawn { id: id.to_owned(), f, resp: tx }, rx)
    }

    /// Construct a `RouterCtl::Get` request.
    ///
    /// Returns the request object as well as a `Receiver` over which the router will send
    /// back to the caller the `Sender` for the given actor (or an error, if no such actor
    /// exists).
    pub fn get(id: &str) -> (res: (Self, Receiver<Result<Sender<M>, Error>>))
        ensures
            res.0.is_get(id@, res.1),
    {
        let (tx, rx) = open_channel();
        (RouterCtl::Get { id: id.to_owned(), resp: tx }, rx)
    }

    /// Construct a `RouterCtl::Has` request.
    ///
    /// Returns the request object as well as a `Receiver` over which the router will send
    /// back a boolean to the caller that indicates whether or not the given actor is
    /// available at the time of its observation.
    pub fn has(id: &str) -> (res: (Self, Receiver<bool>))
        ensures
            res.0.is_has(id@, res.1),
    {
        let (tx, rx) = open_channel();
        (RouterCtl::Has { id: id.to_owned(), resp: tx }, rx)
    }

    /// Construct a `RouterCtl::StopActor` request.
    ///
    /// Returns the request object as well as a `Receiver` over which the router will send
    /// confirmation back to the caller that the actor has stopped.
    pub fn stop_actor(id: &str) -> (res: (Self, Receiver<()>))
        ensures
            res.0.is_stop_actor(id@, res.1),
    {
        let (tx, rx) = open_channel();
        (RouterCtl::StopActor { id: id.to_owned(), resp: tx }, rx)
    }

    /// Construct a `RouterCtl::StopActorAsync` request.
    pub fn stop_actor_async(id: &str) -> (ctl: Self)
        ensures
            ctl.is_stop_actor_async(id@),
    {
        RouterCtl::StopActorAsync(id.to_owned())
    }
}

/// Messages that exert control over actors.
///
/// These messages are sent from the router to an actor thread.
pub enum ActorCtl {
    /// The actor thread should stabilize its state, send an `ActorStatus::Stopped` to the
    /// router through its status channel, and exit.
    Stop,
}

/// Status messages sent from an actor to the supervising router.
///
/// Each variant embeds the ID of the actor to which the message pertains.
pub enum ActorStatus {
    /// The actor thread paniced. The panic is typically caught by the wrapper function the
    /// router uses around the actor thread, but actor functions may also catch their own
    /// panics and communicate them back to the router.
    Paniced(String),
    /// The actor thread has stopped or is in the process of stopping. This is typically
    /// sent from the actor thread to the router immediately before it exits.
    Stopped(String),
}

impl ActorStatus {
    /// The ID of the actor that the message is about.
    pub open spec fn about(self) -> Seq<char> {
        match self {
            ActorStatus::Paniced(id) => id@,
            ActorStatus::Stopped(id) => id@,
        }
    }
}

} // verus!
