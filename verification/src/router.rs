//! The handle through which a router is used.
use crossbeam_channel::Sender;
use vstd::prelude::*;

use crate::channel::{post, posted};
use crate::client;
use crate::error::Error;
use crate::message::{RouterCtl, RouterRequest};
use crate::service::{Inbox, RouterCore};

verus! {

/// A handle to the actor management thread.
///
/// When a `Router` is created and its thread is spawned, channels are created to allow
/// clients to send messages to the router and to the actors it is managing. Those channels
/// are packaged into the `Router` struct and returned to the client, with the handle of the
/// thread, of type `J`.
#[verifier::reject_recursive_types(M)]
#[verifier::reject_recursive_types(F)]
pub struct Router<M, F, J> {
    pub id: String,
    pub req: Sender<RouterRequest<M>>,
    pub ctl: Sender<RouterCtl<M, F>>,
    pub handle: J,
}

/// The router behind `ctl` was asked to stop each of the actors of `ids`, with success.
pub open spec fn stops_all<M, F>(ctl: Sender<RouterCtl<M, F>>, ids: Seq<String>) -> bool {
    forall|i: int| 0 <= i < ids.len() ==> client::asked_to_stop(ctl, #[trigger] ids[i]@, Ok(()))
}

/// From `start` on, the actors of the first `n` of `ids` were stopped one after the other, each
/// with success and from where the one before it had left off; `end` is where the last left off.
pub open spec fn stopped_in_turn<W, S: Fn(W, &String) -> (W, Result<(), Error>)>(
    ids: Seq<String>,
    n: int,
    start: W,
    stop: S,
    end: W,
) -> bool
    decreases n,
{
    if n <= 0 {
        end == start
    } else {
        exists|before: W, out: Result<(), Error>|
            stopped_in_turn(ids, n - 1, start, stop, before) && #[trigger] call_ensures(
                stop,
                (before, &ids[n - 1]),
                (end, out),
            ) && out is Ok
    }
}

/// Stops the actors of `ids` in order, up to the first that cannot be stopped.
///
/// `stop` stops one actor. It is handed what its last call left, and `start` at first: no call
/// can come out of turn.
pub fn stop_in_turn<W, S: Fn(W, &String) -> (W, Result<(), Error>)>(
    ids: &Vec<String>,
    start: W,
    stop: &S,
) -> (res: (W, Result<(), Error>))
    requires
        forall|world: W, id: &String| call_requires(*stop, (world, id)),
    ensures
        match res.1 {
            Ok(()) => stopped_in_turn(ids@, ids@.len() as int, start, *stop, res.0),
            Err(e) => exists|n: int, before: W|
                #![trigger stopped_in_turn(ids@, n, start, *stop, before)]
                {
                    &&& 0 <= n < ids@.len()
                    &&& stopped_in_turn(ids@, n, start, *stop, before)
                    &&& call_ensures(*stop, (before, &ids@[n]), (res.0, Err(e)))
                },
        },
{
    let mut world = start;
    let mut i: usize = 0;
    while i < ids.len()
        invariant
            i <= ids.len(),
            stopped_in_turn(ids@, i as int, start, *stop, world),
            forall|world: W, id: &String| call_requires(*stop, (world, id)),
        decreases ids.len() - i,
    {
        let ghost before = world;
        let (next, out) = stop(world, &ids[i]);
        match out {
            Ok(()) => {
                proof {
                    let n = i + 1;
                    assert(call_ensures(*stop, (before, &ids@[n - 1]), (next, out)));
                    assert(stopped_in_turn(ids@, n - 1, start, *stop, before));
                    assert(stopped_in_turn(ids@, n, start, *stop, next));
                }
                world = next;
                i += 1;
            },
            Err(e) => {
                assert(stopped_in_turn(ids@, i as int, start, *stop, before));
                return (next, Err(e));
            },
        }
    }
    (world, Ok(()))
}

/// Whatever `stop` says of one actor that was stopped, it says of each that was stopped in turn.
proof fn lemma_each_stopped<M, F, W, S: Fn(W, &String) -> (W, Result<(), Error>)>(
    ctl: Sender<RouterCtl<M, F>>,
    ids: Seq<String>,
    n: int,
    start: W,
    stop: S,
    end: W,
)
    requires
        stopped_in_turn(ids, n, start, stop, end),
        forall|world: W, id: &String, res: (W, Result<(), Error>)| #[trigger]
            call_ensures(stop, (world, id), res) ==> client::asked_to_stop(ctl, id@, res.1),
    ensures
        forall|i: int| 0 <= i < n ==> client::asked_to_stop(ctl, #[trigger] ids[i]@, Ok(())),
    decreases n,
{
    if n > 0 {
        let (before, out) = choose|before: W, out: Result<(), Error>|
            stopped_in_turn(ids, n - 1, start, stop, before) && #[trigger] call_ensures(
                stop,
                (before, &ids[n - 1]),
                (end, out),
            ) && out is Ok;
        assert(out == Ok::<(), Error>(()));
        lemma_each_stopped(ctl, ids, n - 1, start, stop, before);
    }
}

impl<M, F, J> Router<M, F, J> {
    /// This handle reaches the router that started out as `core`, listening on `inbox`.
    pub open spec fn reaches<H>(self, core: RouterCore<M, F, H>, inbox: Inbox<M, F>) -> bool {
        &&& core.is_fresh(inbox)
        &&& core@.req == self.req
        &&& core@.ctl == self.ctl
    }

    /// Set up a router, have its thread started and return a `Router` handle.
    ///
    /// `start` spawns the thread. The thread remains resident: it receives what comes into
    /// the inbox and hands it to the core, until that is finished.
    pub fn run<H, S: FnOnce(RouterCore<M, F, H>, Inbox<M, F>) -> J>(id: &str, start: S) -> (router:
        Self)
        requires
            forall|core: RouterCore<M, F, H>, inbox: Inbox<M, F>|
                core.is_fresh(inbox) ==> call_requires(start, (core, inbox)),
        ensures
            router.id@ == id@,
            exists|core: RouterCore<M, F, H>, inbox: Inbox<M, F>| #[trigger]
                router.reaches(core, inbox) && call_ensures(start, (core, inbox), router.handle),
    {
        let (core, inbox) = RouterCore::open();
        let (req, ctl) = core.senders();
        let handle = start(core, inbox);
        let router = Router { id: id.to_owned(), req, ctl, handle };
        assert(router.reaches(core, inbox));
        router
    }

    /// Spawn an actor.
    pub fn spawn(&self, id: &str, f: F) -> (out: Result<(), Error>)
        ensures
            client::asked_to_spawn(self.ctl, id@, f, out),
    {
        client::spawn(&self.ctl, id, f)
    }

    /// Determine whether the router has a route to an actor, at the time of inspection.
    pub fn has(&self, id: &str) -> (out: Result<bool, Error>)
        ensures
            client::asked_whether_has(self.ctl, id@, out),
    {
        client::has(&self.ctl, id)
    }

    /// Retrieve a copy of an actor's request channel `Sender`.
    pub fn get(&self, id: &str) -> (out: Result<Sender<M>, Error>)
        ensures
            client::asked_to_get(self.ctl, id@, out),
    {
        client::get(&self.ctl, id)
    }

    /// Send a message to an actor.
    ///
    /// Waits until the router has told whether it has that actor, and fails with
    /// `Error::NoSuchActor` where it does not.
    pub fn send(&self, id: &str, msg: M) -> (out: Result<(), Error>)
        ensures
            client::asked_to_route(self.ctl, self.req, id@, msg, out),
    {
        client::send(&self.ctl, &self.req, id, msg)
    }

    /// Stop an actor.
    pub fn stop(&self, id: &str) -> (out: Result<(), Error>)
        ensures
            client::asked_to_stop(self.ctl, id@, out),
    {
        client::stop(&self.ctl, id)
    }

    /// Stop an actor without waiting for it to stop.
    pub fn stop_async(&self, id: &str) -> (out: Result<(), Error>)
        ensures
            client::asked_to_stop_async(self.ctl, id@, out),
    {
        client::stop_async(&self.ctl, id)
    }

    /// Stop a list of actors in order, up to the first that cannot be stopped.
    pub fn stop_list(&self, ids: Vec<String>) -> (out: Result<(), Error>)
        ensures
            out is Ok ==> stops_all(self.ctl, ids@),
            out matches Err(e) ==> exists|n: int|
                {
                    &&& 0 <= n < ids@.len()
                    &&& client::asked_to_stop(self.ctl, #[trigger] ids@[n]@, Err(e))
                    &&& forall|i: int|
                        0 <= i < n ==> client::asked_to_stop(
                            self.ctl,
                            #[trigger] ids@[i]@,
                            Ok(()),
                        )
                },
    {
        let stop = |world: (), id: &String| -> (res: ((), Result<(), Error>))
            ensures
                client::asked_to_stop(self.ctl, id@, res.1),
            { ((), self.stop(id.as_str())) };
        let (end, out) = stop_in_turn(&ids, (), &stop);
        proof {
            if out is Ok {
                lemma_each_stopped(self.ctl, ids@, ids@.len() as int, (), stop, end);
            } else {
                let n = choose|n: int|
                    {
                        &&& 0 <= n < ids@.len()
                        &&& #[trigger] stopped_in_turn(ids@, n, (), stop, ())
                        &&& call_ensures(stop, ((), &ids@[n]), (end, Err(out->Err_0)))
                    };
                lemma_each_stopped(self.ctl, ids@, n, (), stop, ());
                assert(client::asked_to_stop(self.ctl, ids@[n]@, Err(out->Err_0)));
            }
        }
        out
    }

    /// Have all actors and then the router stopped.
    ///
    /// Returns the handle of the router thread, to wait for its end. Note that actors are
    /// stopped in an arbitrary order.
    pub fn shutdown(self) -> (out: Result<J, Error>)
        ensures
            exists|put: Result<(), Error>| #[trigger]
                posted(self.ctl, RouterCtl::Shutdown, put) && match put {
                    Ok(()) => out == Ok::<J, Error>(self.handle),
                    Err(e) => out == Err::<J, Error>(e),
                },
    {
        let put = post(&self.ctl, RouterCtl::Shutdown);
        assert(posted(self.ctl, RouterCtl::Shutdown, put));
        match put {
            Ok(()) => Ok(self.handle),
            Err(e) => Err(e),
        }
    }
}

} // verus!
