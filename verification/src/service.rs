//! What a router does with each thing that reaches it.
//!
//! A router reads one event after the other. [`RouterCore::decide`] turns an event into what
//! is to be done, as a list; [`RouterCore::carry_out`] has the list done in its order, and
//! [`Effect::perform`] does one thing on it.
use crossbeam_channel::{Receiver, RecvError, Sender};
use vstd::prelude::*;

use crate::actor::{Actor, ActorContext, Task};
use crate::channel::{is_channel, open_channel, post, posted};
use crate::error::Error;
use crate::message::{ActorCtl, ActorStatus, RouterCtl, RouterRequest};
use crate::registry::Registry;

verus! {

/// The receiving ends of the channels that a router listens on.
#[verifier::reject_recursive_types(M)]
#[verifier::reject_recursive_types(F)]
pub struct Inbox<M, F> {
    /// Requests to route messages to actors.
    pub req: Receiver<RouterRequest<M>>,
    /// Control messages for the router itself.
    pub ctl: Receiver<RouterCtl<M, F>>,
    /// Status messages from actor threads.
    pub stat: Receiver<ActorStatus>,
}

/// What receiving on one of the channels of the inbox gave.
#[verifier::reject_recursive_types(M)]
#[verifier::reject_recursive_types(F)]
pub enum Event<M, F> {
    Request(Result<RouterRequest<M>, RecvError>),
    Ctl(Result<RouterCtl<M, F>, RecvError>),
    Status(Result<ActorStatus, RecvError>),
}

/// What the router keeps of an actor that is about to be started: all but its thread.
#[verifier::reject_recursive_types(M)]
pub struct Seat<M> {
    pub id: String,
    pub req: Sender<M>,
    pub ctl: Sender<ActorCtl>,
}

/// One thing for a router to do.
#[verifier::reject_recursive_types(M)]
#[verifier::reject_recursive_types(F)]
#[allow(inconsistent_fields)]
pub enum Effect<M, F, H> {
    /// Send the actor of ID `id` a message, on its request channel.
    Deliver { id: String, to: Sender<M>, val: M },
    /// Take note that an event could not be served.
    Reject(Error),
    /// Start the thread of a new actor.
    Start { task: Task<M, F>, seat: Seat<M> },
    /// Tell an asker that it is done.
    Confirm(Sender<()>),
    /// Answer a `RouterCtl::Get`.
    Answer { to: Sender<Result<Sender<M>, Error>>, answer: Result<Sender<M>, Error> },
    /// Answer a `RouterCtl::Has`.
    Tell { to: Sender<bool>, found: bool },
    /// Tell the actor of ID `id` to stop, on its control channel.
    Stop { id: String, ctl: Sender<ActorCtl> },
    /// Wait for the end of an actor, and only then let go of its channels.
    Join(Actor<M, H>),
    /// Let go of the channels of an actor that is not waited for.
    Release(Actor<M, H>),
}

/// What came of an effect, as far as it concerns the router.
#[verifier::reject_recursive_types(M)]
pub enum Outcome<M, H> {
    /// There is nothing to add.
    Done,
    /// The thread of a new actor runs.
    Started(Actor<M, H>),
    /// The actor of this ID does not receive messages any more.
    Lost(String),
}

/// The state of a router: its actors and the sending ends of the channels it listens on.
#[verifier::ext_equal]
#[verifier::reject_recursive_types(M)]
#[verifier::reject_recursive_types(F)]
#[verifier::reject_recursive_types(H)]
pub ghost struct RouterState<M, F, H> {
    pub table: Map<Seq<char>, Actor<M, H>>,
    pub req: Sender<RouterRequest<M>>,
    pub ctl: Sender<RouterCtl<M, F>>,
    pub stat: Sender<ActorStatus>,
}

impl<M, F, H> RouterState<M, F, H> {
    /// The state with another table.
    pub open spec fn with_table(self, table: Map<Seq<char>, Actor<M, H>>) -> Self {
        RouterState { table, ..self }
    }

    /// Every actor is held under its own ID.
    pub open spec fn wf(self) -> bool {
        forall|id: Seq<char>| #[trigger]
            self.table.contains_key(id) ==> self.table[id].id@ == id
    }

    /// The senders lead to the inbox.
    pub open spec fn feeds(self, inbox: Inbox<M, F>) -> bool {
        &&& is_channel(self.req, inbox.req)
        &&& is_channel(self.ctl, inbox.ctl)
        &&& is_channel(self.stat, inbox.stat)
    }

    /// What the router answers to a `Get` for the actor of ID `id`.
    pub open spec fn lookup(self, id: String) -> Result<Sender<M>, Error> {
        if self.table.contains_key(id@) {
            Ok(self.table[id@].req)
        } else {
            Err(Error::NoSuchActor(id))
        }
    }
}

/// To tell `actor` to stop.
pub open spec fn stop_of<M, F, H>(actor: Actor<M, H>) -> Effect<M, F, H> {
    Effect::Stop { id: actor.id, ctl: actor.ctl }
}

/// To wait for the end of the thread of `actor`, whose channels stay open until then.
pub open spec fn join_of<M, F, H>(actor: Actor<M, H>) -> Effect<M, F, H> {
    Effect::Join(actor)
}

/// To let go of `actor`, whose channels stay open until then.
pub open spec fn release_of<M, F, H>(actor: Actor<M, H>) -> Effect<M, F, H> {
    Effect::Release(actor)
}

/// To stop the actors of `order` and wait for their end, one after the other.
pub open spec fn stop_and_join<M, F, H>(
    table: Map<Seq<char>, Actor<M, H>>,
    order: Seq<Seq<char>>,
) -> Seq<Effect<M, F, H>>
    decreases order.len(),
{
    if order.len() == 0 {
        Seq::empty()
    } else {
        stop_and_join(table, order.drop_last()).push(stop_of(table[order.last()])).push(
            join_of(table[order.last()]),
        )
    }
}

/// `order` lists the IDs of the table, each once.
pub open spec fn lists<M, H>(table: Map<Seq<char>, Actor<M, H>>, order: Seq<Seq<char>>) -> bool {
    &&& order.no_duplicates()
    &&& forall|id: Seq<char>| #[trigger] order.contains(id) <==> table.contains_key(id)
}

/// `task` and `seat` are the two sides of a new actor of ID `id` that runs `f`: the one holds
/// the receiving ends of the channels of which the other holds the sending ends, and through
/// its context the actor reaches this router.
pub open spec fn is_new_actor<M, F, H>(
    router: RouterState<M, F, H>,
    id: Seq<char>,
    f: F,
    task: Task<M, F>,
    seat: Seat<M>,
) -> bool {
    &&& task.id@ == id
    &&& task.f == f
    &&& task.stat == router.stat
    &&& task.ctx.id@ == id
    &&& task.ctx.router_req == router.req
    &&& task.ctx.router_ctl == router.ctl
    &&& task.ctx.stat == router.stat
    &&& seat.id@ == id
    &&& is_channel(seat.req, task.ctx.req)
    &&& is_channel(seat.ctl, task.ctx.ctl)
}

/// What a router does with a request: it passes the message on to the actor it is for, and to
/// nobody else.
pub open spec fn request_todo<M, F, H>(
    pre: RouterState<M, F, H>,
    request: RouterRequest<M>,
) -> Seq<Effect<M, F, H>> {
    if pre.table.contains_key(request.id@) {
        seq![
            Effect::Deliver {
                id: request.id,
                to: pre.table[request.id@].req,
                val: request.val,
            },
        ]
    } else {
        seq![Effect::Reject(Error::NoSuchActor(request.id))]
    }
}

/// What a router does to stop the actor of ID `id`: it tells the actor to stop, waits for its
/// end, and then confirms that on `resp`. Of an actor that it does not have it does nothing, and
/// does not confirm it either.
pub open spec fn stop_todo<M, F, H>(
    pre: RouterState<M, F, H>,
    id: Seq<char>,
    resp: Sender<()>,
) -> Seq<Effect<M, F, H>> {
    if pre.table.contains_key(id) {
        seq![stop_of(pre.table[id]), join_of(pre.table[id]), Effect::Confirm(resp)]
    } else {
        Seq::empty()
    }
}

/// What a router does to stop the actor of ID `id` without waiting for it: it tells the actor
/// to stop, and then lets go of it.
pub open spec fn stop_async_todo<M, F, H>(
    pre: RouterState<M, F, H>,
    id: Seq<char>,
) -> Seq<Effect<M, F, H>> {
    if pre.table.contains_key(id) {
        seq![stop_of(pre.table[id]), release_of(pre.table[id])]
    } else {
        Seq::empty()
    }
}

/// What a router does with a control message.
pub open spec fn decides_ctl<M, F, H>(
    pre: RouterState<M, F, H>,
    msg: RouterCtl<M, F>,
    post: RouterState<M, F, H>,
    todo: Seq<Effect<M, F, H>>,
) -> bool {
    match msg {
        RouterCtl::Spawn { id, f, resp } => post == pre && exists|task: Task<M, F>, seat: Seat<M>| #[trigger]
            is_new_actor(pre, id@, f, task, seat) && todo == seq![
                Effect::<M, F, H>::Start { task, seat },
                Effect::<M, F, H>::Confirm(resp),
            ],
        RouterCtl::Get { id, resp } => post == pre && todo == seq![
            Effect::<M, F, H>::Answer { to: resp, answer: pre.lookup(id) },
        ],
        RouterCtl::Has { id, resp } => post == pre && todo == seq![
            Effect::<M, F, H>::Tell { to: resp, found: pre.table.contains_key(id@) },
        ],
        RouterCtl::StopActor { id, resp } => {
            &&& post == pre.with_table(pre.table.remove(id@))
            &&& todo == stop_todo(pre, id@, resp)
        },
        RouterCtl::StopActorAsync(id) => {
            &&& post == pre.with_table(pre.table.remove(id@))
            &&& todo == stop_async_todo(pre, id@)
        },
        RouterCtl::Shutdown => {
            &&& post == pre.with_table(Map::empty())
            &&& exists|order: Seq<Seq<char>>| #[trigger]
                lists(pre.table, order) && todo == stop_and_join::<M, F, H>(pre.table, order)
        },
    }
}

/// What a router does with an event: it goes over from `pre` to `post`, and `todo` is to be
/// done, in this order, and nothing else.
pub open spec fn decides<M, F, H>(
    pre: RouterState<M, F, H>,
    event: Event<M, F>,
    post: RouterState<M, F, H>,
    todo: Seq<Effect<M, F, H>>,
) -> bool {
    match event {
        Event::Request(Ok(request)) => post == pre && todo == request_todo(pre, request),
        Event::Ctl(Ok(msg)) => decides_ctl(pre, msg, post, todo),
        Event::Status(Ok(status)) => {
            &&& post == pre.with_table(pre.table.remove(status.about()))
            &&& todo == Seq::<Effect<M, F, H>>::empty()
        },
        _ => {
            &&& post == pre
            &&& todo.len() == 1
            &&& todo[0] matches Effect::Reject(e) && e.is_recv_failure()
        },
    }
}

/// What a router makes of the outcome of an effect: it goes over from `pre` to `post`, and
/// `next`, if anything, is to be done at once.
pub open spec fn settles<M, F, H>(
    pre: RouterState<M, F, H>,
    out: Outcome<M, H>,
    post: RouterState<M, F, H>,
    next: Option<Effect<M, F, H>>,
) -> bool {
    match out {
        Outcome::Done => post == pre && next is None,
        Outcome::Started(actor) => post == pre.with_table(pre.table.insert(actor.id@, actor))
            && next is None,
        Outcome::Lost(id) => post == pre.with_table(pre.table.remove(id@)) && next == Some(
            Effect::<M, F, H>::Reject(Error::NoSuchActor(id)),
        ),
    }
}

/// `effect` was done in the world `start`, which left the world `end`, and the router, having
/// made of the outcome what it makes of it, went over from `pre` to `post`.
pub open spec fn carries_out_one<M, F, H, W, A: Fn(W, Effect<M, F, H>) -> (W, Outcome<M, H>)>(
    pre: RouterState<M, F, H>,
    effect: Effect<M, F, H>,
    start: W,
    act: A,
    post: RouterState<M, F, H>,
    end: W,
) -> bool {
    exists|then: W, out: Outcome<M, H>, next: Option<Effect<M, F, H>>|
        #![trigger call_ensures(act, (start, effect), (then, out)), settles(pre, out, post, next)]
        {
            &&& call_ensures(act, (start, effect), (then, out))
            &&& settles(pre, out, post, next)
            &&& match next {
                Some(more) => exists|last: Outcome<M, H>| #[trigger]
                    call_ensures(act, (then, more), (end, last)),
                None => end == then,
            }
        }
}

/// The effects of `todo` were done one after the other, each in the world that the one before
/// it had left, from `start` on; `end` is the world that the last of them left.
pub open spec fn carries_out<M, F, H, W, A: Fn(W, Effect<M, F, H>) -> (W, Outcome<M, H>)>(
    pre: RouterState<M, F, H>,
    todo: Seq<Effect<M, F, H>>,
    start: W,
    act: A,
    post: RouterState<M, F, H>,
    end: W,
) -> bool
    decreases todo.len(),
{
    if todo.len() == 0 {
        post == pre && end == start
    } else {
        exists|mid: RouterState<M, F, H>, then: W| #[trigger]
            carries_out_one(mid, todo.last(), then, act, post, end) && carries_out(
                pre,
                todo.drop_last(),
                start,
                act,
                mid,
                then,
            )
    }
}

/// A router dealt with an event: it decided what is to be done, and that was done.
pub open spec fn serves<M, F, H, W, A: Fn(W, Effect<M, F, H>) -> (W, Outcome<M, H>)>(
    pre: RouterState<M, F, H>,
    event: Event<M, F>,
    start: W,
    act: A,
    post: RouterState<M, F, H>,
    end: W,
) -> bool {
    exists|mid: RouterState<M, F, H>, todo: Seq<Effect<M, F, H>>| #[trigger]
        decides(pre, event, mid, todo) && carries_out(mid, todo, start, act, post, end)
}

impl<M, F, H> Effect<M, F, H> {
    /// `out` can have come of this effect: a new actor of its start, with the channels of its
    /// seat, and a loss only of a delivery, to the actor that it was for.
    pub open spec fn allows(self, out: Outcome<M, H>) -> bool {
        match self {
            Effect::Deliver { id, .. } => out is Done || out == Outcome::<M, H>::Lost(id),
            Effect::Start { seat, .. } => out matches Outcome::Started(actor) && actor.id == seat.id
                && actor.req == seat.req && actor.ctl == seat.ctl,
            _ => out is Done,
        }
    }

    /// The effect was had by the calls it stands for, and `out` is what came of it.
    pub open spec fn is_performed<S: Fn(Task<M, F>) -> H, J: Fn(H)>(
        self,
        start: S,
        join: J,
        out: Outcome<M, H>,
    ) -> bool {
        &&& self.allows(out)
        &&& match self {
            Effect::Deliver { id, to, val } => exists|put: Result<(), Error>| #[trigger]
                posted(to, val, put) && (out is Done <==> put is Ok),
            Effect::Reject(_) => true,
            Effect::Start { task, .. } => call_ensures(start, (task,), out->Started_0.handle),
            Effect::Confirm(to) => exists|put: Result<(), Error>| posted(to, (), put),
            Effect::Answer { to, answer } => exists|put: Result<(), Error>| posted(to, answer, put),
            Effect::Tell { to, found } => exists|put: Result<(), Error>| posted(to, found, put),
            Effect::Stop { ctl, .. } => exists|put: Result<(), Error>|
                posted(ctl, ActorCtl::Stop, put),
            Effect::Join(actor) => call_ensures(join, (actor.handle,), ()),
            Effect::Release(_) => true,
        }
    }

    /// Does this one thing. `start` starts threads and `join` waits for their end.
    ///
    /// Where an asker does not wait for its answer any more, or an actor has ended before it is
    /// told to stop, that is no concern of the router.
    pub fn perform<S: Fn(Task<M, F>) -> H, J: Fn(H)>(self, start: &S, join: &J) -> (out: Outcome<
        M,
        H,
    >)
        requires
            forall|task: Task<M, F>| call_requires(*start, (task,)),
            forall|handle: H| call_requires(*join, (handle,)),
        ensures
            self.is_performed(*start, *join, out),
    {
        match self {
            Effect::Deliver { id, to, val } => outcome_of_delivery(id, post(&to, val)),
            Effect::Reject(_) => Outcome::Done,
            Effect::Start { task, seat } => {
                let handle = start(task);
                Outcome::Started(Actor { id: seat.id, req: seat.req, ctl: seat.ctl, handle })
            },
            Effect::Confirm(to) => {
                let _put = post(&to, ());
                Outcome::Done
            },
            Effect::Answer { to, answer } => {
                let _put = post(&to, answer);
                Outcome::Done
            },
            Effect::Tell { to, found } => {
                let _put = post(&to, found);
                Outcome::Done
            },
            Effect::Stop { id: _, ctl } => {
                let _put = post(&ctl, ActorCtl::Stop);
                Outcome::Done
            },
            Effect::Join(actor) => {
                // The senders outlive the wait: until its end the actor finds its channels open.
                let Actor { id: _id, req: _req, ctl: _ctl, handle } = actor;
                join(handle);
                Outcome::Done
            },
            Effect::Release(_actor) => Outcome::Done,
        }
    }
}

/// What sending a message to the actor of ID `id` comes to: an actor that it cannot be sent to
/// is lost.
pub fn outcome_of_delivery<M, H>(id: String, put: Result<(), Error>) -> (out: Outcome<M, H>)
    ensures
        put is Ok ==> out == Outcome::<M, H>::Done,
        put is Err ==> out == Outcome::<M, H>::Lost(id),
{
    match put {
        Ok(()) => Outcome::Done,
        Err(_) => Outcome::Lost(id),
    }
}

/// The effects of `todo` were had one after the other, by the calls that each stands for, and
/// `note` was told of each of them, as of what the outcomes led to.
pub open spec fn performs<M, F, H, S: Fn(Task<M, F>) -> H, J: Fn(H), N: Fn(&Effect<M, F, H>)>(
    pre: RouterState<M, F, H>,
    todo: Seq<Effect<M, F, H>>,
    start: S,
    join: J,
    note: N,
    post: RouterState<M, F, H>,
) -> bool
    decreases todo.len(),
{
    if todo.len() == 0 {
        post == pre
    } else {
        exists|mid: RouterState<M, F, H>, out: Outcome<M, H>, next: Option<Effect<M, F, H>>|
            #![trigger todo.last().is_performed(start, join, out), settles(mid, out, post, next)]
            {
                &&& performs(pre, todo.drop_last(), start, join, note, mid)
                &&& todo.last().is_performed(start, join, out)
                &&& settles(mid, out, post, next)
                &&& call_ensures(note, (&todo.last(),), ())
                &&& next matches Some(more) ==> call_ensures(note, (&more,), ())
            }
    }
}

/// What `act` does about each effect, it did about all that were carried out.
proof fn lemma_performs<
    M,
    F,
    H,
    W,
    A: Fn(W, Effect<M, F, H>) -> (W, Outcome<M, H>),
    S: Fn(Task<M, F>) -> H,
    J: Fn(H),
    N: Fn(&Effect<M, F, H>),
>(
    pre: RouterState<M, F, H>,
    todo: Seq<Effect<M, F, H>>,
    first: W,
    act: A,
    post: RouterState<M, F, H>,
    last: W,
    start: S,
    join: J,
    note: N,
)
    requires
        carries_out(pre, todo, first, act, post, last),
        forall|world: W, effect: Effect<M, F, H>, res: (W, Outcome<M, H>)| #[trigger]
            call_ensures(act, (world, effect), res) ==> effect.is_performed(start, join, res.1)
                && call_ensures(note, (&effect,), ()),
    ensures
        performs(pre, todo, start, join, note, post),
    decreases todo.len(),
{
    if todo.len() > 0 {
        let effect = todo.last();
        let (mid, then) = choose|mid: RouterState<M, F, H>, then: W| #[trigger]
            carries_out_one(mid, effect, then, act, post, last) && carries_out(
                pre,
                todo.drop_last(),
                first,
                act,
                mid,
                then,
            );
        lemma_performs(pre, todo.drop_last(), first, act, mid, then, start, join, note);
        let (after, out, next) = choose|
            after: W,
            out: Outcome<M, H>,
            next: Option<Effect<M, F, H>>,
        |
            #![trigger call_ensures(act, (then, effect), (after, out)), settles(mid, out, post, next)]
            {
                &&& call_ensures(act, (then, effect), (after, out))
                &&& settles(mid, out, post, next)
                &&& match next {
                    Some(more) => exists|end: Outcome<M, H>| #[trigger]
                        call_ensures(act, (after, more), (last, end)),
                    None => last == after,
                }
            };
        assert(effect.is_performed(start, join, out));
        assert(settles(mid, out, post, next));
    }
}

/// Something that has reached a router. All that can be done with it is to have it decided on:
/// whoever is given one does not get at the channels that it holds.
pub trait Incoming<M, F, H>: Sized {
    /// What it is.
    spec fn event(self) -> Event<M, F>;

    /// Whether the router goes on after it.
    fn goes_on(&self) -> (goes_on: bool)
        ensures
            goes_on == (self.event() != Event::<M, F>::Ctl(Ok(RouterCtl::Shutdown))),
    ;

    /// Has a router decide what is to be done about it.
    fn decided_by(self, core: &mut RouterCore<M, F, H>) -> (todo: Vec<Effect<M, F, H>>)
        requires
            old(core).wf(),
        ensures
            final(core).wf(),
            decides(old(core)@, self.event(), final(core)@, todo@),
    ;
}

impl<M, F, H> Incoming<M, F, H> for Event<M, F> {
    open spec fn event(self) -> Event<M, F> {
        self
    }

    fn goes_on(&self) -> (goes_on: bool) {
        match self {
            Event::Ctl(Ok(RouterCtl::Shutdown)) => false,
            _ => true,
        }
    }

    fn decided_by(self, core: &mut RouterCore<M, F, H>) -> (todo: Vec<Effect<M, F, H>>) {
        core.decide(self)
    }
}

/// The part of a router that decides: it holds the registry of actors, and is handed one
/// event after the other. `H` is the type of the handles of actor threads.
#[verifier::reject_recursive_types(M)]
#[verifier::reject_recursive_types(F)]
#[verifier::reject_recursive_types(H)]
pub struct RouterCore<M, F, H> {
    table: Registry<M, H>,
    req: Sender<RouterRequest<M>>,
    ctl: Sender<RouterCtl<M, F>>,
    stat: Sender<ActorStatus>,
}

impl<M, F, H> View for RouterCore<M, F, H> {
    type V = RouterState<M, F, H>;

    closed spec fn view(&self) -> RouterState<M, F, H> {
        RouterState { table: self.table@, req: self.req, ctl: self.ctl, stat: self.stat }
    }
}

impl<M, F, H> RouterCore<M, F, H> {
    /// The registry is sound.
    pub closed spec fn wf(self) -> bool {
        self.table.wf()
    }

    /// The core knows no actor, and `inbox` is what it is fed from.
    pub open spec fn is_fresh(self, inbox: Inbox<M, F>) -> bool {
        &&& self.wf()
        &&& self@.table == Map::<Seq<char>, Actor<M, H>>::empty()
        &&& self@.feeds(inbox)
    }

    /// A core is always in a sound state: every actor is held under its own ID.
    pub proof fn lemma_wf(self)
        ensures
            self@.wf(),
    {
        assert forall|id: Seq<char>| #[trigger]
            self@.table.contains_key(id) implies self@.table[id].id@ == id by {
            self.table.lemma_own_id(id);
        }
    }

    /// A router without actors, and its inbox.
    pub fn open() -> (res: (Self, Inbox<M, F>))
        ensures
            res.0.is_fresh(res.1),
    {
        let (req_tx, req) = open_channel();
        let (ctl_tx, ctl) = open_channel();
        let (stat_tx, stat) = open_channel();
        (
            RouterCore { table: Registry::new(), req: req_tx, ctl: ctl_tx, stat: stat_tx },
            Inbox { req, ctl, stat },
        )
    }

    /// Copies of the senders through which clients reach the router.
    pub fn senders(&self) -> (res: (Sender<RouterRequest<M>>, Sender<RouterCtl<M, F>>))
        ensures
            res == (self@.req, self@.ctl),
    {
        (self.req.clone(), self.ctl.clone())
    }

    /// What is to be done about a request.
    fn route(&self, request: RouterRequest<M>) -> (todo: Vec<Effect<M, F, H>>)
        requires
            self.wf(),
        ensures
            todo@ == request_todo(self@, request),
    {
        let RouterRequest { id, val } = request;
        match self.table.get(&id) {
            Some(actor) => {
                let to = actor.req.clone();
                vec![Effect::Deliver { id, to, val }]
            },
            None => vec![Effect::Reject(Error::NoSuchActor(id))],
        }
    }

    /// Sets up a new actor.
    fn prepare(&self, id: String, f: F) -> (res: (Task<M, F>, Seat<M>))
        ensures
            is_new_actor(self@, id@, f, res.0, res.1),
    {
        let (req_tx, req) = open_channel();
        let (ctl_tx, ctl) = open_channel();
        let ctx = ActorContext::new(
            id.clone(),
            req,
            ctl,
            self.req.clone(),
            self.ctl.clone(),
            self.stat.clone(),
        );
        let task = Task { id: id.clone(), f, ctx, stat: self.stat.clone() };
        (task, Seat { id, req: req_tx, ctl: ctl_tx })
    }

    /// What the router answers to a `Get`.
    fn lookup(&self, id: String) -> (answer: Result<Sender<M>, Error>)
        requires
            self.wf(),
        ensures
            answer == self@.lookup(id),
    {
        match self.table.get(&id) {
            Some(actor) => Ok(actor.req.clone()),
            None => Err(Error::NoSuchActor(id)),
        }
    }

    /// Takes all actors out, to be stopped in an arbitrary order.
    fn dismiss_all(&mut self) -> (todo: Vec<Effect<M, F, H>>)
        requires
            old(self).wf(),
        ensures
            final(self).wf(),
            decides_ctl(old(self)@, RouterCtl::Shutdown, final(self)@, todo@),
    {
        let ghost pre = self@;
        let ghost mut order = Seq::<Seq<char>>::empty();
        let mut todo: Vec<Effect<M, F, H>> = Vec::new();
        loop
            invariant
                self.wf(),
                old(self)@ == pre,
                self@ == pre.with_table(self@.table),
                forall|id: Seq<char>| #[trigger]
                    self@.table.contains_key(id) ==> pre.table.contains_key(id) && pre.table[id]
                        == self@.table[id],
                order.no_duplicates(),
                forall|id: Seq<char>| #[trigger]
                    order.contains(id) <==> pre.table.contains_key(id) && !self@.table.contains_key(
                        id,
                    ),
                todo@ == stop_and_join::<M, F, H>(pre.table, order),
            decreases self.table.size(),
        {
            let ghost before = self@;
            match self.table.take_any() {
                Some(actor) => {
                    proof {
                        let listed = order;
                        let id = actor.id@;
                        order = listed.push(id);
                        assert(before.table.contains_key(id));
                        assert(pre.table[id] == actor);
                        assert(order.drop_last() =~= listed);
                        assert forall|other: Seq<char>| #[trigger]
                            order.contains(other) <==> listed.contains(other) || other == id by {
                            if listed.contains(other) {
                                let i = choose|i: int|
                                    0 <= i < listed.len() && listed[i] == other;
                                assert(order[i] == other);
                            }
                            if other == id {
                                assert(order[listed.len() as int] == id);
                            }
                        }
                        assert(!listed.contains(id));
                    }
                    todo.push(Effect::Stop { id: actor.id.clone(), ctl: actor.ctl.clone() });
                    todo.push(Effect::Join(actor));
                },
                None => {
                    proof {
                        assert(self@ =~= pre.with_table(Map::empty()));
                        assert(lists(pre.table, order));
                    }
                    return todo;
                },
            }
        }
    }

    /// What is to be done about a control message.
    fn obey(&mut self, msg: RouterCtl<M, F>) -> (todo: Vec<Effect<M, F, H>>)
        requires
            old(self).wf(),
        ensures
            final(self).wf(),
            decides_ctl(old(self)@, msg, final(self)@, todo@),
    {
        let ghost pre = self@;
        match msg {
            RouterCtl::Spawn { id, f, resp } => {
                let (task, seat) = self.prepare(id, f);
                let todo = vec![Effect::Start { task, seat }, Effect::Confirm(resp)];
                assert(is_new_actor(pre, id@, f, task, seat));
                assert(todo@ =~= seq![
                    Effect::<M, F, H>::Start { task, seat },
                    Effect::<M, F, H>::Confirm(resp),
                ]);
                todo
            },
            RouterCtl::Get { id, resp } => {
                let answer = self.lookup(id);
                let todo = vec![Effect::Answer { to: resp, answer }];
                assert(todo@ =~= seq![Effect::<M, F, H>::Answer { to: resp, answer }]);
                todo
            },
            RouterCtl::Has { id, resp } => {
                let found = self.table.contains(&id);
                let todo = vec![Effect::Tell { to: resp, found }];
                assert(todo@ =~= seq![Effect::<M, F, H>::Tell { to: resp, found }]);
                todo
            },
            RouterCtl::StopActor { id, resp } => match self.table.remove(&id) {
                Some(actor) => {
                    let todo = vec![
                        Effect::Stop { id: actor.id.clone(), ctl: actor.ctl.clone() },
                        Effect::Join(actor),
                        Effect::Confirm(resp),
                    ];
                    assert(todo@ =~= stop_todo(pre, id@, resp));
                    todo
                },
                None => Vec::new(),
            },
            RouterCtl::StopActorAsync(id) => match self.table.remove(&id) {
                Some(actor) => {
                    let todo = vec![
                        Effect::Stop { id: actor.id.clone(), ctl: actor.ctl.clone() },
                        Effect::Release(actor),
                    ];
                    assert(todo@ =~= stop_async_todo(pre, id@));
                    todo
                },
                None => Vec::new(),
            },
            RouterCtl::Shutdown => self.dismiss_all(),
        }
    }

    /// Decides what is to be done about an event.
    pub fn decide(&mut self, event: Event<M, F>) -> (todo: Vec<Effect<M, F, H>>)
        requires
            old(self).wf(),
        ensures
            final(self).wf(),
            decides(old(self)@, event, final(self)@, todo@),
    {
        match event {
            Event::Request(Ok(request)) => self.route(request),
            Event::Ctl(Ok(msg)) => self.obey(msg),
            Event::Status(Ok(ActorStatus::Stopped(id))) => {
                self.table.remove(&id);
                Vec::new()
            },
            Event::Status(Ok(ActorStatus::Paniced(id))) => {
                self.table.remove(&id);
                Vec::new()
            },
            Event::Request(Err(e)) => vec![Effect::Reject(Error::recv_error(e))],
            Event::Ctl(Err(e)) => vec![Effect::Reject(Error::recv_error(e))],
            Event::Status(Err(e)) => vec![Effect::Reject(Error::recv_error(e))],
        }
    }

    /// Takes in the outcome of an effect, and says what is to be done about it.
    pub fn settle(&mut self, out: Outcome<M, H>) -> (next: Option<Effect<M, F, H>>)
        requires
            old(self).wf(),
        ensures
            final(self).wf(),
            settles(old(self)@, out, final(self)@, next),
    {
        match out {
            Outcome::Done => None,
            Outcome::Started(actor) => {
                self.table.insert(actor);
                None
            },
            Outcome::Lost(id) => {
                self.table.remove(&id);
                Some(Effect::Reject(Error::NoSuchActor(id)))
            },
        }
    }

    /// Has the effects of `todo` done, one after the other.
    ///
    /// `act` does one effect. It is handed what its last call left, and `start` at first: no
    /// effect can come out of turn, or twice, or unasked.
    pub fn carry_out<W, A: Fn(W, Effect<M, F, H>) -> (W, Outcome<M, H>)>(
        &mut self,
        todo: Vec<Effect<M, F, H>>,
        start: W,
        act: &A,
    ) -> (end: W)
        requires
            old(self).wf(),
            forall|world: W, effect: Effect<M, F, H>| call_requires(*act, (world, effect)),
        ensures
            final(self).wf(),
            carries_out(old(self)@, todo@, start, *act, final(self)@, end),
    {
        let ghost pre = self@;
        let mut world = start;
        for effect in it: todo
            invariant
                self.wf(),
                old(self)@ == pre,
                it.seq() == todo@,
                carries_out(pre, todo@.take(it.index()), start, *act, self@, world),
                forall|world: W, effect: Effect<M, F, H>| call_requires(*act, (world, effect)),
        {
            let ghost mid = self@;
            let ghost then = world;
            let (next, out) = act(world, effect);
            let more = self.settle(out);
            assert(settles(mid, out, self@, more));
            world = match more {
                Some(more) => act(next, more).0,
                None => next,
            };
            proof {
                assert(carries_out_one(mid, effect, then, *act, self@, world));
                let done = todo@.take(it.index() + 1);
                assert(done.drop_last() =~= todo@.take(it.index()));
                assert(done.last() == effect);
            }
        }
        assert(todo@.take(todo@.len() as int) =~= todo@);
        world
    }

    /// Deals with one event, and says whether the router goes on: it does so after every event
    /// but a shutdown.
    ///
    /// The event is handed on as it is: what is done about it is what is decided, and no more.
    pub fn step<E: Incoming<M, F, H>, W, A: Fn(W, Effect<M, F, H>) -> (W, Outcome<M, H>)>(
        &mut self,
        event: E,
        start: W,
        act: &A,
    ) -> (res: (W, bool))
        requires
            old(self).wf(),
            forall|world: W, effect: Effect<M, F, H>| call_requires(*act, (world, effect)),
        ensures
            final(self).wf(),
            serves(old(self)@, event.event(), start, *act, final(self)@, res.0),
            res.1 == (event.event() != Event::<M, F>::Ctl(Ok(RouterCtl::Shutdown))),
    {
        let goes_on = event.goes_on();
        let todo = event.decided_by(self);
        (self.carry_out(todo, start, act), goes_on)
    }

    /// Deals with one event as a router does that has `start` to start threads with and `join`
    /// to wait for their end, and says whether it goes on. `note` is told of each effect before
    /// it is had.
    pub fn serve<
        E: Incoming<M, F, H>,
        S: Fn(Task<M, F>) -> H,
        J: Fn(H),
        N: Fn(&Effect<M, F, H>),
    >(
        &mut self,
        event: E,
        start: &S,
        join: &J,
        note: &N,
    ) -> (goes_on: bool)
        requires
            old(self).wf(),
            forall|task: Task<M, F>| call_requires(*start, (task,)),
            forall|handle: H| call_requires(*join, (handle,)),
            forall|effect: &Effect<M, F, H>| call_requires(*note, (effect,)),
        ensures
            final(self).wf(),
            exists|mid: RouterState<M, F, H>, todo: Seq<Effect<M, F, H>>| #[trigger]
                decides(old(self)@, event.event(), mid, todo) && performs(
                    mid,
                    todo,
                    *start,
                    *join,
                    *note,
                    final(self)@,
                ),
            goes_on == (event.event() != Event::<M, F>::Ctl(Ok(RouterCtl::Shutdown))),
    {
        let act = |_world: (), effect: Effect<M, F, H>| -> (res: ((), Outcome<M, H>))
            ensures
                effect.is_performed(*start, *join, res.1),
                call_ensures(*note, (&effect,), ()),
            {
                note(&effect);
                ((), effect.perform(start, join))
            };
        let ghost pre = self@;
        let (_end, goes_on) = self.step(event, (), &act);
        proof {
            let (mid, todo) = choose|mid: RouterState<M, F, H>, todo: Seq<Effect<M, F, H>>| #[trigger]
                decides(pre, event.event(), mid, todo) && carries_out(mid, todo, (), act, self@, ());
            lemma_performs(mid, todo, (), act, self@, (), *start, *join, *note);
        }
        goes_on
    }
}

} // verus!
