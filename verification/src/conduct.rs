//! How a router conducts itself: what it decides, does and answers, told of calls of its
//! functions by the channels they send on and the functions they call.
use crossbeam_channel::{Receiver, RecvError, SendError, Sender};
use vstd::prelude::*;

use crate::actor::{Actor, Task};
use crate::error::Error;
use crate::laws::{
    begins, is_honest, is_run, law_confirmed_stop_has_ended, law_others_untouched,
    law_spawn_starts_then_confirms, law_unknown_stop_is_unanswered, lists_each, moves, Move,
};
use crate::message::{ActorCtl, ActorStatus, RouterCtl, RouterRequest};
use crate::promises::{
    are_ends, are_sides, asked, handed, law_get, law_has, law_send, law_spawn, law_stop, put, says_no_actor,
    says_receive_failed, took,
};
use crate::router::Router;
use crate::service::{
    carries_out, decides, outcome_of_delivery, performs, serves, settles, Effect, Event, Inbox,
    Incoming, Outcome, RouterCore, RouterState, Seat,
};

verus! {

/// The effect was had by the one send or call that it stands for, and `out` is what came of it.
pub open spec fn was_had<M, F, H, S: Fn(Task<M, F>) -> H, J: Fn(H)>(
    effect: Effect<M, F, H>,
    start: S,
    join: J,
    out: Outcome<M, H>,
) -> bool {
    match effect {
        Effect::Deliver { id, to, val } => {
            ||| out is Done && put(to, val, true)
            ||| out == Outcome::<M, H>::Lost(id) && put(to, val, false)
        },
        Effect::Reject(_) => out is Done,
        Effect::Start { task, seat } => out matches Outcome::Started(actor) && actor.id == seat.id
            && actor.req == seat.req && actor.ctl == seat.ctl && call_ensures(
            start,
            (task,),
            actor.handle,
        ),
        Effect::Confirm(to) => out is Done && exists|ok: bool| put(to, (), ok),
        Effect::Answer { to, answer } => out is Done && exists|ok: bool| put(to, answer, ok),
        Effect::Tell { to, found } => out is Done && exists|ok: bool| put(to, found, ok),
        Effect::Stop { id: _, ctl } => out is Done && exists|ok: bool|
            put(ctl, ActorCtl::Stop, ok),
        Effect::Join(actor) => out is Done && call_ensures(join, (actor.handle,), ()),
        Effect::Release(_) => out is Done,
    }
}

/// To perform an effect is to send just what it says where it says, or to start or join just
/// the thread that it says.
pub proof fn law_perform<M, F, H, S: Fn(Task<M, F>) -> H, J: Fn(H)>(
    effect: Effect<M, F, H>,
    start: S,
    join: J,
    out: Outcome<M, H>,
)
    requires
        call_ensures(Effect::<M, F, H>::perform::<S, J>, (effect, &start, &join), out),
    ensures
        was_had(effect, start, join, out),
{
    lemma_had(effect, start, join, out);
}

/// An effect that was performed was had.
proof fn lemma_had<M, F, H, S: Fn(Task<M, F>) -> H, J: Fn(H)>(
    effect: Effect<M, F, H>,
    start: S,
    join: J,
    out: Outcome<M, H>,
)
    requires
        effect.is_performed(start, join, out),
    ensures
        was_had(effect, start, join, out),
{
    match effect {
        Effect::Deliver { id, to, val } => {
            let done = choose|done: Result<(), Error>| #[trigger]
                crate::channel::posted(to, val, done) && (out is Done <==> done is Ok);
            lemma_put(to, val, done);
        },
        Effect::Confirm(to) => {
            lemma_put(to, (), choose|done: Result<(), Error>| crate::channel::posted(to, (), done));
        },
        Effect::Answer { to, answer } => {
            let done = choose|done: Result<(), Error>| crate::channel::posted(to, answer, done);
            lemma_put(to, answer, done);
        },
        Effect::Tell { to, found } => {
            let done = choose|done: Result<(), Error>| crate::channel::posted(to, found, done);
            lemma_put(to, found, done);
        },
        Effect::Stop { id: _, ctl } => {
            let done = choose|done: Result<(), Error>|
                crate::channel::posted(ctl, ActorCtl::Stop, done);
            lemma_put(ctl, ActorCtl::Stop, done);
        },
        _ => {},
    }
}

/// What was posted was put.
proof fn lemma_put<T>(tx: Sender<T>, msg: T, out: Result<(), Error>)
    requires
        crate::channel::posted(tx, msg, out),
    ensures
        put(tx, msg, out is Ok),
{
    let res = choose|res: Result<(), SendError<T>>| #[trigger]
        crate::channel::sent(tx, msg, res) && crate::channel::is_delivery(res, out);
    assert(call_ensures(Sender::<T>::send, (&tx, msg), res));
}

/// An actor to which a message could not be sent is lost, and no other.
pub proof fn law_outcome_of_delivery<M, H>(
    id: String,
    done: Result<(), Error>,
    out: Outcome<M, H>,
)
    requires
        call_ensures(outcome_of_delivery::<M, H>, (id, done), out),
    ensures
        done is Ok ==> out is Done,
        done is Err ==> out == Outcome::<M, H>::Lost(id),
{
}

/// A request goes to the actor that it names and holds the value that it came with; one for an
/// actor that is not there is rejected. The router stays as it was.
pub proof fn law_decide_request<M, F, H>(
    core: &mut RouterCore<M, F, H>,
    request: RouterRequest<M>,
    todo: Vec<Effect<M, F, H>>,
)
    requires
        call_ensures(
            RouterCore::<M, F, H>::decide,
            (core, Event::Request(Ok(request))),
            todo,
        ),
    ensures
        final(core)@ == old(core)@,
        old(core)@.table.contains_key(request.id@) ==> todo@ == seq![
            Effect::<M, F, H>::Deliver {
                id: request.id,
                to: old(core)@.table[request.id@].req,
                val: request.val,
            },
        ],
        !old(core)@.table.contains_key(request.id@) ==> todo@ == seq![
            Effect::<M, F, H>::Reject(Error::NoSuchActor(request.id)),
        ],
{
}

/// A request to spawn leads to the start of just that actor and then to its confirmation, and
/// to nothing else.
pub proof fn law_decide_spawn<M, F, H>(
    core: &mut RouterCore<M, F, H>,
    id: String,
    f: F,
    resp: Sender<()>,
    todo: Vec<Effect<M, F, H>>,
) -> (sides: (Task<M, F>, Seat<M>))
    requires
        call_ensures(
            RouterCore::<M, F, H>::decide,
            (core, Event::Ctl(Ok(RouterCtl::Spawn { id, f, resp }))),
            todo,
        ),
    ensures
        final(core)@ == old(core)@,
        are_sides(old(core)@, id@, f, sides.0, sides.1),
        todo@ == seq![
            Effect::<M, F, H>::Start { task: sides.0, seat: sides.1 },
            Effect::<M, F, H>::Confirm(resp),
        ],
{
    choose|task: Task<M, F>, seat: Seat<M>| #[trigger]
        crate::service::is_new_actor(old(core)@, id@, f, task, seat) && todo@ == seq![
            Effect::<M, F, H>::Start { task, seat },
            Effect::<M, F, H>::Confirm(resp),
        ]
}

/// A request for a channel leads to one answer: the request channel of the actor of that ID, or
/// that there is none.
pub proof fn law_decide_get<M, F, H>(
    core: &mut RouterCore<M, F, H>,
    id: String,
    resp: Sender<Result<Sender<M>, Error>>,
    todo: Vec<Effect<M, F, H>>,
)
    requires
        call_ensures(
            RouterCore::<M, F, H>::decide,
            (core, Event::Ctl(Ok(RouterCtl::Get { id, resp }))),
            todo,
        ),
    ensures
        final(core)@ == old(core)@,
        old(core)@.table.contains_key(id@) ==> todo@ == seq![
            Effect::<M, F, H>::Answer { to: resp, answer: Ok(old(core)@.table[id@].req) },
        ],
        !old(core)@.table.contains_key(id@) ==> todo@ == seq![
            Effect::<M, F, H>::Answer { to: resp, answer: Err(Error::NoSuchActor(id)) },
        ],
{
}

/// A question after an actor leads to one answer: whether the actor is there.
pub proof fn law_decide_has<M, F, H>(
    core: &mut RouterCore<M, F, H>,
    id: String,
    resp: Sender<bool>,
    todo: Vec<Effect<M, F, H>>,
)
    requires
        call_ensures(
            RouterCore::<M, F, H>::decide,
            (core, Event::Ctl(Ok(RouterCtl::Has { id, resp }))),
            todo,
        ),
    ensures
        final(core)@ == old(core)@,
        todo@ == seq![
            Effect::<M, F, H>::Tell { to: resp, found: old(core)@.table.contains_key(id@) },
        ],
{
}

/// A request to stop an actor takes it out, and leads to its being told, to the wait for its end
/// and to the confirmation, in this order; where there is no such actor, to nothing.
pub proof fn law_decide_stop<M, F, H>(
    core: &mut RouterCore<M, F, H>,
    id: String,
    resp: Sender<()>,
    todo: Vec<Effect<M, F, H>>,
)
    requires
        call_ensures(
            RouterCore::<M, F, H>::decide,
            (core, Event::Ctl(Ok(RouterCtl::StopActor { id, resp }))),
            todo,
        ),
    ensures
        final(core)@.table == old(core)@.table.remove(id@),
        final(core)@.req == old(core)@.req,
        final(core)@.ctl == old(core)@.ctl,
        final(core)@.stat == old(core)@.stat,
        old(core)@.table.contains_key(id@) ==> todo@ == seq![
            Effect::<M, F, H>::Stop {
                id: old(core)@.table[id@].id,
                ctl: old(core)@.table[id@].ctl,
            },
            Effect::<M, F, H>::Join(old(core)@.table[id@]),
            Effect::<M, F, H>::Confirm(resp),
        ],
        !old(core)@.table.contains_key(id@) ==> todo@.len() == 0,
{
}

/// A request to stop an actor without waiting takes it out, and leads to its being told and then
/// let go; where there is no such actor, to nothing.
pub proof fn law_decide_stop_async<M, F, H>(
    core: &mut RouterCore<M, F, H>,
    id: String,
    todo: Vec<Effect<M, F, H>>,
)
    requires
        call_ensures(
            RouterCore::<M, F, H>::decide,
            (core, Event::Ctl(Ok(RouterCtl::StopActorAsync(id)))),
            todo,
        ),
    ensures
        final(core)@.table == old(core)@.table.remove(id@),
        final(core)@.req == old(core)@.req,
        final(core)@.ctl == old(core)@.ctl,
        final(core)@.stat == old(core)@.stat,
        old(core)@.table.contains_key(id@) ==> todo@ == seq![
            Effect::<M, F, H>::Stop {
                id: old(core)@.table[id@].id,
                ctl: old(core)@.table[id@].ctl,
            },
            Effect::<M, F, H>::Release(old(core)@.table[id@]),
        ],
        !old(core)@.table.contains_key(id@) ==> todo@.len() == 0,
{
}

/// A shutdown takes all actors out, and leads to each of them being told and then waited for
/// before the next, once each, and to nothing else. `order` is their order.
pub proof fn law_decide_shutdown<M, F, H>(
    core: &mut RouterCore<M, F, H>,
    todo: Vec<Effect<M, F, H>>,
) -> (order: Seq<Seq<char>>)
    requires
        call_ensures(
            RouterCore::<M, F, H>::decide,
            (core, Event::Ctl(Ok(RouterCtl::Shutdown))),
            todo,
        ),
    ensures
        final(core)@.table == Map::<Seq<char>, Actor<M, H>>::empty(),
        final(core)@.req == old(core)@.req,
        final(core)@.ctl == old(core)@.ctl,
        final(core)@.stat == old(core)@.stat,
        lists_each(old(core)@.table, order),
        todo@.len() == 2 * order.len(),
        forall|k: int|
            0 <= k < order.len() ==> {
                let actor = old(core)@.table[#[trigger] order[k]];
                &&& todo@[2 * k] == Effect::<M, F, H>::Stop { id: actor.id, ctl: actor.ctl }
                &&& todo@[2 * k + 1] == Effect::<M, F, H>::Join(actor)
            },
{
    let pre = old(core)@;
    let post = pre.with_table(Map::empty());
    assert(final(core)@ == post);
    crate::laws::law_shutdown_stops_each_once(pre, post, todo@)
}

/// The notice of an actor's end takes it out, and leads to nothing.
pub proof fn law_decide_status<M, F, H>(
    core: &mut RouterCore<M, F, H>,
    status: ActorStatus,
    todo: Vec<Effect<M, F, H>>,
)
    requires
        call_ensures(
            RouterCore::<M, F, H>::decide,
            (core, Event::Status(Ok(status))),
            todo,
        ),
    ensures
        todo@.len() == 0,
        final(core)@.req == old(core)@.req,
        final(core)@.ctl == old(core)@.ctl,
        final(core)@.stat == old(core)@.stat,
        status matches ActorStatus::Stopped(id) ==> final(core)@.table == old(core)@.table.remove(
            id@,
        ),
        status matches ActorStatus::Paniced(id) ==> final(core)@.table == old(core)@.table.remove(
            id@,
        ),
{
}

/// A failure to receive is noted, and leaves the router as it was.
pub proof fn law_decide_failure<M, F, H>(
    core: &mut RouterCore<M, F, H>,
    event: Event<M, F>,
    todo: Vec<Effect<M, F, H>>,
)
    requires
        call_ensures(RouterCore::<M, F, H>::decide, (core, event), todo),
        ({
            ||| event matches Event::Request(Err(_))
            ||| event matches Event::Ctl(Err(_))
            ||| event matches Event::Status(Err(_))
        }),
    ensures
        final(core)@ == old(core)@,
        todo@.len() == 1,
        todo@[0] matches Effect::Reject(e) && says_receive_failed(e),
{
}

/// Of an outcome the router keeps a new actor, under its ID, and drops a lost one, which it
/// rejects; of any other it keeps nothing.
pub proof fn law_settle<M, F, H>(
    core: &mut RouterCore<M, F, H>,
    out: Outcome<M, H>,
    next: Option<Effect<M, F, H>>,
)
    requires
        call_ensures(RouterCore::<M, F, H>::settle, (core, out), next),
    ensures
        final(core)@.req == old(core)@.req,
        final(core)@.ctl == old(core)@.ctl,
        final(core)@.stat == old(core)@.stat,
        out is Done ==> final(core)@.table == old(core)@.table && next is None,
        out matches Outcome::Started(actor) ==> final(core)@.table == old(core)@.table.insert(
            actor.id@,
            actor,
        ) && next is None,
        out matches Outcome::Lost(id) ==> final(core)@.table == old(core)@.table.remove(id@)
            && next == Some(Effect::<M, F, H>::Reject(Error::NoSuchActor(id))),
{
}

/// The table that an outcome leaves of `table`.
pub open spec fn table_after<M, H>(
    table: Map<Seq<char>, Actor<M, H>>,
    out: Outcome<M, H>,
) -> Map<Seq<char>, Actor<M, H>> {
    match out {
        Outcome::Done => table,
        Outcome::Started(actor) => table.insert(actor.id@, actor),
        Outcome::Lost(id) => table.remove(id@),
    }
}

/// What the steps of carrying out a list were: the worlds before each effect and after the last,
/// the worlds after each effect itself, the outcomes, and the tables.
#[verifier::reject_recursive_types(M)]
#[verifier::reject_recursive_types(H)]
#[verifier::reject_recursive_types(W)]
pub ghost struct Steps<M, H, W> {
    pub worlds: Seq<W>,
    pub thens: Seq<W>,
    pub outs: Seq<Outcome<M, H>>,
    pub tables: Seq<Map<Seq<char>, Actor<M, H>>>,
}

/// The effects of `todo` were acted on in order, each once and in the world that the one before
/// it left; nothing else was acted on but the rejection of a message whose actor was lost, right
/// after its delivery failed.
pub open spec fn acted_in_order<M, F, H, W, A: Fn(W, Effect<M, F, H>) -> (W, Outcome<M, H>)>(
    todo: Seq<Effect<M, F, H>>,
    act: A,
    steps: Steps<M, H, W>,
) -> bool {
    &&& steps.worlds.len() == todo.len() + 1
    &&& steps.tables.len() == todo.len() + 1
    &&& steps.thens.len() == todo.len()
    &&& steps.outs.len() == todo.len()
    &&& forall|i: int| 0 <= i < todo.len() ==> #[trigger] acted_at(todo, act, steps, i)
}

/// How the effect at `i` was acted on.
pub open spec fn acted_at<M, F, H, W, A: Fn(W, Effect<M, F, H>) -> (W, Outcome<M, H>)>(
    todo: Seq<Effect<M, F, H>>,
    act: A,
    steps: Steps<M, H, W>,
    i: int,
) -> bool {
    &&& call_ensures(act, (steps.worlds[i], todo[i]), (steps.thens[i], steps.outs[i]))
    &&& steps.tables[i + 1] == table_after(steps.tables[i], steps.outs[i])
    &&& match steps.outs[i] {
        Outcome::Lost(id) => exists|last: Outcome<M, H>| #[trigger]
            call_ensures(
                act,
                (steps.thens[i], Effect::Reject(Error::NoSuchActor(id))),
                (steps.worlds[i + 1], last),
            ),
        _ => steps.worlds[i + 1] == steps.thens[i],
    }
}

/// To carry a list out is to act on its effects in order.
pub proof fn law_carry_out<M, F, H, W, A: Fn(W, Effect<M, F, H>) -> (W, Outcome<M, H>)>(
    core: &mut RouterCore<M, F, H>,
    todo: Vec<Effect<M, F, H>>,
    start: W,
    act: A,
    end: W,
)
    requires
        call_ensures(
            RouterCore::<M, F, H>::carry_out::<W, A>,
            (core, todo, start, &act),
            end,
        ),
    ensures
        exists|steps: Steps<M, H, W>|
            {
                &&& #[trigger] acted_in_order(todo@, act, steps)
                &&& steps.worlds[0] == start
                &&& steps.worlds.last() == end
                &&& steps.tables[0] == old(core)@.table
                &&& steps.tables.last() == final(core)@.table
            },
{
    let steps = lemma_acted_in_order(old(core)@, todo@, start, act, final(core)@, end);
    assert(acted_in_order(todo@, act, steps));
}

/// What was carried out was acted on in order.
proof fn lemma_acted_in_order<M, F, H, W, A: Fn(W, Effect<M, F, H>) -> (W, Outcome<M, H>)>(
    pre: RouterState<M, F, H>,
    todo: Seq<Effect<M, F, H>>,
    start: W,
    act: A,
    post: RouterState<M, F, H>,
    end: W,
) -> (steps: Steps<M, H, W>)
    requires
        carries_out(pre, todo, start, act, post, end),
    ensures
        acted_in_order(todo, act, steps),
        steps.worlds[0] == start,
        steps.worlds.last() == end,
        steps.tables[0] == pre.table,
        steps.tables.last() == post.table,
    decreases todo.len(),
{
    if todo.len() == 0 {
        Steps {
            worlds: seq![start],
            thens: Seq::empty(),
            outs: Seq::empty(),
            tables: seq![pre.table],
        }
    } else {
        let before = todo.drop_last();
        let effect = todo.last();
        let (mid, world) = choose|mid: RouterState<M, F, H>, world: W| #[trigger]
            crate::service::carries_out_one(mid, effect, world, act, post, end) && carries_out(
                pre,
                before,
                start,
                act,
                mid,
                world,
            );
        let so_far = lemma_acted_in_order(pre, before, start, act, mid, world);
        let (then, out, next) = choose|then: W, out: Outcome<M, H>, next: Option<Effect<M, F, H>>|
            #![trigger call_ensures(act, (world, effect), (then, out)), settles(mid, out, post, next)]
            {
                &&& call_ensures(act, (world, effect), (then, out))
                &&& settles(mid, out, post, next)
                &&& match next {
                    Some(more) => exists|last: Outcome<M, H>| #[trigger]
                        call_ensures(act, (then, more), (end, last)),
                    None => end == then,
                }
            };
        let steps = Steps {
            worlds: so_far.worlds.push(end),
            thens: so_far.thens.push(then),
            outs: so_far.outs.push(out),
            tables: so_far.tables.push(post.table),
        };
        assert forall|i: int| 0 <= i < todo.len() implies #[trigger] acted_at(
            todo,
            act,
            steps,
            i,
        ) by {
            if i < before.len() {
                assert(acted_at(before, act, so_far, i));
                assert(before[i] == todo[i]);
                if let Outcome::Lost(id) = so_far.outs[i] {
                    let last = choose|last: Outcome<M, H>| #[trigger]
                        call_ensures(
                            act,
                            (so_far.thens[i], Effect::Reject(Error::NoSuchActor(id))),
                            (so_far.worlds[i + 1], last),
                        );
                    assert(call_ensures(
                        act,
                        (steps.thens[i], Effect::Reject(Error::NoSuchActor(id))),
                        (steps.worlds[i + 1], last),
                    ));
                }
            } else {
                assert(steps.worlds[i] == world && steps.worlds[i + 1] == end);
                assert(steps.tables[i] == mid.table);
                if let Some(more) = next {
                    let last = choose|last: Outcome<M, H>| #[trigger]
                        call_ensures(act, (then, more), (end, last));
                    assert(call_ensures(
                        act,
                        (steps.thens[i], more),
                        (steps.worlds[i + 1], last),
                    ));
                }
            }
        }
        steps
    }
}

/// To deal with an event is to decide on it, as `decide` does, and to act on what was decided, in
/// order; the router goes on after all but a shutdown.
pub proof fn law_step<M, F, H, W, A: Fn(W, Effect<M, F, H>) -> (W, Outcome<M, H>)>(
    core: &mut RouterCore<M, F, H>,
    event: Event<M, F>,
    start: W,
    act: A,
    res: (W, bool),
)
    requires
        call_ensures(
            RouterCore::<M, F, H>::step::<Event<M, F>, W, A>,
            (core, event, start, &act),
            res,
        ),
    ensures
        serves(old(core)@, event, start, act, final(core)@, res.0),
        exists|mid: RouterState<M, F, H>, todo: Seq<Effect<M, F, H>>, steps: Steps<M, H, W>|
            #![trigger decides(old(core)@, event, mid, todo), acted_in_order(todo, act, steps)]
            {
                &&& decides(old(core)@, event, mid, todo)
                &&& acted_in_order(todo, act, steps)
                &&& steps.worlds[0] == start
                &&& steps.worlds.last() == res.0
                &&& steps.tables[0] == mid.table
                &&& steps.tables.last() == final(core)@.table
            },
        res.1 <==> !(event matches Event::Ctl(Ok(RouterCtl::Shutdown))),
{
    let (mid, todo) = choose|mid: RouterState<M, F, H>, todo: Seq<Effect<M, F, H>>| #[trigger]
        decides(old(core)@, event, mid, todo) && carries_out(
            mid,
            todo,
            start,
            act,
            final(core)@,
            res.0,
        );
    let steps = lemma_acted_in_order(mid, todo, start, act, final(core)@, res.0);
    assert(decides(old(core)@, event, mid, todo) && acted_in_order(todo, act, steps));
}

/// When a router serves an event, every effect that is decided on is had, and noted.
pub proof fn law_serve<
    M,
    F,
    H,
    S: Fn(Task<M, F>) -> H,
    J: Fn(H),
    N: Fn(&Effect<M, F, H>),
>(
    core: &mut RouterCore<M, F, H>,
    event: Event<M, F>,
    start: S,
    join: J,
    note: N,
    goes_on: bool,
)
    requires
        call_ensures(
            RouterCore::<M, F, H>::serve::<Event<M, F>, S, J, N>,
            (core, event, &start, &join, &note),
            goes_on,
        ),
    ensures
        exists|mid: RouterState<M, F, H>, todo: Seq<Effect<M, F, H>>, outs: Seq<Outcome<M, H>>|
            #![trigger decides(old(core)@, event, mid, todo), all_had(todo, start, join, note, outs)]
            {
                &&& decides(old(core)@, event, mid, todo)
                &&& all_had(todo, start, join, note, outs)
                &&& final(core)@.table == tables_after(mid.table, outs)
            },
        goes_on <==> !(event matches Event::Ctl(Ok(RouterCtl::Shutdown))),
{
    let (mid, todo) = choose|mid: RouterState<M, F, H>, todo: Seq<Effect<M, F, H>>| #[trigger]
        decides(old(core)@, event, mid, todo) && performs(
            mid,
            todo,
            start,
            join,
            note,
            final(core)@,
        );
    let outs = lemma_all_had(mid, todo, start, join, note, final(core)@);
    assert(decides(old(core)@, event, mid, todo) && all_had(todo, start, join, note, outs));
}

/// All effects of `todo` were had and noted, with the outcomes `outs`.
pub open spec fn all_had<
    M,
    F,
    H,
    S: Fn(Task<M, F>) -> H,
    J: Fn(H),
    N: Fn(&Effect<M, F, H>),
>(
    todo: Seq<Effect<M, F, H>>,
    start: S,
    join: J,
    note: N,
    outs: Seq<Outcome<M, H>>,
) -> bool {
    &&& outs.len() == todo.len()
    &&& forall|i: int|
        0 <= i < todo.len() ==> was_had(#[trigger] todo[i], start, join, outs[i])
            && call_ensures(note, (&todo[i],), ())
}

/// The table that outcomes leave, one after the other.
pub open spec fn tables_after<M, H>(
    table: Map<Seq<char>, Actor<M, H>>,
    outs: Seq<Outcome<M, H>>,
) -> Map<Seq<char>, Actor<M, H>>
    decreases outs.len(),
{
    if outs.len() == 0 {
        table
    } else {
        table_after(tables_after(table, outs.drop_last()), outs.last())
    }
}

/// Effects that were performed were all had.
proof fn lemma_all_had<
    M,
    F,
    H,
    S: Fn(Task<M, F>) -> H,
    J: Fn(H),
    N: Fn(&Effect<M, F, H>),
>(
    pre: RouterState<M, F, H>,
    todo: Seq<Effect<M, F, H>>,
    start: S,
    join: J,
    note: N,
    post: RouterState<M, F, H>,
) -> (outs: Seq<Outcome<M, H>>)
    requires
        performs(pre, todo, start, join, note, post),
    ensures
        all_had(todo, start, join, note, outs),
        post.table == tables_after(pre.table, outs),
    decreases todo.len(),
{
    if todo.len() == 0 {
        Seq::empty()
    } else {
        let before = todo.drop_last();
        let (mid, out, next) = choose|
            mid: RouterState<M, F, H>,
            out: Outcome<M, H>,
            next: Option<Effect<M, F, H>>,
        |
            #![trigger todo.last().is_performed(start, join, out), settles(mid, out, post, next)]
            {
                &&& performs(pre, before, start, join, note, mid)
                &&& todo.last().is_performed(start, join, out)
                &&& settles(mid, out, post, next)
                &&& call_ensures(note, (&todo.last(),), ())
                &&& next matches Some(more) ==> call_ensures(note, (&more,), ())
            };
        lemma_had(todo.last(), start, join, out);
        let so_far = lemma_all_had(pre, before, start, join, note, mid);
        let outs = so_far.push(out);
        assert(outs.drop_last() =~= so_far);
        assert forall|i: int| 0 <= i < todo.len() implies was_had(
            #[trigger] todo[i],
            start,
            join,
            outs[i],
        ) && call_ensures(note, (&todo[i],), ()) by {
            if i < before.len() {
                assert(before[i] == todo[i]);
            }
        }
        outs
    }
}

/// A router that serves a request to stop an actor that it has tells that actor to stop, joins
/// its thread and confirms, and has the actor no longer; one that does not have it stays as it
/// was, and nothing at all is decided on.
pub proof fn law_serve_stop<
    M,
    F,
    H,
    S: Fn(Task<M, F>) -> H,
    J: Fn(H),
    N: Fn(&Effect<M, F, H>),
>(
    core: &mut RouterCore<M, F, H>,
    id: String,
    resp: Sender<()>,
    start: S,
    join: J,
    note: N,
    goes_on: bool,
)
    requires
        call_ensures(
            RouterCore::<M, F, H>::serve::<Event<M, F>, S, J, N>,
            (core, Event::Ctl(Ok(RouterCtl::StopActor { id, resp })), &start, &join, &note),
            goes_on,
        ),
    ensures
        goes_on,
        !final(core)@.table.contains_key(id@),
        final(core)@.table == old(core)@.table.remove(id@),
        old(core)@.table.contains_key(id@) ==> {
            let actor = old(core)@.table[id@];
            &&& exists|ok: bool| put(actor.ctl, ActorCtl::Stop, ok)
            &&& call_ensures(join, (actor.handle,), ())
            &&& exists|ok: bool| put(resp, (), ok)
        },
{
    let event = Event::<M, F>::Ctl(Ok(RouterCtl::StopActor { id, resp }));
    law_serve(core, event, start, join, note, goes_on);
    let (mid, todo, outs) = choose|
        mid: RouterState<M, F, H>,
        todo: Seq<Effect<M, F, H>>,
        outs: Seq<Outcome<M, H>>,
    |
        #![trigger decides(old(core)@, event, mid, todo), all_had(todo, start, join, note, outs)]
        {
            &&& decides(old(core)@, event, mid, todo)
            &&& all_had(todo, start, join, note, outs)
            &&& final(core)@.table == tables_after(mid.table, outs)
        };
    if old(core)@.table.contains_key(id@) {
        let actor = old(core)@.table[id@];
        assert(todo[0] == Effect::<M, F, H>::Stop { id: actor.id, ctl: actor.ctl });
        assert(todo[1] == Effect::<M, F, H>::Join(actor));
        assert(todo[2] == Effect::<M, F, H>::Confirm(resp));
        assert(outs[0] is Done && outs[1] is Done && outs[2] is Done);
        assert(outs.drop_last().drop_last().drop_last().len() == 0);
        reveal_with_fuel(tables_after, 4);
    }
}

/// A router that starts out has no actors, and its senders lead to its inbox.
pub proof fn law_open<M, F, H>(res: (RouterCore<M, F, H>, Inbox<M, F>))
    requires
        call_ensures(RouterCore::<M, F, H>::open, (), res),
    ensures
        res.0@.table == Map::<Seq<char>, Actor<M, H>>::empty(),
        are_ends(res.0@.req, res.1.req),
        are_ends(res.0@.ctl, res.1.ctl),
        are_ends(res.0@.stat, res.1.stat),
{
}

/// The senders that are handed out lead to the router itself.
pub proof fn law_senders<M, F, H>(
    core: RouterCore<M, F, H>,
    res: (Sender<RouterRequest<M>>, Sender<RouterCtl<M, F>>),
)
    requires
        call_ensures(RouterCore::<M, F, H>::senders, (&core,), res),
    ensures
        res.0 == core@.req,
        res.1 == core@.ctl,
{
}

/// A router that is run has the ID it is given, was started without actors, and is reached by
/// the handle: what is sent on its channels comes into the inbox that its thread listens on.
pub proof fn law_run<M, F, J, H, S: FnOnce(RouterCore<M, F, H>, Inbox<M, F>) -> J>(
    id: &str,
    start: S,
    router: Router<M, F, J>,
) -> (begun: (RouterCore<M, F, H>, Inbox<M, F>))
    requires
        call_ensures(Router::<M, F, J>::run::<H, S>, (id, start), router),
    ensures
        router.id@ == id@,
        call_ensures(start, begun, router.handle),
        begun.0@.table == Map::<Seq<char>, Actor<M, H>>::empty(),
        are_ends(router.req, begun.1.req),
        are_ends(router.ctl, begun.1.ctl),
        begun.0@.req == router.req,
        begun.0@.ctl == router.ctl,
        are_ends(begun.0@.stat, begun.1.stat),
{
    choose|core: RouterCore<M, F, H>, inbox: Inbox<M, F>| #[trigger]
        router.reaches(core, inbox) && call_ensures(start, (core, inbox), router.handle)
}

/// Whatever is sent on `tx` is heard: no send on it fails.
pub open spec fn is_heard<C>(tx: Sender<C>) -> bool {
    forall|msg: C, res: Result<(), SendError<C>>| #[trigger]
        call_ensures(Sender::<C>::send, (&tx, msg), res) ==> res is Ok
}

/// Who asks on `ctl` after an actor takes what a router in `state` decides to tell.
pub open spec fn tells_of<M, F, H>(
    ctl: Sender<RouterCtl<M, F>>,
    state: RouterState<M, F, H>,
) -> bool {
    forall|name: String, resp: Sender<bool>, rx: Receiver<bool>, got: Result<bool, RecvError>|
        #![trigger put(ctl, RouterCtl::Has { id: name, resp }, true), took(rx, got)]
        are_ends(resp, rx) && put(ctl, RouterCtl::Has { id: name, resp }, true) && took(rx, got)
            ==> exists|
            post: RouterState<M, F, H>,
            todo: Seq<Effect<M, F, H>>,
            found: bool,
        |
            #![trigger decides(state, Event::Ctl(Ok(RouterCtl::Has { id: name, resp })), post, todo), todo.contains(Effect::Tell { to: resp, found })]
            {
                &&& decides(state, Event::Ctl(Ok(RouterCtl::Has { id: name, resp })), post, todo)
                &&& todo.contains(Effect::Tell { to: resp, found })
                &&& got == Ok::<bool, RecvError>(found)
            }
}

/// Who asks on `ctl` for the channel of an actor takes what a router in `state` decides to
/// answer.
pub open spec fn answers_of<M, F, H>(
    ctl: Sender<RouterCtl<M, F>>,
    state: RouterState<M, F, H>,
) -> bool {
    forall|
        name: String,
        resp: Sender<Result<Sender<M>, Error>>,
        rx: Receiver<Result<Sender<M>, Error>>,
        got: Result<Result<Sender<M>, Error>, RecvError>,
    |
        #![trigger put(ctl, RouterCtl::Get { id: name, resp }, true), took(rx, got)]
        are_ends(resp, rx) && put(ctl, RouterCtl::Get { id: name, resp }, true) && took(rx, got)
            ==> exists|
            post: RouterState<M, F, H>,
            todo: Seq<Effect<M, F, H>>,
            answer: Result<Sender<M>, Error>,
        |
            #![trigger decides(state, Event::Ctl(Ok(RouterCtl::Get { id: name, resp })), post, todo), todo.contains(Effect::Answer { to: resp, answer })]
            {
                &&& decides(state, Event::Ctl(Ok(RouterCtl::Get { id: name, resp })), post, todo)
                &&& todo.contains(Effect::Answer { to: resp, answer })
                &&& got == Ok::<Result<Sender<M>, Error>, RecvError>(answer)
            }
}

/// Who asks on `ctl` for an actor to be stopped takes a confirmation if and only if a router in
/// `state` decides to confirm.
pub open spec fn confirms_stops_of<M, F, H>(
    ctl: Sender<RouterCtl<M, F>>,
    state: RouterState<M, F, H>,
) -> bool {
    forall|name: String, resp: Sender<()>, rx: Receiver<()>, got: Result<(), RecvError>|
        #![trigger put(ctl, RouterCtl::StopActor { id: name, resp }, true), took(rx, got)]
        are_ends(resp, rx) && put(ctl, RouterCtl::StopActor { id: name, resp }, true) && took(
            rx,
            got,
        ) ==> exists|post: RouterState<M, F, H>, todo: Seq<Effect<M, F, H>>|
            {
                &&& #[trigger] decides(
                    state,
                    Event::Ctl(Ok(RouterCtl::StopActor { id: name, resp })),
                    post,
                    todo,
                )
                &&& got is Ok <==> todo.contains(Effect::Confirm(resp))
            }
}

/// Who asks on `ctl` for an actor to be spawned takes a confirmation if and only if a router in
/// `state` decides to confirm.
pub open spec fn confirms_spawns_of<M, F, H>(
    ctl: Sender<RouterCtl<M, F>>,
    state: RouterState<M, F, H>,
) -> bool {
    forall|name: String, f: F, resp: Sender<()>, rx: Receiver<()>, got: Result<(), RecvError>|
        #![trigger put(ctl, RouterCtl::Spawn { id: name, f, resp }, true), took(rx, got)]
        are_ends(resp, rx) && put(ctl, RouterCtl::Spawn { id: name, f, resp }, true) && took(
            rx,
            got,
        ) ==> exists|post: RouterState<M, F, H>, todo: Seq<Effect<M, F, H>>|
            {
                &&& #[trigger] decides(
                    state,
                    Event::Ctl(Ok(RouterCtl::Spawn { id: name, f, resp })),
                    post,
                    todo,
                )
                &&& got is Ok <==> todo.contains(Effect::Confirm(resp))
            }
}

/// Asked whether it has an actor, a router tells the truth: yes if the actor is in its table,
/// and no if it is not.
pub proof fn law_has_is_true<M, F, H, J>(
    router: Router<M, F, J>,
    id: &str,
    out: Result<bool, Error>,
    state: RouterState<M, F, H>,
)
    requires
        call_ensures(Router::<M, F, J>::has, (&router, id), out),
        is_heard(router.ctl),
        tells_of(router.ctl, state),
    ensures
        out == Ok::<bool, Error>(state.table.contains_key(id@)),
{
    let (name, resp, rx) = law_has(router, id, out);
    assert(!put(router.ctl, RouterCtl::<M, F>::Has { id: name, resp }, false));
    assert(put(router.ctl, RouterCtl::<M, F>::Has { id: name, resp }, true));
    if out is Ok {
        assert(took(rx, Ok(out->Ok_0)));
    }
}

/// Asked for the channel of an actor, a router that has the actor gives its request channel, and
/// one that has not says so.
pub proof fn law_get_is_true<M, F, H, J>(
    router: Router<M, F, J>,
    id: &str,
    out: Result<Sender<M>, Error>,
    state: RouterState<M, F, H>,
)
    requires
        call_ensures(Router::<M, F, J>::get, (&router, id), out),
        is_heard(router.ctl),
        answers_of(router.ctl, state),
    ensures
        state.table.contains_key(id@) ==> out == Ok::<Sender<M>, Error>(state.table[id@].req),
        !state.table.contains_key(id@) ==> out is Err && says_no_actor(out->Err_0, id@),
{
    let (name, resp, rx, reply) = law_get(router, id, out);
    lemma_answer(router.ctl, state, name, resp, rx, reply);
}

/// The answer to a question for a channel is the truth.
proof fn lemma_answer<M, F, H>(
    ctl: Sender<RouterCtl<M, F>>,
    state: RouterState<M, F, H>,
    name: String,
    resp: Sender<Result<Sender<M>, Error>>,
    rx: Receiver<Result<Sender<M>, Error>>,
    reply: Result<Result<Sender<M>, Error>, Error>,
)
    requires
        are_ends(resp, rx),
        asked(ctl, RouterCtl::Get { id: name, resp }, rx, reply),
        is_heard(ctl),
        answers_of(ctl, state),
    ensures
        reply is Ok,
        state.table.contains_key(name@) ==> reply->Ok_0 == Ok::<Sender<M>, Error>(
            state.table[name@].req,
        ),
        !state.table.contains_key(name@) ==> reply->Ok_0 == Err::<Sender<M>, Error>(
            Error::NoSuchActor(name),
        ),
{
    assert(!put(ctl, RouterCtl::<M, F>::Get { id: name, resp }, false));
    assert(put(ctl, RouterCtl::<M, F>::Get { id: name, resp }, true));
    if reply is Ok {
        assert(took(rx, Ok(reply->Ok_0)));
    }
}

/// Who sends a message to an actor that the router has puts a request with that ID and value on
/// its request channel, and is told of success if and only if that succeeded; who sends one to
/// an actor that it has not is told so.
pub proof fn law_send_is_true<M, F, H, J>(
    router: Router<M, F, J>,
    id: &str,
    msg: M,
    out: Result<(), Error>,
    state: RouterState<M, F, H>,
)
    requires
        call_ensures(Router::<M, F, J>::send, (&router, id, msg), out),
        is_heard(router.ctl),
        answers_of(router.ctl, state),
    ensures
        state.table.contains_key(id@) ==> exists|request: RouterRequest<M>|
            request.id@ == id@ && request.val == msg && #[trigger] handed(router.req, request, out),
        !state.table.contains_key(id@) ==> out is Err && says_no_actor(out->Err_0, id@),
{
    let (name, resp, rx, reply, request) = law_send(router, id, msg, out);
    lemma_answer(router.ctl, state, name, resp, rx, reply);
}

/// Who is told that a message was sent has had it put, under that ID and unchanged, on the
/// request channel of the router.
pub proof fn law_sent_is_put<M, F, J>(router: Router<M, F, J>, id: &str, msg: M, out: Result<(), Error>)
    requires
        call_ensures(Router::<M, F, J>::send, (&router, id, msg), out),
        out is Ok,
    ensures
        exists|request: RouterRequest<M>|
            request.id@ == id@ && request.val == msg && #[trigger] put(router.req, request, true),
{
    let (name, resp, rx, reply, request) = law_send(router, id, msg, out);
    assert(put(router.req, request, true));
}

/// To stop an actor succeeds if and only if the router has it; else the receive of the
/// confirmation fails.
pub proof fn law_stop_is_true<M, F, H, J>(
    router: Router<M, F, J>,
    id: &str,
    out: Result<(), Error>,
    state: RouterState<M, F, H>,
)
    requires
        call_ensures(Router::<M, F, J>::stop, (&router, id), out),
        is_heard(router.ctl),
        confirms_stops_of(router.ctl, state),
    ensures
        out is Ok <==> state.table.contains_key(id@),
        out matches Err(e) ==> says_receive_failed(e),
{
    let (name, resp, rx) = law_stop(router, id, out);
    let msg = RouterCtl::<M, F>::StopActor { id: name, resp };
    assert(!put(router.ctl, msg, false));
    assert(put(router.ctl, msg, true));
    let got = if out is Ok {
        Ok(out->Ok_0)
    } else {
        Err(choose|e: RecvError| #[trigger] took(rx, Err(e)))
    };
    assert(took(rx, got));
    let (post, todo) = choose|post: RouterState<M, F, H>, todo: Seq<Effect<M, F, H>>|
        {
            &&& #[trigger] decides(state, Event::Ctl(Ok(msg)), post, todo)
            &&& got is Ok <==> todo.contains(Effect::Confirm(resp))
        };
    if state.table.contains_key(id@) {
        assert(todo[2] == Effect::<M, F, H>::Confirm(resp));
    }
}

/// To spawn an actor succeeds where the router is there to do it.
pub proof fn law_spawn_is_confirmed<M, F, H, J>(
    router: Router<M, F, J>,
    id: &str,
    f: F,
    out: Result<(), Error>,
    state: RouterState<M, F, H>,
)
    requires
        call_ensures(Router::<M, F, J>::spawn, (&router, id, f), out),
        is_heard(router.ctl),
        confirms_spawns_of(router.ctl, state),
    ensures
        out is Ok,
{
    let (name, resp, rx) = law_spawn(router, id, f, out);
    let msg = RouterCtl::<M, F>::Spawn { id: name, f, resp };
    assert(!put(router.ctl, msg, false));
    assert(put(router.ctl, msg, true));
    if out is Err {
        let got = Err::<(), RecvError>(choose|e: RecvError| #[trigger] took(rx, Err(e)));
        assert(took(rx, got));
        let (post, todo) = choose|post: RouterState<M, F, H>, todo: Seq<Effect<M, F, H>>|
            {
                &&& #[trigger] decides(state, Event::Ctl(Ok(msg)), post, todo)
                &&& got is Ok <==> todo.contains(Effect::Confirm(resp))
            };
        assert(todo[1] == Effect::<M, F, H>::Confirm(resp));
    }
}

/// An actor that was spawned with success is there: once the router has dealt with the request,
/// and until something ends the actor, who asks after it is told yes.
pub proof fn law_spawned_actor_is_there<
    M,
    F,
    H,
    J,
    W,
    A: Fn(W, Effect<M, F, H>) -> (W, Outcome<M, H>),
>(
    router: Router<M, F, J>,
    id: &str,
    f: F,
    out: Result<(), Error>,
    before: RouterState<M, F, H>,
    start: W,
    act: A,
    end: W,
    states: Seq<RouterState<M, F, H>>,
    run: Seq<Move<M, F, H>>,
    todos: Seq<Seq<Effect<M, F, H>>>,
    told: Result<bool, Error>,
)
    requires
        call_ensures(Router::<M, F, J>::spawn, (&router, id, f), out),
        out is Ok,
        is_honest(act),
        forall|name: String, resp: Sender<()>|
            name@ == id@ && #[trigger] put(router.ctl, RouterCtl::Spawn { id: name, f, resp }, true)
                ==> serves(
                before,
                Event::Ctl(Ok(RouterCtl::Spawn { id: name, f, resp })),
                start,
                act,
                states[0],
                end,
            ),
        is_run(states, run, todos),
        forall|j: int| 0 <= j < run.len() ==> !crate::laws::ends(#[trigger] run[j], id@),
        call_ensures(Router::<M, F, J>::has, (&router, id), told),
        is_heard(router.ctl),
        tells_of(router.ctl, states.last()),
    ensures
        told == Ok::<bool, Error>(true),
{
    let (name, resp, rx) = law_spawn(router, id, f, out);
    assert(put(router.ctl, RouterCtl::<M, F>::Spawn { id: name, f, resp }, true));
    let begun = law_spawn_starts_then_confirms(before, name, f, resp, start, act, states[0], end);
    lemma_stays(states, run, todos, id@);
    law_has_is_true(router, id, told, states.last());
}

/// An actor that was stopped is gone: once the router has dealt with the request, and until one
/// of its ID is started, who asks after it is told no.
pub proof fn law_stopped_actor_is_gone<
    M,
    F,
    H,
    J,
    W,
    A: Fn(W, Effect<M, F, H>) -> (W, Outcome<M, H>),
>(
    router: Router<M, F, J>,
    id: &str,
    out: Result<(), Error>,
    before: RouterState<M, F, H>,
    start: W,
    act: A,
    end: W,
    states: Seq<RouterState<M, F, H>>,
    run: Seq<Move<M, F, H>>,
    todos: Seq<Seq<Effect<M, F, H>>>,
    told: Result<bool, Error>,
)
    requires
        call_ensures(Router::<M, F, J>::stop, (&router, id), out),
        out is Ok,
        is_honest(act),
        forall|name: String, resp: Sender<()>|
            name@ == id@ && #[trigger] put(
                router.ctl,
                RouterCtl::StopActor { id: name, resp },
                true,
            ) ==> serves(
                before,
                Event::Ctl(Ok(RouterCtl::StopActor { id: name, resp })),
                start,
                act,
                states[0],
                end,
            ),
        is_run(states, run, todos),
        forall|j: int| 0 <= j < run.len() ==> !begins(#[trigger] run[j], id@),
        call_ensures(Router::<M, F, J>::has, (&router, id), told),
        is_heard(router.ctl),
        tells_of(router.ctl, states.last()),
    ensures
        told == Ok::<bool, Error>(false),
{
    let (name, resp, rx) = law_stop(router, id, out);
    assert(put(router.ctl, RouterCtl::<M, F>::StopActor { id: name, resp }, true));
    if before.table.contains_key(id@) {
        let done = law_confirmed_stop_has_ended(before, name, resp, start, act, states[0], end);
    } else {
        law_unknown_stop_is_unanswered(before, name, resp, start, act, states[0], end);
    }
    lemma_stays_out(states, run, todos, id@);
    law_has_is_true(router, id, told, states.last());
}

/// An actor that is there stays there until something ends it.
proof fn lemma_stays<M, F, H>(
    states: Seq<RouterState<M, F, H>>,
    run: Seq<Move<M, F, H>>,
    todos: Seq<Seq<Effect<M, F, H>>>,
    id: Seq<char>,
)
    requires
        is_run(states, run, todos),
        states[0].table.contains_key(id),
        forall|j: int| 0 <= j < run.len() ==> !crate::laws::ends(#[trigger] run[j], id),
    ensures
        states.last().table.contains_key(id),
    decreases run.len(),
{
    if run.len() > 0 {
        let n = run.len() - 1;
        let before = run.drop_last();
        lemma_is_run_before(states, run, todos);
        assert forall|j: int| 0 <= j < n implies !crate::laws::ends(#[trigger] before[j], id) by {
            assert(before[j] == run[j]);
        }
        lemma_stays(states.drop_last(), before, todos.drop_last(), id);
        assert(moves(states[n], run[n], states[n + 1], todos[n]));
        if !begins(run[n], id) {
            law_others_untouched(states[n], run[n], states[n + 1], todos[n], id);
        }
    }
}

/// An actor that is not there stays away until one of its ID is started.
proof fn lemma_stays_out<M, F, H>(
    states: Seq<RouterState<M, F, H>>,
    run: Seq<Move<M, F, H>>,
    todos: Seq<Seq<Effect<M, F, H>>>,
    id: Seq<char>,
)
    requires
        is_run(states, run, todos),
        !states[0].table.contains_key(id),
        forall|j: int| 0 <= j < run.len() ==> !begins(#[trigger] run[j], id),
    ensures
        !states.last().table.contains_key(id),
    decreases run.len(),
{
    if run.len() > 0 {
        let n = run.len() - 1;
        let before = run.drop_last();
        lemma_is_run_before(states, run, todos);
        assert forall|j: int| 0 <= j < n implies !begins(#[trigger] before[j], id) by {
            assert(before[j] == run[j]);
        }
        lemma_stays_out(states.drop_last(), before, todos.drop_last(), id);
        assert(moves(states[n], run[n], states[n + 1], todos[n]));
        if !crate::laws::ends(run[n], id) {
            law_others_untouched(states[n], run[n], states[n + 1], todos[n], id);
        }
    }
}

/// All but the last move of a run is a run.
proof fn lemma_is_run_before<M, F, H>(
    states: Seq<RouterState<M, F, H>>,
    run: Seq<Move<M, F, H>>,
    todos: Seq<Seq<Effect<M, F, H>>>,
)
    requires
        is_run(states, run, todos),
        run.len() > 0,
    ensures
        is_run(states.drop_last(), run.drop_last(), todos.drop_last()),
{
    let before = run.drop_last();
    assert forall|i: int| 0 <= i < before.len() implies moves(
        states.drop_last()[i],
        #[trigger] before[i],
        states.drop_last()[i + 1],
        todos.drop_last()[i],
    ) by {
        assert(before[i] == run[i]);
    }
}

} // verus!
