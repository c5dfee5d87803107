//! What holds of a router over one or more events.
use crossbeam_channel::{RecvError, Sender};
use vstd::prelude::*;

use crate::actor::{Actor, Task};
use crate::channel::{is_answer, is_channel};
use crate::client;
use crate::error::Error;
use crate::message::{ActorStatus, RouterCtl, RouterRequest};
use crate::promises::are_sides;
use crate::router::Router;
use crate::service::{
    carries_out, carries_out_one, decides, is_new_actor, request_todo, serves, settles,
    stop_and_join, stop_todo, Effect, Event, Inbox, Outcome, RouterCore, RouterState, Seat,
};

verus! {

/// What makes a router go over from one state to the next: it reads an event, or learns what
/// came of one of its effects.
#[verifier::reject_recursive_types(M)]
#[verifier::reject_recursive_types(F)]
#[verifier::reject_recursive_types(H)]
pub ghost enum Move<M, F, H> {
    Read(Event<M, F>),
    Learned(Outcome<M, H>),
}

/// The router goes over from `pre` to `post`, and `todo` is to be done.
pub open spec fn moves<M, F, H>(
    pre: RouterState<M, F, H>,
    mv: Move<M, F, H>,
    post: RouterState<M, F, H>,
    todo: Seq<Effect<M, F, H>>,
) -> bool {
    match mv {
        Move::Read(event) => decides(pre, event, post, todo),
        Move::Learned(out) => exists|next: Option<Effect<M, F, H>>| #[trigger]
            settles(pre, out, post, next) && todo == (match next {
                Some(effect) => seq![effect],
                None => Seq::empty(),
            }),
    }
}

/// A run of a router: going through `states` it made one move after the other, and decided on
/// `todos` on the way.
pub open spec fn is_run<M, F, H>(
    states: Seq<RouterState<M, F, H>>,
    run: Seq<Move<M, F, H>>,
    todos: Seq<Seq<Effect<M, F, H>>>,
) -> bool {
    &&& states.len() == run.len() + 1
    &&& todos.len() == run.len()
    &&& forall|i: int|
        0 <= i < run.len() ==> moves(states[i], #[trigger] run[i], states[i + 1], todos[i])
}

/// The ID of the actor that a status message is about.
pub open spec fn subject(status: ActorStatus) -> Seq<char> {
    match status {
        ActorStatus::Paniced(id) => id@,
        ActorStatus::Stopped(id) => id@,
    }
}

/// To send `Stop` on the control channel of `actor`.
pub open spec fn to_stop<M, F, H>(actor: Actor<M, H>) -> Effect<M, F, H> {
    Effect::Stop { id: actor.id, ctl: actor.ctl }
}

/// To join the thread of `actor`.
pub open spec fn to_join<M, F, H>(actor: Actor<M, H>) -> Effect<M, F, H> {
    Effect::Join(actor)
}

/// To let go of `actor` without a wait.
pub open spec fn to_release<M, F, H>(actor: Actor<M, H>) -> Effect<M, F, H> {
    Effect::Release(actor)
}

/// `order` holds every ID of the table, and no other, and none twice.
pub open spec fn lists_each<M, H>(
    table: Map<Seq<char>, Actor<M, H>>,
    order: Seq<Seq<char>>,
) -> bool {
    &&& forall|i: int, j: int| 0 <= i < j < order.len() ==> order[i] != order[j]
    &&& forall|i: int| 0 <= i < order.len() ==> table.contains_key(#[trigger] order[i])
    &&& forall|id: Seq<char>| #[trigger]
        table.contains_key(id) ==> exists|i: int| 0 <= i < order.len() && order[i] == id
}

/// An actor of ID `id` was started.
pub open spec fn begins<M, F, H>(mv: Move<M, F, H>, id: Seq<char>) -> bool {
    mv matches Move::Learned(Outcome::Started(actor)) && actor.id@ == id
}

/// The actor of ID `id` is to be stopped, alone or with all others, or is known to have
/// stopped, to have paniced or to receive no more messages.
pub open spec fn ends<M, F, H>(mv: Move<M, F, H>, id: Seq<char>) -> bool {
    match mv {
        Move::Read(Event::Ctl(Ok(RouterCtl::StopActor { id: name, .. }))) => name@ == id,
        Move::Read(Event::Ctl(Ok(RouterCtl::StopActorAsync(name)))) => name@ == id,
        Move::Read(Event::Ctl(Ok(RouterCtl::Shutdown))) => true,
        Move::Read(Event::Status(Ok(status))) => subject(status) == id,
        Move::Learned(Outcome::Lost(name)) => name@ == id,
        _ => false,
    }
}

/// The event asks the router something, or gives it a message to pass on.
pub open spec fn is_query<M, F>(event: Event<M, F>) -> bool {
    match event {
        Event::Request(_) => true,
        Event::Ctl(Ok(RouterCtl::Get { .. })) => true,
        Event::Ctl(Ok(RouterCtl::Has { .. })) => true,
        _ => false,
    }
}

/// The event names the actor of ID `id`.
pub open spec fn names<M, F>(event: Event<M, F>, id: Seq<char>) -> bool {
    match event {
        Event::Request(Ok(request)) => request.id@ == id,
        Event::Ctl(Ok(RouterCtl::Spawn { id: name, .. })) => name@ == id,
        Event::Ctl(Ok(RouterCtl::Get { id: name, .. })) => name@ == id,
        Event::Ctl(Ok(RouterCtl::Has { id: name, .. })) => name@ == id,
        Event::Ctl(Ok(RouterCtl::StopActor { id: name, .. })) => name@ == id,
        Event::Ctl(Ok(RouterCtl::StopActorAsync(name))) => name@ == id,
        Event::Status(Ok(status)) => subject(status) == id,
        _ => false,
    }
}

/// The effect is had on an actor that is there: something is sent to it, or it is waited for,
/// or let go.
pub open spec fn is_on_an_actor<M, F, H>(effect: Effect<M, F, H>) -> bool {
    effect is Deliver || effect is Stop || effect is Join || effect is Release
}

/// The effect is had on `actor`.
pub open spec fn is_on<M, F, H>(effect: Effect<M, F, H>, actor: Actor<M, H>) -> bool {
    match effect {
        Effect::Deliver { id, to, .. } => id@ == actor.id@ && to == actor.req,
        Effect::Stop { .. } => effect == to_stop::<M, F, H>(actor),
        Effect::Join(_) => effect == to_join::<M, F, H>(actor),
        Effect::Release(_) => effect == to_release::<M, F, H>(actor),
        _ => false,
    }
}

/// In `run`, the move at `at` begins an actor of ID `id`, and none after it begins another or
/// ends it.
pub open spec fn last_begun<M, F, H>(run: Seq<Move<M, F, H>>, id: Seq<char>, at: int) -> bool {
    &&& 0 <= at < run.len()
    &&& begins(run[at], id)
    &&& forall|j: int| at < j < run.len() ==> !begins(#[trigger] run[j], id) && !ends(run[j], id)
}

/// `act` says of an effect only what can have come of it, as `Effect::perform` does.
pub open spec fn is_honest<M, F, H, W, A: Fn(W, Effect<M, F, H>) -> (W, Outcome<M, H>)>(
    act: A,
) -> bool {
    forall|world: W, effect: Effect<M, F, H>, res: (W, Outcome<M, H>)| #[trigger]
        call_ensures(act, (world, effect), res) ==> effect.allows(res.1)
}

/// Every move leaves each actor under its own ID.
pub proof fn law_own_ids<M, F, H>(
    pre: RouterState<M, F, H>,
    mv: Move<M, F, H>,
    post: RouterState<M, F, H>,
    todo: Seq<Effect<M, F, H>>,
)
    requires
        pre.wf(),
        moves(pre, mv, post, todo),
    ensures
        post.wf(),
{
}

/// No move changes the channels through which the router is reached.
pub proof fn law_same_channels<M, F, H>(
    pre: RouterState<M, F, H>,
    mv: Move<M, F, H>,
    post: RouterState<M, F, H>,
    todo: Seq<Effect<M, F, H>>,
)
    requires
        moves(pre, mv, post, todo),
    ensures
        post.req == pre.req,
        post.ctl == pre.ctl,
        post.stat == pre.stat,
{
}

/// Questions and messages for actors leave the router as it was, and lead to one effect.
pub proof fn law_queries_change_nothing<M, F, H>(
    pre: RouterState<M, F, H>,
    event: Event<M, F>,
    post: RouterState<M, F, H>,
    todo: Seq<Effect<M, F, H>>,
)
    requires
        is_query(event),
        decides(pre, event, post, todo),
    ensures
        post == pre,
        todo.len() == 1,
{
}

/// A move that neither begins nor ends an actor of ID `id` leaves what the router holds under
/// that ID as it was.
pub proof fn law_others_untouched<M, F, H>(
    pre: RouterState<M, F, H>,
    mv: Move<M, F, H>,
    post: RouterState<M, F, H>,
    todo: Seq<Effect<M, F, H>>,
    id: Seq<char>,
)
    requires
        moves(pre, mv, post, todo),
        !begins(mv, id),
        !ends(mv, id),
    ensures
        post.table.contains_key(id) == pre.table.contains_key(id),
        pre.table.contains_key(id) ==> post.table[id] == pre.table[id],
{
}

/// Whatever reaches a router, but for a shutdown, has effects on no other actor than the one
/// that it names: nothing is sent to another, and no other is waited for or let go.
pub proof fn law_only_the_named_is_addressed<M, F, H>(
    pre: RouterState<M, F, H>,
    event: Event<M, F>,
    post: RouterState<M, F, H>,
    todo: Seq<Effect<M, F, H>>,
    i: int,
) -> (id: Seq<char>)
    requires
        pre.wf(),
        decides(pre, event, post, todo),
        event != Event::<M, F>::Ctl(Ok(RouterCtl::Shutdown)),
        0 <= i < todo.len(),
        is_on_an_actor(todo[i]),
    ensures
        names(event, id),
        pre.table.contains_key(id),
        is_on(todo[i], pre.table[id]),
        todo[i] is Deliver <==> event is Request,
{
    match event {
        Event::Request(Ok(request)) => request.id@,
        Event::Ctl(Ok(RouterCtl::StopActor { id, .. })) => id@,
        Event::Ctl(Ok(RouterCtl::StopActorAsync(id))) => id@,
        _ => arbitrary(),
    }
}

/// The notice of an actor's end leads to no effect at all.
pub proof fn law_status_has_no_effect<M, F, H>(
    pre: RouterState<M, F, H>,
    status: ActorStatus,
    post: RouterState<M, F, H>,
    todo: Seq<Effect<M, F, H>>,
)
    requires
        decides(pre, Event::Status(Ok(status)), post, todo),
    ensures
        todo.len() == 0,
        post.table == pre.table.remove(subject(status)),
{
}

/// An actor is stopped without waiting: of what is to be done, nothing waits. The actor is told
/// to stop before its channels are let go.
pub proof fn law_stop_async_does_not_wait<M, F, H>(
    pre: RouterState<M, F, H>,
    id: String,
    post: RouterState<M, F, H>,
    todo: Seq<Effect<M, F, H>>,
)
    requires
        decides(pre, Event::Ctl(Ok(RouterCtl::StopActorAsync(id))), post, todo),
    ensures
        forall|i: int| 0 <= i < todo.len() ==> !(#[trigger] todo[i] is Join),
        pre.table.contains_key(id@) ==> todo == seq![
            to_stop::<M, F, H>(pre.table[id@]),
            to_release::<M, F, H>(pre.table[id@]),
        ],
        !pre.table.contains_key(id@) ==> todo.len() == 0,
{
}

/// When a router deals with a request to spawn an actor, the actor is started, then entered in
/// place of any that had its ID before, and then that is confirmed, once. Nothing else is
/// done: one that had the ID before is neither told to stop nor waited for.
pub proof fn law_spawn_starts_then_confirms<
    M,
    F,
    H,
    W,
    A: Fn(W, Effect<M, F, H>) -> (W, Outcome<M, H>),
>(
    pre: RouterState<M, F, H>,
    id: String,
    f: F,
    resp: Sender<()>,
    start: W,
    act: A,
    post: RouterState<M, F, H>,
    end: W,
) -> (res: (Task<M, F>, Seat<M>, Actor<M, H>, W, Outcome<M, H>))
    requires
        serves(pre, Event::Ctl(Ok(RouterCtl::Spawn { id, f, resp })), start, act, post, end),
        is_honest(act),
    ensures
        ({
            let (task, seat, actor, then, last) = res;
            &&& are_sides(pre, id@, f, task, seat)
            &&& call_ensures(
                act,
                (start, Effect::Start { task, seat }),
                (then, Outcome::Started(actor)),
            )
            &&& actor.id == seat.id && actor.req == seat.req && actor.ctl == seat.ctl
            &&& post == pre.with_table(pre.table.insert(id@, actor))
            &&& call_ensures(act, (then, Effect::Confirm(resp)), (end, last))
        }),
{
    let (mid, todo) = choose|mid: RouterState<M, F, H>, todo: Seq<Effect<M, F, H>>| #[trigger]
        decides(pre, Event::Ctl(Ok(RouterCtl::Spawn { id, f, resp })), mid, todo) && carries_out(
            mid,
            todo,
            start,
            act,
            post,
            end,
        );
    let (task, seat) = choose|task: Task<M, F>, seat: Seat<M>| #[trigger]
        is_new_actor(pre, id@, f, task, seat) && todo == seq![
            Effect::<M, F, H>::Start { task, seat },
            Effect::<M, F, H>::Confirm(resp),
        ];
    let (entered, then) = lemma_last(mid, todo, start, act, post, end);
    let (before, first) = lemma_last(mid, todo.drop_last(), start, act, entered, then);
    assert(carries_out(mid, todo.drop_last().drop_last(), start, act, before, first));
    let out = lemma_outcome(before, Effect::Start { task, seat }, first, act, entered, then);
    let last = lemma_outcome(entered, Effect::Confirm(resp), then, act, post, end);
    (task, seat, out->Started_0, then, last)
}

/// When a router deals with a request to stop an actor that it has, the actor is told to stop,
/// then its thread is waited for, and then that is confirmed, each once and in this order: who
/// gets the confirmation knows that the actor has ended. The actor is no longer held.
pub proof fn law_confirmed_stop_has_ended<
    M,
    F,
    H,
    W,
    A: Fn(W, Effect<M, F, H>) -> (W, Outcome<M, H>),
>(
    pre: RouterState<M, F, H>,
    id: String,
    resp: Sender<()>,
    start: W,
    act: A,
    post: RouterState<M, F, H>,
    end: W,
) -> (res: (W, W, Outcome<M, H>, Outcome<M, H>, Outcome<M, H>))
    requires
        serves(pre, Event::Ctl(Ok(RouterCtl::StopActor { id, resp })), start, act, post, end),
        is_honest(act),
        pre.table.contains_key(id@),
    ensures
        ({
            let actor = pre.table[id@];
            let (told, joined, first, second, third) = res;
            &&& call_ensures(act, (start, to_stop::<M, F, H>(actor)), (told, first))
            &&& call_ensures(act, (told, to_join::<M, F, H>(actor)), (joined, second))
            &&& call_ensures(act, (joined, Effect::Confirm(resp)), (end, third))
            &&& post == pre.with_table(pre.table.remove(id@))
        }),
{
    let event = Event::<M, F>::Ctl(Ok(RouterCtl::StopActor { id, resp }));
    let (mid, todo) = choose|mid: RouterState<M, F, H>, todo: Seq<Effect<M, F, H>>| #[trigger]
        decides(pre, event, mid, todo) && carries_out(mid, todo, start, act, post, end);
    let actor = pre.table[id@];
    assert(todo == stop_todo(pre, id@, resp));
    let (s2, joined) = lemma_last(mid, todo, start, act, post, end);
    let (s1, told) = lemma_last(mid, todo.drop_last(), start, act, s2, joined);
    let (s0, begun) = lemma_last(mid, todo.drop_last().drop_last(), start, act, s1, told);
    assert(carries_out(mid, todo.drop_last().drop_last().drop_last(), start, act, s0, begun));
    let first = lemma_outcome(s0, to_stop::<M, F, H>(actor), begun, act, s1, told);
    let second = lemma_outcome(s1, to_join::<M, F, H>(actor), told, act, s2, joined);
    let third = lemma_outcome(s2, Effect::Confirm(resp), joined, act, post, end);
    (told, joined, first, second, third)
}

/// A request to stop an actor that the router does not have is left without an answer, and
/// nothing is done about it.
pub proof fn law_unknown_stop_is_unanswered<
    M,
    F,
    H,
    W,
    A: Fn(W, Effect<M, F, H>) -> (W, Outcome<M, H>),
>(
    pre: RouterState<M, F, H>,
    id: String,
    resp: Sender<()>,
    start: W,
    act: A,
    post: RouterState<M, F, H>,
    end: W,
)
    requires
        serves(pre, Event::Ctl(Ok(RouterCtl::StopActor { id, resp })), start, act, post, end),
        !pre.table.contains_key(id@),
    ensures
        post == pre,
        end == start,
{
    let event = Event::<M, F>::Ctl(Ok(RouterCtl::StopActor { id, resp }));
    let (mid, todo) = choose|mid: RouterState<M, F, H>, todo: Seq<Effect<M, F, H>>| #[trigger]
        decides(pre, event, mid, todo) && carries_out(mid, todo, start, act, post, end);
    assert(pre.table.remove(id@) =~= pre.table);
}

/// A request for an actor that the router has is delivered to it, once. Where the actor does
/// not receive any more, it is taken out, and the request is rejected: there is no such actor.
/// A request for any other is rejected likewise, and the router is left as it was.
pub proof fn law_request_is_delivered_or_rejected<
    M,
    F,
    H,
    W,
    A: Fn(W, Effect<M, F, H>) -> (W, Outcome<M, H>),
>(
    pre: RouterState<M, F, H>,
    request: RouterRequest<M>,
    start: W,
    act: A,
    post: RouterState<M, F, H>,
    end: W,
) -> (res: (W, Outcome<M, H>, Outcome<M, H>))
    requires
        serves(pre, Event::Request(Ok(request)), start, act, post, end),
        is_honest(act),
    ensures
        ({
            let RouterRequest { id, val } = request;
            let (then, out, last) = res;
            let reject = Effect::<M, F, H>::Reject(Error::NoSuchActor(id));
            if pre.table.contains_key(id@) {
                let deliver = Effect::<M, F, H>::Deliver { id, to: pre.table[id@].req, val };
                &&& call_ensures(act, (start, deliver), (then, out))
                &&& out is Done ==> post == pre && end == then
                &&& !(out is Done) ==> post == pre.with_table(pre.table.remove(id@))
                    && call_ensures(act, (then, reject), (end, last))
            } else {
                post == pre && call_ensures(act, (start, reject), (end, last))
            }
        }),
{
    let event = Event::<M, F>::Request(Ok(request));
    let (mid, todo) = choose|mid: RouterState<M, F, H>, todo: Seq<Effect<M, F, H>>| #[trigger]
        decides(pre, event, mid, todo) && carries_out(mid, todo, start, act, post, end);
    assert(todo == request_todo(pre, request));
    let (s0, begun) = lemma_last(mid, todo, start, act, post, end);
    assert(carries_out(mid, todo.drop_last(), start, act, s0, begun));
    let effect = todo.last();
    let (then, out, next) = choose|
        then: W,
        out: Outcome<M, H>,
        next: Option<Effect<M, F, H>>,
    |
        #![trigger call_ensures(act, (begun, effect), (then, out)), settles(s0, out, post, next)]
        {
            &&& call_ensures(act, (begun, effect), (then, out))
            &&& settles(s0, out, post, next)
            &&& match next {
                Some(more) => exists|last: Outcome<M, H>| #[trigger]
                    call_ensures(act, (then, more), (end, last)),
                None => end == then,
            }
        };
    assert(effect.allows(out));
    if let Some(more) = next {
        let last = choose|last: Outcome<M, H>| #[trigger]
            call_ensures(act, (then, more), (end, last));
        (then, out, last)
    } else {
        (then, out, out)
    }
}

/// The last of a list of effects was done after the others.
proof fn lemma_last<M, F, H, W, A: Fn(W, Effect<M, F, H>) -> (W, Outcome<M, H>)>(
    pre: RouterState<M, F, H>,
    todo: Seq<Effect<M, F, H>>,
    start: W,
    act: A,
    post: RouterState<M, F, H>,
    end: W,
) -> (res: (RouterState<M, F, H>, W))
    requires
        todo.len() > 0,
        carries_out(pre, todo, start, act, post, end),
    ensures
        carries_out_one(res.0, todo.last(), res.1, act, post, end),
        carries_out(pre, todo.drop_last(), start, act, res.0, res.1),
{
    choose|mid: RouterState<M, F, H>, then: W| #[trigger]
        carries_out_one(mid, todo.last(), then, act, post, end) && carries_out(
            pre,
            todo.drop_last(),
            start,
            act,
            mid,
            then,
        )
}

/// What came of an effect that is no delivery.
proof fn lemma_outcome<M, F, H, W, A: Fn(W, Effect<M, F, H>) -> (W, Outcome<M, H>)>(
    pre: RouterState<M, F, H>,
    effect: Effect<M, F, H>,
    start: W,
    act: A,
    post: RouterState<M, F, H>,
    end: W,
) -> (out: Outcome<M, H>)
    requires
        carries_out_one(pre, effect, start, act, post, end),
        is_honest(act),
        !(effect is Deliver),
    ensures
        call_ensures(act, (start, effect), (end, out)),
        effect.allows(out),
        settles(pre, out, post, None),
{
    let (then, out, next) = choose|
        then: W,
        out: Outcome<M, H>,
        next: Option<Effect<M, F, H>>,
    |
        #![trigger call_ensures(act, (start, effect), (then, out)), settles(pre, out, post, next)]
        {
            &&& call_ensures(act, (start, effect), (then, out))
            &&& settles(pre, out, post, next)
            &&& match next {
                Some(more) => exists|last: Outcome<M, H>| #[trigger]
                    call_ensures(act, (then, more), (end, last)),
                None => end == then,
            }
        };
    assert(effect.allows(out));
    out
}

/// What dealing with an event comes to is a run: the event is read, and then the outcome of one
/// effect after the other is learned, each an outcome that its effect can have.
pub proof fn law_serving_is_a_run<
    M,
    F,
    H,
    W,
    A: Fn(W, Effect<M, F, H>) -> (W, Outcome<M, H>),
>(
    pre: RouterState<M, F, H>,
    event: Event<M, F>,
    start: W,
    act: A,
    post: RouterState<M, F, H>,
    end: W,
) -> (res: (Seq<RouterState<M, F, H>>, Seq<Move<M, F, H>>, Seq<Seq<Effect<M, F, H>>>))
    requires
        serves(pre, event, start, act, post, end),
        is_honest(act),
    ensures
        ({
            let (states, run, todos) = res;
            &&& is_run(states, run, todos)
            &&& states[0] == pre
            &&& states.last() == post
            &&& run.len() == todos[0].len() + 1
            &&& run[0] == Move::<M, F, H>::Read(event)
            &&& forall|i: int|
                0 <= i < todos[0].len() ==> #[trigger] run[i + 1] is Learned
                    && todos[0][i].allows(run[i + 1]->Learned_0)
        }),
{
    let (mid, todo) = choose|mid: RouterState<M, F, H>, todo: Seq<Effect<M, F, H>>| #[trigger]
        decides(pre, event, mid, todo) && carries_out(mid, todo, start, act, post, end);
    let (after, rest, more) = lemma_carrying_out_is_a_run(mid, todo, start, act, post, end);
    let states = seq![pre] + after;
    let run = seq![Move::<M, F, H>::Read(event)] + rest;
    let todos = seq![todo] + more;
    assert forall|i: int| 0 <= i < run.len() implies moves(
        states[i],
        #[trigger] run[i],
        states[i + 1],
        todos[i],
    ) by {
        if i > 0 {
            assert(run[i] == rest[i - 1]);
        }
    }
    assert forall|i: int| 0 <= i < todos[0].len() implies #[trigger] run[i + 1] is Learned
        && todos[0][i].allows(run[i + 1]->Learned_0) by {
        assert(run[i + 1] == rest[i]);
    }
    (states, run, todos)
}

/// Carrying out a list of effects is a run.
proof fn lemma_carrying_out_is_a_run<
    M,
    F,
    H,
    W,
    A: Fn(W, Effect<M, F, H>) -> (W, Outcome<M, H>),
>(
    pre: RouterState<M, F, H>,
    todo: Seq<Effect<M, F, H>>,
    start: W,
    act: A,
    post: RouterState<M, F, H>,
    end: W,
) -> (res: (Seq<RouterState<M, F, H>>, Seq<Move<M, F, H>>, Seq<Seq<Effect<M, F, H>>>))
    requires
        carries_out(pre, todo, start, act, post, end),
        is_honest(act),
    ensures
        is_run(res.0, res.1, res.2),
        res.0[0] == pre,
        res.0.last() == post,
        res.1.len() == todo.len(),
        forall|i: int|
            0 <= i < todo.len() ==> #[trigger] res.1[i] is Learned && todo[i].allows(
                res.1[i]->Learned_0,
            ),
    decreases todo.len(),
{
    if todo.len() == 0 {
        (seq![pre], Seq::empty(), Seq::empty())
    } else {
        let (mid, then) = lemma_last(pre, todo, start, act, post, end);
        let before = todo.drop_last();
        let (states, run, todos) = lemma_carrying_out_is_a_run(pre, before, start, act, mid, then);
        let effect = todo.last();
        let (after, out, next) = choose|
            after: W,
            out: Outcome<M, H>,
            next: Option<Effect<M, F, H>>,
        |
            #![trigger call_ensures(act, (then, effect), (after, out)), settles(mid, out, post, next)]
            {
                &&& call_ensures(act, (then, effect), (after, out))
                &&& settles(mid, out, post, next)
                &&& match next {
                    Some(more) => exists|last: Outcome<M, H>| #[trigger]
                        call_ensures(act, (after, more), (end, last)),
                    None => end == after,
                }
            };
        let extra: Seq<Effect<M, F, H>> = match next {
            Some(more) => seq![more],
            None => Seq::empty(),
        };
        let mv = Move::<M, F, H>::Learned(out);
        assert(effect.allows(out));
        assert(settles(mid, out, post, next));
        assert(moves(mid, mv, post, extra));
        let res = (states.push(post), run.push(mv), todos.push(extra));
        assert forall|i: int| 0 <= i < res.1.len() implies moves(
            res.0[i],
            #[trigger] res.1[i],
            res.0[i + 1],
            res.2[i],
        ) by {
            if i < run.len() {
                assert(res.1[i] == run[i]);
            }
        }
        assert forall|i: int| 0 <= i < todo.len() implies #[trigger] res.1[i] is Learned
            && todo[i].allows(res.1[i]->Learned_0) by {
            if i < run.len() {
                assert(res.1[i] == run[i]);
                assert(before[i] == todo[i]);
            }
        }
        res
    }
}

/// A shutdown leaves no actor behind. Each actor that the router had is told to stop, once, and
/// then waited for, once, before the next; nothing else is done. `order` is the order in which
/// the actors come.
pub proof fn law_shutdown_stops_each_once<M, F, H>(
    pre: RouterState<M, F, H>,
    post: RouterState<M, F, H>,
    todo: Seq<Effect<M, F, H>>,
) -> (order: Seq<Seq<char>>)
    requires
        decides(pre, Event::Ctl(Ok(RouterCtl::Shutdown)), post, todo),
    ensures
        post.table == Map::<Seq<char>, Actor<M, H>>::empty(),
        lists_each(pre.table, order),
        todo.len() == 2 * order.len(),
        forall|k: int|
            0 <= k < order.len() ==> {
                &&& todo[2 * k] == to_stop::<M, F, H>(pre.table[#[trigger] order[k]])
                &&& todo[2 * k + 1] == to_join::<M, F, H>(pre.table[order[k]])
            },
{
    let order = choose|order: Seq<Seq<char>>| #[trigger]
        crate::service::lists(pre.table, order) && todo == stop_and_join::<M, F, H>(pre.table, order);
    lemma_stop_and_join::<M, F, H>(pre.table, order);
    assert forall|i: int| 0 <= i < order.len() implies pre.table.contains_key(
        #[trigger] order[i],
    ) by {
        assert(order.contains(order[i]));
    }
    assert forall|id: Seq<char>| #[trigger] pre.table.contains_key(id) implies exists|i: int|
        0 <= i < order.len() && order[i] == id by {
        assert(order.contains(id));
    }
    order
}

/// When a router deals with a shutdown, each actor that it had is told to stop, then waited for,
/// and only then comes the next, each once; nothing else is done, and no actor is held any more.
/// `order` is the order in which the actors come, and `worlds` are what the effects leave, one
/// after the other.
pub proof fn law_shutdown_waits_for_each_before_the_next<
    M,
    F,
    H,
    W,
    A: Fn(W, Effect<M, F, H>) -> (W, Outcome<M, H>),
>(
    pre: RouterState<M, F, H>,
    start: W,
    act: A,
    post: RouterState<M, F, H>,
    end: W,
) -> (res: (Seq<Seq<char>>, Seq<W>, Seq<Outcome<M, H>>))
    requires
        serves(pre, Event::Ctl(Ok(RouterCtl::Shutdown)), start, act, post, end),
        is_honest(act),
    ensures
        post == pre.with_table(Map::empty()),
        ({
            let (order, worlds, outs) = res;
            &&& lists_each(pre.table, order)
            &&& worlds.len() == 2 * order.len() + 1
            &&& worlds[0] == start
            &&& worlds.last() == end
            &&& forall|k: int|
                0 <= k < order.len() ==> {
                    let actor = pre.table[#[trigger] order[k]];
                    let told = worlds[2 * k + 1];
                    &&& call_ensures(
                        act,
                        (worlds[2 * k], to_stop::<M, F, H>(actor)),
                        (told, outs[2 * k]),
                    )
                    &&& call_ensures(
                        act,
                        (told, to_join::<M, F, H>(actor)),
                        (worlds[2 * k + 2], outs[2 * k + 1]),
                    )
                }
        }),
{
    let event = Event::<M, F>::Ctl(Ok(RouterCtl::Shutdown));
    let (mid, todo) = choose|mid: RouterState<M, F, H>, todo: Seq<Effect<M, F, H>>| #[trigger]
        decides(pre, event, mid, todo) && carries_out(mid, todo, start, act, post, end);
    let order = law_shutdown_stops_each_once(pre, mid, todo);
    assert forall|i: int| 0 <= i < todo.len() implies #[trigger] todo[i] is Stop
        || todo[i] is Join by {
        let k = i / 2;
        assert(order[k] == order[k]);
        assert(i == 2 * k || i == 2 * k + 1);
    }
    let (worlds, outs) = lemma_one_by_one(mid, todo, start, act, post, end);
    assert forall|k: int| 0 <= k < order.len() implies ({
        let actor = pre.table[#[trigger] order[k]];
        let told = worlds[2 * k + 1];
        &&& call_ensures(
            act,
            (worlds[2 * k], to_stop::<M, F, H>(actor)),
            (told, outs[2 * k]),
        )
        &&& call_ensures(
            act,
            (told, to_join::<M, F, H>(actor)),
            (worlds[2 * k + 2], outs[2 * k + 1]),
        )
    }) by {
        let i = 2 * k;
        assert(call_ensures(act, (worlds[i], todo[i]), (worlds[i + 1], outs[i])));
        let j = 2 * k + 1;
        assert(call_ensures(act, (worlds[j], todo[j]), (worlds[j + 1], outs[j])));
    }
    (order, worlds, outs)
}

/// Effects that tell actors to stop or wait for them were had one by one, each in the world that
/// the one before it left, and have left the router as it was.
proof fn lemma_one_by_one<M, F, H, W, A: Fn(W, Effect<M, F, H>) -> (W, Outcome<M, H>)>(
    pre: RouterState<M, F, H>,
    todo: Seq<Effect<M, F, H>>,
    start: W,
    act: A,
    post: RouterState<M, F, H>,
    end: W,
) -> (res: (Seq<W>, Seq<Outcome<M, H>>))
    requires
        carries_out(pre, todo, start, act, post, end),
        is_honest(act),
        forall|i: int| 0 <= i < todo.len() ==> #[trigger] todo[i] is Stop || todo[i] is Join,
    ensures
        post == pre,
        res.0.len() == todo.len() + 1,
        res.1.len() == todo.len(),
        res.0[0] == start,
        res.0.last() == end,
        forall|i: int|
            0 <= i < todo.len() ==> call_ensures(
                act,
                (res.0[i], #[trigger] todo[i]),
                (res.0[i + 1], res.1[i]),
            ),
    decreases todo.len(),
{
    if todo.len() == 0 {
        (seq![start], Seq::empty())
    } else {
        let before = todo.drop_last();
        let (mid, then) = lemma_last(pre, todo, start, act, post, end);
        assert forall|i: int| 0 <= i < before.len() implies #[trigger] before[i] is Stop
            || before[i] is Join by {
            assert(before[i] == todo[i]);
        }
        let (worlds, outs) = lemma_one_by_one(pre, before, start, act, mid, then);
        assert(todo[todo.len() - 1] is Stop || todo[todo.len() - 1] is Join);
        let out = lemma_outcome(mid, todo.last(), then, act, post, end);
        let res = (worlds.push(end), outs.push(out));
        assert forall|i: int| 0 <= i < todo.len() implies call_ensures(
            act,
            (res.0[i], #[trigger] todo[i]),
            (res.0[i + 1], res.1[i]),
        ) by {
            if i < before.len() {
                assert(before[i] == todo[i]);
            }
        }
        res
    }
}

/// Where the effects on each actor stand in the list of all.
proof fn lemma_stop_and_join<M, F, H>(
    table: Map<Seq<char>, Actor<M, H>>,
    order: Seq<Seq<char>>,
)
    ensures
        stop_and_join::<M, F, H>(table, order).len() == 2 * order.len(),
        forall|k: int|
            0 <= k < order.len() ==> {
                let todo = stop_and_join::<M, F, H>(table, order);
                &&& todo[2 * k] == to_stop::<M, F, H>(table[#[trigger] order[k]])
                &&& todo[2 * k + 1] == to_join::<M, F, H>(table[order[k]])
            },
    decreases order.len(),
{
    if order.len() > 0 {
        let before = order.drop_last();
        lemma_stop_and_join::<M, F, H>(table, before);
        assert forall|k: int| 0 <= k < order.len() implies ({
            let todo = stop_and_join::<M, F, H>(table, order);
            &&& todo[2 * k] == to_stop::<M, F, H>(table[#[trigger] order[k]])
            &&& todo[2 * k + 1] == to_join::<M, F, H>(table[order[k]])
        }) by {
            if k < before.len() {
                assert(before[k] == order[k]);
            }
        }
    }
}

/// Once an actor has been started, the router has it: asked whether it has the actor it says
/// yes, asked for its channel it gives that, and a message for the actor goes into it.
pub proof fn law_started_actor_is_reached<M, F, H>(
    pre: RouterState<M, F, H>,
    actor: Actor<M, H>,
    post: RouterState<M, F, H>,
    todo: Seq<Effect<M, F, H>>,
    event: Event<M, F>,
    later: RouterState<M, F, H>,
    then: Seq<Effect<M, F, H>>,
)
    requires
        moves(pre, Move::Learned(Outcome::Started(actor)), post, todo),
        decides(post, event, later, then),
        names(event, actor.id@),
    ensures
        event matches Event::Ctl(Ok(RouterCtl::Has { resp, .. })) ==> then == seq![
            Effect::<M, F, H>::Tell { to: resp, found: true },
        ],
        event matches Event::Ctl(Ok(RouterCtl::Get { resp, .. })) ==> then == seq![
            Effect::<M, F, H>::Answer { to: resp, answer: Ok(actor.req) },
        ],
        event matches Event::Request(Ok(request)) ==> then == seq![
            Effect::<M, F, H>::Deliver { id: request.id, to: actor.req, val: request.val },
        ],
{
}

/// Once an actor has been stopped, or is known to have ended, the router does not have it:
/// asked whether it has the actor it says no, a request for its channel as well as a message
/// for it meet with the error that there is no such actor, and to stop it once more leads to
/// nothing.
pub proof fn law_ended_actor_is_gone<M, F, H>(
    pre: RouterState<M, F, H>,
    mv: Move<M, F, H>,
    post: RouterState<M, F, H>,
    todo: Seq<Effect<M, F, H>>,
    id: Seq<char>,
    event: Event<M, F>,
    later: RouterState<M, F, H>,
    then: Seq<Effect<M, F, H>>,
)
    requires
        moves(pre, mv, post, todo),
        ends(mv, id),
        decides(post, event, later, then),
        names(event, id),
    ensures
        !post.table.contains_key(id),
        event matches Event::Ctl(Ok(RouterCtl::Has { resp, .. })) ==> then == seq![
            Effect::<M, F, H>::Tell { to: resp, found: false },
        ],
        event matches Event::Ctl(Ok(RouterCtl::Get { id: name, resp })) ==> then == seq![
            Effect::<M, F, H>::Answer { to: resp, answer: Err(Error::NoSuchActor(name)) },
        ],
        event matches Event::Request(Ok(request)) ==> then == seq![
            Effect::<M, F, H>::Reject(Error::NoSuchActor(request.id)),
        ],
        ends(Move::<M, F, H>::Read(event), id) && event != Event::<M, F>::Ctl(
            Ok(RouterCtl::Shutdown),
        ) ==> then.len() == 0 && later == post,
{
    assert(post.table.remove(id) =~= post.table);
}

/// Who sends a message to an actor that the router does not have gets the error that there is
/// no such actor: it is what the router answers when asked for the actor, and what the sending
/// then comes to.
pub proof fn law_send_to_a_missing_actor_fails<M, F, H>(
    router: RouterState<M, F, H>,
    id: String,
    resp: Sender<Result<Sender<M>, Error>>,
    post: RouterState<M, F, H>,
    todo: Seq<Effect<M, F, H>>,
    req: Sender<RouterRequest<M>>,
    val: M,
    answer: Result<Sender<M>, Error>,
    out: Result<(), Error>,
)
    requires
        !router.table.contains_key(id@),
        decides(router, Event::Ctl(Ok(RouterCtl::Get { id, resp })), post, todo),
        todo.contains(Effect::Answer { to: resp, answer }),
        client::routes(req, id@, val, answer, out),
    ensures
        out matches Err(e) && e.is_no_such_actor(id@),
{
}

/// `res` is what waiting for a confirmation on `resp` comes to where `todo` is done about the
/// question: the confirmation, or that nobody is left who could give it.
pub open spec fn is_confirmation<M, F, H>(
    todo: Seq<Effect<M, F, H>>,
    resp: Sender<()>,
    res: Result<(), RecvError>,
) -> bool {
    res is Ok <==> todo.contains(Effect::Confirm(resp))
}

/// Who asks for an actor to be stopped and waits gets a confirmation if and only if the router
/// has that actor, which is then told to stop and waited for beforehand; else the error of a
/// failed receive.
pub proof fn law_stop_tells_whether_it_stopped<M, F, H>(
    router: RouterState<M, F, H>,
    id: String,
    resp: Sender<()>,
    post: RouterState<M, F, H>,
    todo: Seq<Effect<M, F, H>>,
    res: Result<(), RecvError>,
    out: Result<(), Error>,
)
    requires
        decides(router, Event::Ctl(Ok(RouterCtl::StopActor { id, resp })), post, todo),
        is_confirmation(todo, resp, res),
        is_answer(res, out),
    ensures
        out is Ok <==> router.table.contains_key(id@),
        out is Ok ==> todo == seq![
            to_stop::<M, F, H>(router.table[id@]),
            to_join::<M, F, H>(router.table[id@]),
            Effect::<M, F, H>::Confirm(resp),
        ],
        out is Err ==> out->Err_0.is_recv_failure() && todo.len() == 0,
        !post.table.contains_key(id@),
{
    if router.table.contains_key(id@) {
        assert(todo[2] == Effect::<M, F, H>::Confirm(resp));
    }
}

/// Who asks for an actor to be stopped that was stopped before, and not started since, gets the
/// error of a failed receive.
pub proof fn law_second_stop_fails<M, F, H>(
    states: Seq<RouterState<M, F, H>>,
    run: Seq<Move<M, F, H>>,
    todos: Seq<Seq<Effect<M, F, H>>>,
    id: String,
    resp: Sender<()>,
    post: RouterState<M, F, H>,
    todo: Seq<Effect<M, F, H>>,
    res: Result<(), RecvError>,
    out: Result<(), Error>,
)
    requires
        is_run(states, run, todos),
        run.len() > 0,
        ends(run[0], id@),
        forall|j: int| 0 <= j < run.len() ==> !begins(#[trigger] run[j], id@),
        decides(states.last(), Event::Ctl(Ok(RouterCtl::StopActor { id, resp })), post, todo),
        is_confirmation(todo, resp, res),
        is_answer(res, out),
    ensures
        out matches Err(e) && e.is_recv_failure(),
{
    law_ended_actor_stays_gone(states, run, todos, id@);
}

/// An actor that was stopped, or is known to have ended, is not held by the router again until
/// one of its ID is started.
pub proof fn law_ended_actor_stays_gone<M, F, H>(
    states: Seq<RouterState<M, F, H>>,
    run: Seq<Move<M, F, H>>,
    todos: Seq<Seq<Effect<M, F, H>>>,
    id: Seq<char>,
)
    requires
        is_run(states, run, todos),
        run.len() > 0,
        ends(run[0], id),
        forall|j: int| 0 <= j < run.len() ==> !begins(#[trigger] run[j], id),
    ensures
        !states.last().table.contains_key(id),
    decreases run.len(),
{
    let n = run.len() - 1;
    assert(moves(states[n], run[n], states[n + 1], todos[n]));
    if n > 0 {
        lemma_run_before(states, run, todos);
        assert forall|j: int| 0 <= j < n implies !begins(#[trigger] run.drop_last()[j], id) by {
            assert(run.drop_last()[j] == run[j]);
        }
        law_ended_actor_stays_gone(states.drop_last(), run.drop_last(), todos.drop_last(), id);
        if !ends(run[n], id) {
            law_others_untouched(states[n], run[n], states[n + 1], todos[n], id);
        }
    }
}

/// What an actor reports of itself ends, with its router, the actor that it was spawned as: the
/// notice of its stopping, which its context sends, and that of its panic, which is sent for
/// it, both go to this router and both bear its ID.
pub proof fn law_reports_name_the_actor<M, F, H>(
    router: RouterState<M, F, H>,
    id: Seq<char>,
    f: F,
    task: Task<M, F>,
    seat: Seat<M>,
)
    requires
        is_new_actor(router, id, f, task, seat),
    ensures
        task.ctx.stat == router.stat,
        task.stat == router.stat,
        ends(Move::<M, F, H>::Read(Event::Status(Ok(ActorStatus::Stopped(task.ctx.id)))), id),
        ends(Move::<M, F, H>::Read(Event::Status(Ok(ActorStatus::Paniced(task.id)))), id),
{
}

/// A router that starts without actors has at any time exactly the actors that were started and
/// have not ended since: the actor of ID `id` is in its table if and only if some move began it
/// and no later one ended it.
pub proof fn law_table_is_what_was_started<M, F, H>(
    states: Seq<RouterState<M, F, H>>,
    run: Seq<Move<M, F, H>>,
    todos: Seq<Seq<Effect<M, F, H>>>,
    id: Seq<char>,
)
    requires
        is_run(states, run, todos),
        states[0].table == Map::<Seq<char>, Actor<M, H>>::empty(),
    ensures
        states.last().table.contains_key(id) <==> exists|at: int| last_begun(run, id, at),
    decreases run.len(),
{
    if run.len() == 0 {
        assert forall|at: int| !last_begun(run, id, at) by {}
    } else {
        let n = run.len() - 1;
        let before = run.drop_last();
        lemma_run_before(states, run, todos);
        law_table_is_what_was_started(states.drop_last(), before, todos.drop_last(), id);
        assert(moves(states[n], run[n], states[n + 1], todos[n]));
        assert(states.drop_last().last() == states[n]);
        if begins(run[n], id) {
            assert(last_begun(run, id, n));
        } else if ends(run[n], id) {
            assert forall|at: int| !last_begun(run, id, at) by {}
        } else {
            law_others_untouched(states[n], run[n], states[n + 1], todos[n], id);
            assert forall|at: int| last_begun(run, id, at) == last_begun(before, id, at) by {
                if last_begun(before, id, at) {
                    assert(forall|j: int| at < j < n ==> before[j] == run[j]);
                }
                if last_begun(run, id, at) {
                    assert(at != n);
                    assert(forall|j: int| at < j < n ==> before[j] == run[j]);
                }
            }
        }
    }
}

/// Asked at any time whether it has the actor of ID `id`, a router that started without actors
/// answers, once, whether the actor was started and has not ended since.
pub proof fn law_has_tells_what_was_started<M, F, H>(
    states: Seq<RouterState<M, F, H>>,
    run: Seq<Move<M, F, H>>,
    todos: Seq<Seq<Effect<M, F, H>>>,
    id: String,
    resp: Sender<bool>,
    post: RouterState<M, F, H>,
    todo: Seq<Effect<M, F, H>>,
)
    requires
        is_run(states, run, todos),
        states[0].table == Map::<Seq<char>, Actor<M, H>>::empty(),
        decides(states.last(), Event::Ctl(Ok(RouterCtl::Has { id, resp })), post, todo),
    ensures
        todo == seq![
            Effect::<M, F, H>::Tell { to: resp, found: exists|at: int| last_begun(run, id@, at) },
        ],
{
    law_table_is_what_was_started(states, run, todos, id@);
}

/// All but the last move of a run is a run.
proof fn lemma_run_before<M, F, H>(
    states: Seq<RouterState<M, F, H>>,
    run: Seq<Move<M, F, H>>,
    todos: Seq<Seq<Effect<M, F, H>>>,
)
    requires
        is_run(states, run, todos),
        run.len() > 0,
    ensures
        is_run(states.drop_last(), run.drop_last(), todos.drop_last()),
{
    let some = states.drop_last();
    let before = run.drop_last();
    assert forall|i: int| 0 <= i < before.len() implies moves(
        some[i],
        #[trigger] before[i],
        some[i + 1],
        todos.drop_last()[i],
    ) by {
        assert(before[i] == run[i]);
    }
}

/// An actor that a router has stays the same actor over a run, unless a move begins or ends one
/// of its ID.
pub proof fn law_actor_stays<M, F, H>(
    states: Seq<RouterState<M, F, H>>,
    run: Seq<Move<M, F, H>>,
    todos: Seq<Seq<Effect<M, F, H>>>,
    id: Seq<char>,
)
    requires
        is_run(states, run, todos),
        states[0].table.contains_key(id),
        forall|j: int| 0 <= j < run.len() ==> !begins(#[trigger] run[j], id) && !ends(run[j], id),
    ensures
        states.last().table.contains_key(id),
        states.last().table[id] == states[0].table[id],
    decreases run.len(),
{
    if run.len() > 0 {
        let n = run.len() - 1;
        lemma_run_before(states, run, todos);
        assert forall|j: int| 0 <= j < n implies !begins(#[trigger] run.drop_last()[j], id)
            && !ends(run.drop_last()[j], id) by {
            assert(run.drop_last()[j] == run[j]);
        }
        law_actor_stays(states.drop_last(), run.drop_last(), todos.drop_last(), id);
        assert(moves(states[n], run[n], states[n + 1], todos[n]));
        law_others_untouched(states[n], run[n], states[n + 1], todos[n], id);
    }
}

/// The actor that a router has under an ID is the last that was started under it.
pub proof fn law_actor_is_the_last_started<M, F, H>(
    states: Seq<RouterState<M, F, H>>,
    run: Seq<Move<M, F, H>>,
    todos: Seq<Seq<Effect<M, F, H>>>,
    actor: Actor<M, H>,
    at: int,
)
    requires
        is_run(states, run, todos),
        last_begun(run, actor.id@, at),
        run[at] == Move::<M, F, H>::Learned(Outcome::Started(actor)),
    ensures
        states.last().table.contains_key(actor.id@),
        states.last().table[actor.id@] == actor,
{
    let id = actor.id@;
    assert(moves(states[at], run[at], states[at + 1], todos[at]));
    let then = states.skip(at + 1);
    let rest = run.skip(at + 1);
    let more = todos.skip(at + 1);
    assert forall|i: int| 0 <= i < rest.len() implies moves(
        then[i],
        #[trigger] rest[i],
        then[i + 1],
        more[i],
    ) by {
        assert(rest[i] == run[at + 1 + i]);
    }
    assert forall|j: int| 0 <= j < rest.len() implies !begins(#[trigger] rest[j], id) && !ends(
        rest[j],
        id,
    ) by {
        assert(rest[j] == run[at + 1 + j]);
    }
    law_actor_stays(then, rest, more, id);
}

/// The messages for the actor of ID `id` that the router read over a run, in that order.
pub open spec fn requested<M, F, H>(run: Seq<Move<M, F, H>>, id: Seq<char>) -> Seq<M>
    decreases run.len(),
{
    if run.len() == 0 {
        Seq::empty()
    } else {
        let before = requested(run.drop_last(), id);
        match run.last() {
            Move::Read(Event::Request(Ok(request))) if request.id@ == id => before.push(
                request.val,
            ),
            _ => before,
        }
    }
}

/// The messages that are to be delivered to the actor of ID `id`, each with the channel that it
/// is to go into, in that order.
pub open spec fn deliveries<M, F, H>(todo: Seq<Effect<M, F, H>>, id: Seq<char>) -> Seq<
    (Sender<M>, M),
>
    decreases todo.len(),
{
    if todo.len() == 0 {
        Seq::empty()
    } else {
        let before = deliveries(todo.drop_last(), id);
        match todo.last() {
            Effect::Deliver { id: name, to, val } if name@ == id => before.push((to, val)),
            _ => before,
        }
    }
}

/// The messages that are to be delivered to the actor of ID `id` over a run.
pub open spec fn all_deliveries<M, F, H>(
    todos: Seq<Seq<Effect<M, F, H>>>,
    id: Seq<char>,
) -> Seq<(Sender<M>, M)>
    decreases todos.len(),
{
    if todos.len() == 0 {
        Seq::empty()
    } else {
        all_deliveries(todos.drop_last(), id) + deliveries(todos.last(), id)
    }
}

/// Over a run in which an actor stays, the messages that the router reads for it are delivered
/// to it: all of them, unchanged, each once, in the order in which they were read, into the
/// request channel of the actor, and no others.
pub proof fn law_messages_come_in_order<M, F, H>(
    states: Seq<RouterState<M, F, H>>,
    run: Seq<Move<M, F, H>>,
    todos: Seq<Seq<Effect<M, F, H>>>,
    id: Seq<char>,
)
    requires
        is_run(states, run, todos),
        states[0].table.contains_key(id),
        forall|j: int| 0 <= j < run.len() ==> !begins(#[trigger] run[j], id) && !ends(run[j], id),
    ensures
        all_deliveries(todos, id).len() == requested(run, id).len(),
        forall|i: int|
            0 <= i < requested(run, id).len() ==> #[trigger] all_deliveries(todos, id)[i] == (
                states[0].table[id].req,
                requested(run, id)[i],
            ),
    decreases run.len(),
{
    if run.len() > 0 {
        let n = run.len() - 1;
        let before = run.drop_last();
        lemma_run_before(states, run, todos);
        assert forall|j: int| 0 <= j < n implies !begins(#[trigger] before[j], id) && !ends(
            before[j],
            id,
        ) by {
            assert(before[j] == run[j]);
        }
        law_messages_come_in_order(states.drop_last(), before, todos.drop_last(), id);
        law_actor_stays(states.drop_last(), before, todos.drop_last(), id);
        let pre = states[n];
        let todo = todos[n];
        assert(moves(pre, run[n], states[n + 1], todo));
        assert(todos.last() == todo && run.last() == run[n]);
        match run[n] {
            Move::Read(Event::Request(Ok(request))) if request.id@ == id => {
                assert(todo.drop_last() =~= Seq::empty());
                assert(deliveries(todo.drop_last(), id) =~= Seq::empty());
                assert(deliveries(todo, id) =~= seq![(pre.table[id].req, request.val)]);
            },
            _ => {
                lemma_no_deliveries(todo, id);
            },
        }
    }
}

/// A list without a delivery to an actor holds none to it.
proof fn lemma_no_deliveries<M, F, H>(todo: Seq<Effect<M, F, H>>, id: Seq<char>)
    requires
        forall|i: int|
            0 <= i < todo.len() ==> !(#[trigger] todo[i] is Deliver && todo[i]->Deliver_id@ == id),
    ensures
        deliveries(todo, id).len() == 0,
    decreases todo.len(),
{
    if todo.len() > 0 {
        let before = todo.drop_last();
        assert forall|i: int| 0 <= i < before.len() implies !(#[trigger] before[i] is Deliver
            && before[i]->Deliver_id@ == id) by {
            assert(before[i] == todo[i]);
        }
        lemma_no_deliveries(before, id);
    }
}

/// However long a router has run, its handle and the contexts of its actors lead to the same
/// router: they hold the same senders.
pub proof fn law_contexts_and_handle_agree<M, F, H, J>(
    router: Router<M, F, J>,
    core: RouterCore<M, F, H>,
    inbox: Inbox<M, F>,
    states: Seq<RouterState<M, F, H>>,
    run: Seq<Move<M, F, H>>,
    todos: Seq<Seq<Effect<M, F, H>>>,
    id: Seq<char>,
    f: F,
    task: Task<M, F>,
    seat: Seat<M>,
)
    requires
        router.reaches(core, inbox),
        is_run(states, run, todos),
        states[0] == core@,
        is_new_actor(states.last(), id, f, task, seat),
    ensures
        task.ctx.router_req == router.req,
        task.ctx.router_ctl == router.ctl,
        is_channel(task.ctx.router_req, inbox.req),
        is_channel(task.ctx.router_ctl, inbox.ctl),
        is_channel(task.ctx.stat, inbox.stat),
{
    lemma_same_channels(states, run, todos);
}

/// The channels of a router are the same over a run.
proof fn lemma_same_channels<M, F, H>(
    states: Seq<RouterState<M, F, H>>,
    run: Seq<Move<M, F, H>>,
    todos: Seq<Seq<Effect<M, F, H>>>,
)
    requires
        is_run(states, run, todos),
    ensures
        states.last().req == states[0].req,
        states.last().ctl == states[0].ctl,
        states.last().stat == states[0].stat,
    decreases run.len(),
{
    if run.len() > 0 {
        let n = run.len() - 1;
        lemma_run_before(states, run, todos);
        lemma_same_channels(states.drop_last(), run.drop_last(), todos.drop_last());
        assert(moves(states[n], run[n], states[n + 1], todos[n]));
        law_same_channels(states[n], run[n], states[n + 1], todos[n]);
    }
}

} // verus!
