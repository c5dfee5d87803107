//! The channels of `crossbeam_channel`, as the rest of the library sees them.
//!
//! What a send or a receive gives back rests on what other threads do, so nothing is
//! claimed of it here beyond the text of the two errors. What the contracts of this
//! library say of a channel is which calls are made on it: `is_channel`, `sent` and
//! `received` relate the arguments of such a call to its result, and can be shown only
//! of a call that was made.
use crossbeam_channel::{unbounded, Receiver, RecvError, SendError, Sender};
use vstd::prelude::*;

use crate::error::Error;

verus! {

/// The sending end of a channel, `crossbeam_channel::Sender`.
#[verifier::external_type_specification]
#[verifier::external_body]
#[verifier::reject_recursive_types(T)]
pub struct ExSender<T>(crossbeam_channel::Sender<T>);

/// The receiving end of a channel, `crossbeam_channel::Receiver`.
#[verifier::external_type_specification]
#[verifier::external_body]
#[verifier::reject_recursive_types(T)]
pub struct ExReceiver<T>(crossbeam_channel::Receiver<T>);

/// The error of a send, `crossbeam_channel::SendError`.
#[verifier::external_type_specification]
#[verifier::external_body]
#[verifier::reject_recursive_types(T)]
pub struct ExSendError<T>(crossbeam_channel::SendError<T>);

/// The error of a receive, `crossbeam_channel::RecvError`.
#[verifier::external_type_specification]
#[verifier::external_body]
pub struct ExRecvError(crossbeam_channel::RecvError);

/// `crossbeam_channel::unbounded` makes a channel without a limit on what it holds.
/// That the two ends belong together is said through `is_channel`.
pub assume_specification<T>[ crossbeam_channel::unbounded::<T> ]() -> (ends: (
    Sender<T>,
    Receiver<T>,
))
;

/// `crossbeam_channel::Sender::send` puts a message into the channel, or fails once
/// every receiver is gone. Which of the two it is rests on other threads.
pub assume_specification<T>[ crossbeam_channel::Sender::<T>::send ](
    tx: &Sender<T>,
    msg: T,
) -> (res: Result<(), SendError<T>>)
;

/// `crossbeam_channel::Receiver::recv` waits for a message, or fails once the channel
/// is empty and every sender is gone. What comes, and when, rests on other threads.
pub assume_specification<T>[ crossbeam_channel::Receiver::<T>::recv ](rx: &Receiver<T>) -> (res:
    Result<T, RecvError>)
;

/// The clone of a `crossbeam_channel::Sender` is one more handle on the same channel:
/// what is sent on the one or the other goes to the same receivers. A sender counts as
/// the channel that it is a handle on, so the two are equal.
pub assume_specification<T>[ <crossbeam_channel::Sender<T> as Clone>::clone ](
    tx: &Sender<T>,
) -> (res: Sender<T>)
    ensures
        res == *tx,
;

/// The text of `crossbeam_channel::SendError`, as its `Display` writes it: the same
/// for every message.
#[verifier::external_body]
pub(crate) fn send_error_text<T>(e: SendError<T>) -> (text: String)
    ensures
        text@ == "sending on a disconnected channel"@,
{
    e.to_string()
}

/// The text of `crossbeam_channel::RecvError`, as its `Display` writes it.
#[verifier::external_body]
pub(crate) fn recv_error_text(e: RecvError) -> (text: String)
    ensures
        text@ == "receiving on an empty and disconnected channel"@,
{
    e.to_string()
}

/// `tx` and `rx` are the two ends of one channel: a call of `unbounded` gave them.
pub open spec fn is_channel<T>(tx: Sender<T>, rx: Receiver<T>) -> bool {
    call_ensures(crossbeam_channel::unbounded::<T>, (), (tx, rx))
}

/// `res` is what sending `msg` on `tx` gave back.
pub open spec fn sent<T>(tx: Sender<T>, msg: T, res: Result<(), SendError<T>>) -> bool {
    call_ensures(Sender::<T>::send, (&tx, msg), res)
}

/// `res` is what receiving on `rx` gave back.
pub open spec fn received<T>(rx: Receiver<T>, res: Result<T, RecvError>) -> bool {
    call_ensures(Receiver::<T>::recv, (&rx,), res)
}

/// What the library makes of the result of a send: a failure keeps only its text.
pub open spec fn is_delivery<T>(res: Result<(), SendError<T>>, out: Result<(), Error>) -> bool {
    match res {
        Ok(()) => out == Ok::<(), Error>(()),
        Err(_) => out matches Err(e) && e.is_send_failure(),
    }
}

/// What the library makes of the result of a receive: a failure keeps only its text.
pub open spec fn is_answer<T>(res: Result<T, RecvError>, out: Result<T, Error>) -> bool {
    match res {
        Ok(v) => out == Ok::<T, Error>(v),
        Err(_) => out matches Err(e) && e.is_recv_failure(),
    }
}

/// `msg` was sent on `tx`, and `out` is what came of it.
pub open spec fn posted<T>(tx: Sender<T>, msg: T, out: Result<(), Error>) -> bool {
    exists|res: Result<(), SendError<T>>| #[trigger]
        sent(tx, msg, res) && is_delivery(res, out)
}

/// A message was waited for on `rx`, and `out` is what came of it.
pub open spec fn awaited<T>(rx: Receiver<T>, out: Result<T, Error>) -> bool {
    exists|res: Result<T, RecvError>| #[trigger] received(rx, res) && is_answer(res, out)
}

/// `msg` was sent on `tx` and, where that succeeded, its answer waited for on `rx`:
/// `out` is the answer or the error of the step that failed.
pub open spec fn exchanged<C, T>(
    tx: Sender<C>,
    msg: C,
    rx: Receiver<T>,
    out: Result<T, Error>,
) -> bool {
    exists|put: Result<(), Error>| #[trigger]
        posted(tx, msg, put) && match put {
            Ok(()) => awaited(rx, out),
            Err(e) => out == Err::<T, Error>(e),
        }
}

/// In the world `start`, `put` sent `msg`, which left the world `end`; `out` is what came of it.
pub open spec fn posted_with<W, C, P: Fn(W, C) -> (W, Result<(), SendError<C>>)>(
    msg: C,
    start: W,
    put: P,
    end: W,
    out: Result<(), Error>,
) -> bool {
    exists|res: Result<(), SendError<C>>| #[trigger]
        call_ensures(put, (start, msg), (end, res)) && is_delivery(res, out)
}

/// In the world `start`, `put` sent `msg` and, where that succeeded, `get` waited for the answer
/// in the world that this left; `end` is the world that the last of them left, and `out` the
/// answer or the error of the step that failed.
pub open spec fn exchanged_with<
    W,
    C,
    T,
    P: Fn(W, C) -> (W, Result<(), SendError<C>>),
    G: Fn(W) -> (W, Result<T, RecvError>),
>(
    msg: C,
    start: W,
    put: P,
    get: G,
    end: W,
    out: Result<T, Error>,
) -> bool {
    exists|then: W, sent: Result<(), Error>| #[trigger]
        posted_with(msg, start, put, then, sent) && match sent {
            Ok(()) => exists|res: Result<T, RecvError>| #[trigger]
                call_ensures(get, (then,), (end, res)) && is_answer(res, out),
            Err(e) => end == then && out == Err::<T, Error>(e),
        }
}

/// Turns the result of a send into a result of this library.
pub fn delivered<T>(res: Result<(), SendError<T>>) -> (out: Result<(), Error>)
    ensures
        is_delivery(res, out),
{
    match res {
        Ok(()) => Ok(()),
        Err(e) => Err(Error::send_error(e)),
    }
}

/// Turns the result of a receive into a result of this library.
pub fn answered<T>(res: Result<T, RecvError>) -> (out: Result<T, Error>)
    ensures
        is_answer(res, out),
{
    match res {
        Ok(v) => Ok(v),
        Err(e) => Err(Error::recv_error(e)),
    }
}

/// Makes a channel without a limit on what it holds.
pub(crate) fn open_channel<T>() -> (ends: (Sender<T>, Receiver<T>))
    ensures
        is_channel(ends.0, ends.1),
{
    unbounded::<T>()
}

/// Sends `msg` with `put`, once.
///
/// `put` is handed the world `start`, and what it leaves is returned: nothing else can be sent.
pub fn post_with<W, C, P: Fn(W, C) -> (W, Result<(), SendError<C>>)>(
    msg: C,
    start: W,
    put: &P,
) -> (res: (W, Result<(), Error>))
    requires
        call_requires(*put, (start, msg)),
    ensures
        posted_with(msg, start, *put, res.0, res.1),
{
    let (end, res) = put(start, msg);
    (end, delivered(res))
}

/// Sends `msg` with `put`, once, and where that succeeds waits with `get`, once, for the answer.
///
/// `put` is handed the world `start`, `get` what `put` left, and what the last of them leaves is
/// returned: nothing else can be sent or waited for.
pub fn exchange_with<
    W,
    C,
    T,
    P: Fn(W, C) -> (W, Result<(), SendError<C>>),
    G: Fn(W) -> (W, Result<T, RecvError>),
>(msg: C, start: W, put: &P, get: &G) -> (res: (W, Result<T, Error>))
    requires
        call_requires(*put, (start, msg)),
        forall|world: W| call_requires(*get, (world,)),
    ensures
        exchanged_with(msg, start, *put, *get, res.0, res.1),
{
    let (then, sent) = post_with(msg, start, put);
    assert(posted_with(msg, start, *put, then, sent));
    match sent {
        Ok(()) => {
            let (end, res) = get(then);
            (end, answered(res))
        },
        Err(e) => (then, Err(e)),
    }
}

/// Puts `msg` into the channel of `tx`.
pub(crate) fn put_on<T>(tx: &Sender<T>, msg: T) -> (res: Result<(), SendError<T>>)
    ensures
        sent(*tx, msg, res),
{
    tx.send(msg)
}

/// Takes a message out of the channel of `rx`, and waits until there is one.
pub(crate) fn take_from<T>(rx: &Receiver<T>) -> (res: Result<T, RecvError>)
    ensures
        received(*rx, res),
{
    rx.recv()
}

/// Sends `msg` on `tx`.
pub(crate) fn post<T>(tx: &Sender<T>, msg: T) -> (out: Result<(), Error>)
    ensures
        posted(*tx, msg, out),
{
    let put = |_world: (), msg: T| -> (res: ((), Result<(), SendError<T>>))
        ensures
            sent(*tx, msg, res.1),
        { ((), put_on(tx, msg)) };
    post_with(msg, (), &put).1
}

/// Sends `msg` on `tx` and waits on `rx` for the answer.
pub(crate) fn exchange<C, T>(tx: &Sender<C>, msg: C, rx: &Receiver<T>) -> (out: Result<T, Error>)
    ensures
        exchanged(*tx, msg, *rx, out),
{
    let put = |_world: (), msg: C| -> (res: ((), Result<(), SendError<C>>))
        ensures
            sent(*tx, msg, res.1),
        { ((), put_on(tx, msg)) };
    let get = |_world: ()| -> (res: ((), Result<T, RecvError>))
        ensures
            received(*rx, res.1),
        { ((), take_from(rx)) };
    let (end, out) = exchange_with(msg, (), &put, &get);
    proof {
        let (then, done) = choose|then: (), done: Result<(), Error>| #[trigger]
            posted_with(msg, (), put, then, done) && match done {
                Ok(()) => exists|res: Result<T, RecvError>| #[trigger]
                    call_ensures(get, (then,), (end, res)) && is_answer(res, out),
                Err(e) => end == then && out == Err::<T, Error>(e),
            };
        assert(posted(*tx, msg, done));
        if done is Ok {
            assert(awaited(*rx, out));
        }
    }
    out
}

/// A line on which one message can be sent: to use it is to use it up. Whoever is given a line
/// and no other way to a channel sends at most that one message.
pub trait Line<C>: Sized {
    /// The channel at the other end.
    spec fn sender(self) -> Sender<C>;

    /// Sends the message.
    fn post(self, msg: C) -> (out: Result<(), Error>)
        ensures
            posted(self.sender(), msg, out),
    ;

    /// Sends the message, and waits on `rx` for its answer.
    fn exchange<T>(self, msg: C, rx: &Receiver<T>) -> (out: Result<T, Error>)
        ensures
            exchanged(self.sender(), msg, *rx, out),
    ;
}

impl<C> Line<C> for &Sender<C> {
    open spec fn sender(self) -> Sender<C> {
        *self
    }

    fn post(self, msg: C) -> (out: Result<(), Error>) {
        post(self, msg)
    }

    fn exchange<T>(self, msg: C, rx: &Receiver<T>) -> (out: Result<T, Error>) {
        exchange(self, msg, rx)
    }
}

} // verus!
