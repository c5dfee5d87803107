//! The errors of the library.
use crossbeam_channel::{RecvError, SendError};
use vstd::prelude::*;
use vstd::string::StringExecFns;

use crate::channel::{recv_error_text, send_error_text};

verus! {

/// Errors that can occur.
#[derive(Debug)]
pub enum Error {
    /// An error sending on a channel, as text.
    SendError(String),
    /// An error receiving on a channel, as text.
    RecvError(String),
    /// The specified actor does not exist, or is not known to the router. Embeds the ID of
    /// the actor.
    ///
    /// If an actor thread panics or otherwise chooses to stop, it is removed from the router
    /// and subsequent attempts to send messages to that actor will result in this error.
    NoSuchActor(String),
}

impl Error {
    /// The error that a failed send leaves.
    pub open spec fn is_send_failure(self) -> bool {
        self matches Error::SendError(text) && text@ == "sending on a disconnected channel"@
    }

    /// The error that a failed receive leaves.
    pub open spec fn is_recv_failure(self) -> bool {
        self matches Error::RecvError(text) && text@
            == "receiving on an empty and disconnected channel"@
    }

    /// The error that tells of a missing actor.
    pub open spec fn is_no_such_actor(self, id: Seq<char>) -> bool {
        self matches Error::NoSuchActor(name) && name@ == id
    }

    /// How the error reads.
    pub open spec fn text(self) -> Seq<char> {
        match self {
            Error::SendError(text) => text@,
            Error::RecvError(text) => text@,
            Error::NoSuchActor(id) => "no such actor: "@ + id@,
        }
    }

    /// Construct an `Error::SendError` from a failed send.
    pub fn send_error<T>(e: SendError<T>) -> (err: Self)
        ensures
            err.is_send_failure(),
    {
        Error::SendError(send_error_text(e))
    }

    /// Construct an `Error::RecvError` from a failed receive.
    pub fn recv_error(e: RecvError) -> (err: Self)
        ensures
            err.is_recv_failure(),
    {
        Error::RecvError(recv_error_text(e))
    }

    /// The error as text.
    pub fn to_string(&self) -> (text: String)
        ensures
            text@ == self.text(),
    {
        match self {
            Error::SendError(text) => text.clone(),
            Error::RecvError(text) => text.clone(),
            Error::NoSuchActor(id) => "no such actor: ".to_owned().concat(id.as_str()),
        }
    }
}

} // verus!
