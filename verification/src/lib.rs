//! Management for actor services and message routing.
//!
//! An actor is a long-lived thread that performs a specific function or set of functions and
//! consumes a channel of requests from other threads. To maintain a registry of actors, keep
//! track of their channels, and respond to control events, a special type of actor called a
//! router is launched. A [`Router`] encapsulates the channels through which clients interact
//! with the router and the actors it maintains. Actors are spawned through a control message
//! to the router. They are provided an [`ActorContext`] with the channels over which they
//! receive their inputs and control messages, and those over which they reach the router.
//!
//! What a router does with each thing that reaches it is decided in [`service`], one event at
//! a time. Threads belong to the caller: the functions that start and join them are handed
//! in. So the types here leave open the messages that actors take (`M`), the functions that
//! actors run (`F`), and the handles of the threads of actors (`H`) and of routers (`J`).
//!
//! What each function does, by the sends, receives and calls that it makes, is stated and proved
//! in [`promises`] and [`conduct`]; what holds of a router over one or more events, in [`laws`].
pub mod actor;
pub mod channel;
pub mod client;
pub mod conduct;
pub mod error;
pub mod laws;
pub mod message;
pub mod promises;
pub mod registry;
pub mod router;
pub mod service;

pub use crate::actor::{notice, Actor, ActorContext, Notice, Task};
pub use crate::channel::{answered, delivered, exchange_with, post_with, Line};
pub use crate::client::{route, route_with};
pub use crate::error::Error;
pub use crate::message::{ActorCtl, ActorStatus, RouterCtl, RouterRequest};
pub use crate::router::{stop_in_turn, Router};
pub use crate::service::{Effect, Event, Inbox, Incoming, Outcome, RouterCore, Seat};
