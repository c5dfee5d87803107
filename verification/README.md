# herbert

A simple actor framework built around centralized message routers, verified with Verus.

A program consists of long-lived threads that keep their own state and interact through
messages sent over channels. A router spawns these actors upon request, monitors and responds
to changes in their state, and routes messages to and between them.

- `src/` is the library. `service` decides what a router does with each request, control
  message and status notice, as a list of effects, and has them done in order; `registry` maps
  IDs to actors; `router` and `actor` hold the handles through which clients and actors reach a
  router, and `client` what they ask it; `message`, `error` and `channel` hold what they
  exchange; `laws` proves what holds of a router over one or more events.
- `app/` puts routers and actors on threads: it waits on the channels of a router, starts and
  joins the threads of actors, catches their panics, and writes the log.
- `tests/` runs the library on one thread.

What a router is to do about an event is a value, and contracts fix it: which effects, on which
channels, in which order, and that there are no others. That an effect was had is stated by the
calls made on channels. What such a call gives back rests on other threads; what is handed to it,
and what is made of its result, is proved.
