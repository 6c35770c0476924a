//! The rules of an audio room over WebRTC.
//!
//! Up to a handful of speakers talk to each other and to any number of
//! listeners. Peers reach the room over a web socket: they offer connections,
//! answer offers and announce ICE candidates. The server forwards each speaker's
//! audio to everyone else.
//!
//! The library decides; a program around it owns the sockets, the tasks and the
//! connections, does the calls that it is told to do and reports how they ended.
//!
//! - [`wire`]: the messages that go over the web socket.
//! - [`event`]: what a message asks of the room.
//! - [`session`]: a peer's socket from its opening to its end.
//! - [`room`]: the room, how an event changes it and what work that brings.
//! - [`effects`]: what each event does to the room, event by event.
//! - [`plans`]: what is handed to whom.
//! - [`laws`]: what holds of the room over several events.
//! - [`join`]: how a peer comes into the room and goes out of it.
//! - [`signaling`]: how an offer is answered and how one is made.
//! - [`track`]: the tracks that the server sends, and who they belong to.
//! - [`media`]: the codecs and the ICE servers of a connection.
//! - [`startup`]: the address and the encryption of the server.
//! - [`roster`]: the map that the room is made of.
pub mod effects;
pub mod event;
pub mod join;
pub mod laws;
pub mod media;
pub mod plans;
pub mod room;
pub mod roster;
pub mod session;
pub mod signaling;
pub mod startup;
pub mod track;
pub mod wire;
