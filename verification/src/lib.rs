//! Client-side protocol logic for IP cameras that speak the `1TEG`/`2TEG`
//! UDP media protocol.
//!
//! The library holds what can be said without a socket or a clock:
//!
//! - the codec: [`header`], [`udp_info`], [`handshake`], [`control`],
//!   [`media`] and [`frame`] turn the messages into bytes and back, over
//!   the integers of [`wire`];
//! - the reassembler: [`reassembly`] joins the fragments of a video frame;
//! - the session: [`session`] is the protocol driver as a state machine,
//!   from what happened to what to do next;
//! - the publish bus: [`bus`] hands finished frames to their subscribers;
//! - [`hex`] writes bytes out for the log.
//!
//! Every message type has a `spec_decode` and an `encoding` that say what
//! its bytes mean, and the executable `decode` and `encode` are proved
//! against them.

pub mod bus;
pub mod control;
pub mod error;
pub mod frame;
pub mod handshake;
pub mod header;
pub mod hex;
pub mod media;
pub mod reassembly;
pub mod session;
pub mod udp_info;
pub mod wire;
