//! Verified core of a game-replay broadcast bridge and mirror client.
//!
//! The library holds the streaming runtime's logic: the wire-frame codec,
//! the multi-source multiplexer, the relay-client session state machine,
//! the per-source ingest state machines, and the incremental replay-event
//! parser that drives file rollover. Network and file I/O live outside the
//! library and hand plain values in and out.

pub mod codec;
pub mod config;
pub mod console;
pub mod emulator;
pub mod endpoint;
pub mod mux;
pub mod playback;
pub mod relay;
pub mod replay;
pub mod shutdown;
