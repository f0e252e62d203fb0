//! Real-time audio/MIDI processing core.
//!
//! A process handler runs inside the audio server's time-critical callback,
//! once per block. This crate holds the handler roles, an adapter that builds
//! a process handler from plain functions, the fixed-size snapshot that lets a
//! borrowed MIDI message leave the callback, the bounded non-blocking queue
//! discipline used to exchange values with ordinary threads, and the
//! lifecycle rules that say when the server stops invoking a handler.

pub mod channel;
pub mod client;
pub mod closure_handler;
pub mod control;
pub mod handler;
pub mod midi;
pub mod relay;
pub mod session;

pub use channel::BoundedQueue;
pub use client::{Client, ProcessScope};
pub use closure_handler::{default_buffer_fn, default_process_fn, ClosureProcessHandler};
pub use control::{Control, Frames};
pub use handler::{NotificationHandler, ProcessHandler};
pub use midi::{MidiCopy, RawMidi};
pub use relay::relay_snapshots;
pub use session::{run_blocks, Lifecycle};
