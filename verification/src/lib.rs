//! Control and media protocol logic of an RTSP-style video streamer.
//!
//! The crate holds the parts of the streamer that decide and compute, each
//! with a contract that is proved:
//!
//! - [`rtp`]: the binary format of media packets;
//! - [`rtsp`]: the text of control messages, with [`text`] beneath it and
//!   [`round_trip`] for the proof that what is written is read back;
//! - [`session`]: the session state machine and the server's decisions;
//! - [`client`]: the client's decisions, and [`exchange`] for the proof that
//!   client and server stay in step;
//! - [`media`]: the decisions of the tasks that send and receive media;
//! - [`payload`]: what is assumed of the buffer type that carries payloads.
//!
//! Sockets, timers and the user interface live outside and hand this crate
//! plain values.
//!
//! [`tic_tac_toe`] stands apart: it holds the rules of the console game that
//! ships with the streamer.

pub mod client;
pub mod exchange;
pub mod media;
pub mod payload;
pub mod round_trip;
pub mod rtp;
pub mod rtsp;
pub mod session;
pub mod text;
pub mod tic_tac_toe;
