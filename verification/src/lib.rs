//! Core of a networked terminal emulator: a VT/ANSI parser driving a cell
//! grid with scrollback, selection and mouse reporting, and a session
//! multiplexer that keeps PTY-backed sessions alive across client
//! disconnects and frames their output for a WebSocket transport.

pub mod assistant;
pub mod backoff;
pub mod cell;
pub mod chan;
pub mod codec;
pub mod csi;
pub mod error;
pub mod events;
pub mod grid;
pub mod ids;
pub mod input;
pub mod mouse;
pub mod mux;
pub mod parser;
pub mod search;
pub mod selection;
pub mod session;
pub mod sgr;
pub mod text;
