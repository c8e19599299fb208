//! The verified core of a two-peer, terminal tic-tac-toe game played over a
//! direct socket connection.
//!
//! Everything that decides the game lives here: the board engine
//! ([`playboard`]), the line-oriented command codec ([`protocol`]), the
//! session state machine shared between the interactive side and the
//! reader side ([`session`]), and the configuration vocabulary
//! ([`cli_args_processing`]). The sockets, threads and terminal rendering
//! around it hand lines of bytes in and take decisions out.
pub mod cli_args_processing;
pub mod playboard;
pub mod protocol;
pub mod session;
