//! A console monitor for a newline-delimited text stream served over TCP.
//!
//! The library holds the monitor's logic: framing bytes into lines, the
//! connection state machine with its reconnect rules, and the rendering of
//! timestamped records and banners. Sockets, files and the terminal are left
//! to the program that drives it.
pub mod framing;
pub mod session;
pub mod clock;
pub mod render;
pub mod output;
