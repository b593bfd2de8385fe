//! Decision logic of a small daemon that lets unprivileged local users step
//! the display backlight up or down through a control socket.
//!
//! The library holds what the daemon decides: the brightness step policy,
//! how a request is read, how a brightness value is read from and written to
//! the backlight store, and the per-connection exchange as a state machine.
//! Sockets, files and signals are left to the program that drives it.
pub mod step;
pub mod store;
pub mod command;
pub mod session;
