//! What Kando's helper for the COSMIC desktop decides and computes.
//!
//! COSMIC has no query for the pointer, no protocol for placing windows by name, and no
//! shortcuts that an application could register. The helper makes do with what the compositor
//! offers. This library holds its rules: what it binds, what it makes of the compositor's
//! events, what it asks for next, and what it answers. It works on plain values. Objects of the
//! compositor are known by their numbers, and everything that waits, reads or writes is an
//! action that the program performs and replies to.

pub mod cli;
pub mod dbus;
pub mod doctor;
pub mod error;
pub mod keyboard;
pub mod names;
pub mod number;
pub mod order;
pub mod places;
pub mod pointer;
pub mod probe;
pub mod ron;
pub mod search;
pub mod session;
pub mod setup;
pub mod shortcut;
pub mod tasks;
pub mod text;
pub mod toplevel;
pub mod util;
pub mod wire;
pub mod workspace;
