//! A global keyboard-shortcut engine.
//!
//! Snapshots of the keyboard become press and release events
//! ([`sodkat`]), events are published on a bus ([`bus`]), and a resolver
//! matches them against a table of bindings ([`setting`]). A binding's
//! pattern is one step or a chord of two ([`pattern`]); an event is compared
//! with it through its canonical encoding ([`event`]). Bindings may be
//! limited to the application that has focus ([`win`]).
//!
//! The library decides and computes. Polling the keyboard, asking for the
//! focused window, reading the configuration file and running threads are
//! left to the program that uses it.

pub mod bus;
pub mod event;
pub mod key;
pub mod pattern;
pub mod setting;
pub mod sodkat;
pub mod text;
pub mod win;
