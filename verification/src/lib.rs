//! Event translation core of a key remapper for Linux input devices.
//!
//! The crate turns key and pointer events into the actions that are to be
//! written to a virtual device: it tracks the held modifiers, substitutes
//! keys, resolves chords against a keymap table with nested prefixes, and
//! emits remapped chords while keeping the modifier state seen downstream
//! consistent.  Every function is verified against the contract it carries.
//!
//! - `key`, `event`, `action`: the vocabulary.
//! - `config`: the configuration, as the file writes it and as the
//!   translator reads it, and the tables that index it.
//! - `resolve`, `emit`, `translate`: what translating means, as functions on
//!   mathematical values.
//! - `event_handler`: the translator, which computes exactly that.
//! - `laws`, `downstream`: what holds of every translation.
//! - `device`, `action_dispatcher`, `main_loop`, `client`: the decisions of
//!   the program around the translator.

pub mod text;
pub mod key;
pub mod event;
pub mod action;
pub mod config;
pub mod client;
pub mod state;
pub mod resolve;
pub mod emit;
pub mod translate;
pub mod event_handler;
pub mod expect;
pub mod laws;
pub mod downstream;
pub mod device;
pub mod action_dispatcher;
pub mod main_loop;
