//! Key-sequence resolution and command dispatch for a modal text editor.
//!
//! The crate turns a stream of discrete key events into editor-level intents.
//! A [`keymap::KeyMap`] is a prefix tree from key sequences to bound values
//! with an incremental, stateful lookup; [`modes::standard::StandardMode`] owns
//! one such matcher, decides per key whether it is literal text or part of a
//! chord, and reports the outcome as a [`command::BuilderEvent`].

pub mod buffer;
pub mod command;
pub mod keyboard;
pub mod keymap;
pub mod modes;
pub mod overlay;
pub mod textobject;
