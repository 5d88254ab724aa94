//! A clipboard history service: the history itself, the commands that a
//! running daemon answers over its socket, the framing of the messages it
//! exchanges, and the small decisions that the poller and the picker window
//! make about clipboard items.

pub mod common;
pub mod gui;
pub mod history;
pub mod monitor;
pub mod services;
pub mod text;
