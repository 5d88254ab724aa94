//! The picker window's decisions, apart from drawing.

pub mod clipboard_gui;
