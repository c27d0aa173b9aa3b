//! Shuttle: the verified core of a scrolling (Niri-style) window manager
//! for the River compositor.

pub mod action;
pub mod config;
pub mod input;
pub mod key_repeat;
pub mod layout;
pub mod state;
