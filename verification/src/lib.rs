//! Decision logic of an emergency back-up tool: screen-corner mouse
//! gestures that arm, confirm, cancel or reconfigure a back-up, the
//! configuration record and the rules that decide what a back-up copies.

pub mod gesture;
pub mod tracker;
pub mod text;
pub mod config;
pub mod backup;
pub mod service;
pub mod platform;
pub mod window;
