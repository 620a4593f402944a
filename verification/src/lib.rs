//! Decision core of RustQuit, a menu bar utility that quits apps once their
//! last window is closed and keeps selected apps running.
pub mod app_list;
pub mod app_scan;
pub mod bundle_ids;
pub mod clock;
pub mod config;
pub mod delay;
pub mod double;
pub mod engine;
pub mod keepalive;
pub mod laws;
pub mod name_map;
pub mod paths;
pub mod procexit;
pub mod protected;
pub mod running;
pub mod settings_window;
pub mod startup;
pub mod suite;
pub mod text;
pub mod tray;
