//! A clipboard history: the entries it keeps, the picker that shows them,
//! and the settings that shape both.
pub mod app;
pub mod clipboard;
pub mod config;
pub mod hotkey;
pub mod icon;
pub mod text;
