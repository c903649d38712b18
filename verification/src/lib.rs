//! A keyboard-driven, multi-column directory browser: the navigation model,
//! the scroll-window policy and the composition of fixed-width pane rows.

pub mod config;
pub mod constants;
pub mod controller;
pub mod directory;
pub mod entry;
pub mod render;
pub mod stack;
pub mod stack_laws;
pub mod style;
pub mod text;
pub mod window;
