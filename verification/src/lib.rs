//! Bookkeeping, layout and menu logic of a small certificate manager.

pub mod text;
pub mod cert;
pub mod laws;
pub mod ui;
pub mod menu;
pub mod screen;
pub mod fzf;
