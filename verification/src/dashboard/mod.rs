//! The terminal dashboard: its state, its keys, and what its panels show.

pub mod items;
pub mod keys;
pub mod layout;
pub mod overlay;
pub mod palette;
pub mod panel;
pub mod runtime;
pub mod scripts;
pub mod sources;
pub mod spec_tab;
pub mod state;
pub mod tabs;
