//! The core of a small tiling window manager: the workspace store, the
//! main-and-stack layout, and the resolution of layered key bindings into a
//! dispatch table. The display server itself is someone else's job; this
//! crate decides, and says in its contracts what it decides.

pub mod actions;
pub mod bindings;
pub mod config;
pub mod dispatch;
pub mod geometry;
pub mod hooks;
pub mod input;
pub mod layout_spec;
pub mod window;
pub mod workspace;
