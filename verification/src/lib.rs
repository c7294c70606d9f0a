//! Bookmark library core: a generational arena with typed handles, and the
//! bookmark store built on top of it.

pub mod arena;
pub mod bit_field;
pub mod button;
pub mod drawer;
pub mod file_system;
pub mod local_file;
pub mod store;
