//! Building blocks of a status line for a window manager: schedules for
//! periodic updates, the components that produce its pieces of text, and the
//! way those pieces are joined.
pub mod text;
pub mod schedule;
pub mod status;
pub mod executer;
pub mod component;
