//! A command-line layer over a version-control client: flag extraction,
//! command dispatch, the mode and alias stores, and the argument vectors
//! handed to the backend tool.

pub mod alias;
pub mod dispatch;
pub mod error;
pub mod flags;
pub mod invoke;
pub mod store;
pub mod text;
