//! Integration layer of a desktop download manager.
//!
//! The transfer engine itself is an external component; this crate holds the
//! logic that sits between that engine and the user interfaces: translation
//! of option bags and status snapshots, a durable store for download records,
//! settings and tracker lists, the command/event vocabulary of the bridge
//! between the engine's scheduler and the UI, and the restoration procedure
//! that re-submits incomplete transfers after a restart.

pub mod error;
pub mod options;
pub mod resolve;
pub mod row;
pub mod service;
pub mod status;
pub mod store;
pub mod text;
pub mod tracker;
pub mod types;
pub mod utils;
