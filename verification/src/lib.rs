//! Session executor for a sudoku solving service.
//!
//! The crate keeps a table of live solver sessions, hands out their
//! identities, processes requests strictly one at a time and in arrival
//! order, and encodes and decodes requests and responses in their binary
//! wire form.

pub mod api;
pub mod capnproto;
pub mod context;
pub mod error;
pub mod executor;
pub mod solver;
pub mod sync_executor;
