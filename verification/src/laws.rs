//! What callers can rely on, stated of the results of the operations.
pub mod block_io;
pub mod commands;
pub mod linking;
pub mod mirror;
pub mod requests;
pub mod runtime;
pub mod texts;
