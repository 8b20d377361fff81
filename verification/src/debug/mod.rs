//! What a remote debugger sees and does: addresses, registers and tables,
//! the trace of instructions, breakpoints, and the input it types.

pub mod address;
pub mod api;
pub mod dump;
pub mod feed;
pub mod handle;
pub mod hub;
pub mod input;
pub mod listing;
pub mod query;
pub mod registers;
pub mod screen;
pub mod stats;
pub mod step;
pub mod stream;
pub mod tables;
pub mod trace;
