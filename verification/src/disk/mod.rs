//! The drives of the machine: their letters, names and directories.

pub mod drives;
pub mod files;
pub mod kind;
pub mod listing;
pub mod manage;
pub mod memfs;
pub mod names;
pub mod paths;
pub mod saved;
pub mod short;
pub mod walk;
