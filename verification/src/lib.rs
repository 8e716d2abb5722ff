//! Reorganises the entries of one directory level: grouping the entries whose
//! names contain a pattern into a new subdirectory, and cutting a
//! subdirectory out by lifting its entries into its parent.
//!
//! The library decides and never touches the filesystem: it hands out one
//! request at a time and is told how the request went.

pub mod command;
pub mod cut;
pub mod cut_laws;
pub mod entry;
pub mod group;
pub mod group_laws;
pub mod mover;
pub mod path;
pub mod path_laws;
pub mod request;
pub mod text;
