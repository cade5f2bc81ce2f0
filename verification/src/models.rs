//! The relations of the store, one module for each: its rows and the
//! operations that read and fill it.

pub mod authors;
pub mod keys;
pub mod messages;
