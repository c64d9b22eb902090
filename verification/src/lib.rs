//! Decoding of fixed-width EDI catalogue, price and discount files and the
//! rules of their incremental import.

pub mod config;
pub mod download;
pub mod edi;
pub mod error;
pub mod files;
pub mod number;
pub mod order;
pub mod search;
pub mod snapshot;
pub mod store;
pub mod text;
pub mod utils;
