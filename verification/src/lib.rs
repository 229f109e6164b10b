//! Reading, rewriting and querying of buy-it-now auctions.

pub mod auctions;
pub mod config;
pub mod document;
pub mod item;
pub mod levels;
pub mod server;
pub mod text;
pub mod update;
