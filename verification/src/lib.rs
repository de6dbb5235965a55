//! The core of a self-hosted secret vault: the custodian of the master key and
//! the engine that keeps the tree of encrypted entries.

pub mod archive;
pub mod bunker;
pub mod category;
pub mod config;
pub mod disk;
pub mod effect;
pub mod entry;
pub mod front;
pub mod listing;
pub mod models;
pub mod seal;
pub mod snapshot;
pub mod text;
pub mod vault;
