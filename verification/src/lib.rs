//! Verified core of a filesystem-link manager: planning of link batches
//! across nine linking modes, durable batch records in an embedded key-value
//! store, and the text codec used for persisted link entries.

pub mod codec;
pub mod database;
pub mod error;
pub mod paths;
pub mod store;
pub mod symlink;
pub mod utils;
