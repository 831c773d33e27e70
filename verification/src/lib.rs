//! A contract-authoring toolkit for PolkaVM-style smart contracts.
//!
//! Authors describe a contract as a declarative module: one storage
//! declaration, at most one constructor, a list of callable methods and
//! event records.  The toolkit derives the binary artifacts that a deployed
//! contract needs — deterministic selectors and storage keys, storage
//! load/save marshaling, a selector dispatch table, and a typed proxy for
//! invoking other contracts — and proves the artifacts consistent with one
//! another.

pub mod account;
pub mod address;
pub mod arena;
pub mod backend;
pub mod calls;
pub mod codec;
pub mod config;
pub mod entry;
pub mod events;
pub mod flipper;
pub mod generate;
pub mod hashing;
pub mod keys;
pub mod module;
pub mod storage;
pub mod storage_items;
pub mod words;
