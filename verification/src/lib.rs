//! A per-owner registry of content-addressed assets, verified with Verus.
//!
//! Every owner has at most one [`AssetRegistry`]: an ordered list of
//! [`AssetRecord`]s and a counter of all registrations ever made. Two
//! operations change it, [`register_asset`] and [`delete_asset`]; each either
//! takes full effect or leaves the registry as it was.
//!
//! - [`record`] and [`registry`] hold the data, their mathematical views and
//!   the invariant of a registry.
//! - [`accounts`] holds what a call is made on: the caller and the caller's
//!   registry.
//! - [`operations`] holds the two operations, each with a contract that
//!   says when it succeeds and what it leaves behind.
//! - [`vault`] keeps the registries of many owners apart.
//! - [`laws`] proves what holds over several calls and several owners.
//! - [`layout`] names the storage that a registry is given, and [`key`] the
//!   identity of an owner.

pub mod accounts;
pub mod error;
pub mod key;
pub mod laws;
pub mod layout;
pub mod operations;
pub mod record;
pub mod registry;
pub mod vault;

pub use accounts::{DeleteAsset, RegisterAsset};
pub use error::VaultError;
pub use layout::{REGISTRY_SEED, REGISTRY_SPACE};
pub use operations::{delete_asset, register_asset};
pub use record::{
    check_admission, AssetRecord, AssetRecordView, MAX_CID_LEN, MAX_DESCRIPTION_LEN,
    MAX_FILE_TYPE_LEN, MAX_NAME_LEN,
};
pub use registry::{AssetRegistry, AssetRegistryView, MAX_ASSETS};
pub use vault::{StoreError, Vault};
