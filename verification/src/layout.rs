//! Where a registry lies in storage, and how much storage it is given.
//!
//! The storage of a registry is reserved once, when the registry is made,
//! and cannot grow. Its address is derived from a fixed tag, the bytes of
//! the owner's key and a salt.

use crate::registry::MAX_ASSETS;
use vstd::prelude::*;

verus! {

/// The tag that the address of every registry is derived from, ahead of the
/// owner's key.
pub const REGISTRY_SEED: &'static str = "asset_registry";

/// Bytes of the header that stands before the registry.
pub const HEADER_LEN: usize = 8;

/// Bytes of the owner's key.
pub const OWNER_LEN: usize = 32;

/// Bytes of the length that stands before the records.
pub const LENGTH_PREFIX_LEN: usize = 4;

/// Bytes of one record slot.
pub const RECORD_SLOT_LEN: usize = 350;

/// Bytes of the salt.
pub const BUMP_LEN: usize = 1;

/// Bytes reserved for a registry: header, owner, length, a slot for each
/// record that it may hold, and the salt.
pub const REGISTRY_SPACE: usize = HEADER_LEN + OWNER_LEN + LENGTH_PREFIX_LEN + MAX_ASSETS
    * RECORD_SLOT_LEN + BUMP_LEN;

} // verus!
