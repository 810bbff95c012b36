//! The identity of an owner.
//!
//! An owner is named by the host's `Pubkey`. The library never looks inside
//! one: it stores keys, hands them on and asks whether two of them are the
//! same.

use anchor_lang::prelude::Pubkey;
use vstd::prelude::*;

verus! {

/// `anchor_lang::prelude::Pubkey`, the 32-byte account address of the host.
/// To the verifier a key is an opaque value: contracts can say of two keys
/// that they are equal, and nothing else.
#[verifier::external_type_specification]
#[verifier::external_body]
pub struct ExPubkey(anchor_lang::prelude::Pubkey);

/// Calls `Pubkey`'s `==`, which compares the 32 bytes of the two addresses.
/// Trusted: the result is `true` exactly when the two keys are the same
/// address.
#[verifier::external_body]
pub(crate) fn same_key(a: &Pubkey, b: &Pubkey) -> (same: bool)
    ensures
        same == (*a == *b),
{
    a.eq(b)
}

} // verus!
