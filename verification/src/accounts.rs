//! The accounts of the two operations: who calls, and which registry the
//! call is about.
//!
//! An operation works on the accounts it is given and assumes that they
//! belong together. The constructors here are where that is checked.

use crate::error::VaultError;
use crate::key::same_key;
use crate::registry::{AssetRegistry, AssetRegistryView};
use anchor_lang::prelude::Pubkey;
use vstd::prelude::*;

verus! {

/// The accounts of a registration.
pub struct RegisterAsset {
    /// The caller, who owns the registry.
    pub owner: Pubkey,
    /// The owner's registry, or `None` as long as the owner has none. The
    /// first successful registration makes it.
    pub registry: Option<AssetRegistry>,
    /// The salt of the address of the owner's registry.
    pub bump: u8,
}

impl RegisterAsset {
    /// The accounts belong together: the registry, if there is one, is well
    /// formed, names the caller as its owner and lies at the salted address.
    pub open spec fn wf(&self) -> bool {
        match self.registry {
            Some(registry) => registry.wf() && registry.owner == self.owner && registry.bump
                == self.bump,
            None => true,
        }
    }

    /// The registry that a registration adds to: the one there is, or else
    /// the fresh one that the registration makes.
    pub open spec fn base(&self) -> AssetRegistryView {
        match self.registry {
            Some(registry) => registry@,
            None => AssetRegistryView::fresh(self.owner, self.bump),
        }
    }

    /// One more record fits into the registry.
    pub open spec fn spec_has_room(&self) -> bool {
        self.base().has_room()
    }

    /// The accounts of the first registration of `owner`, who has no
    /// registry yet. `bump` is the salt of the address where it will lie.
    pub fn create(owner: Pubkey, bump: u8) -> (accounts: Self)
        ensures
            accounts.owner == owner,
            accounts.registry is None,
            accounts.bump == bump,
            accounts.wf(),
            accounts.has_room(),
    {
        RegisterAsset { owner, registry: None, bump }
    }

    /// The accounts of a registration by `caller` into an existing
    /// registry. Refused as `Unauthorized` exactly when the registry names
    /// another owner.
    pub fn load(caller: Pubkey, registry: AssetRegistry) -> (loaded: Result<Self, VaultError>)
        requires
            registry.wf(),
        ensures
            match loaded {
                Ok(accounts) => {
                    &&& registry.owner == caller
                    &&& accounts.owner == caller
                    &&& accounts.registry == Some(registry)
                    &&& accounts.bump == registry.bump
                    &&& accounts.wf()
                },
                Err(error) => registry.owner != caller && error == VaultError::Unauthorized,
            },
    {
        if !same_key(&registry.owner, &caller) {
            return Err(VaultError::Unauthorized);
        }
        let bump = registry.bump;
        Ok(RegisterAsset { owner: caller, registry: Some(registry), bump })
    }

    /// Whether one more record fits into the registry, which
    /// [`register_asset`](crate::operations::register_asset) asks for.
    #[verifier::when_used_as_spec(spec_has_room)]
    pub fn has_room(&self) -> (room: bool)
        ensures
            room == self.spec_has_room(),
    {
        match &self.registry {
            Some(registry) => registry.has_room(),
            None => true,
        }
    }
}

/// The accounts of a deletion.
pub struct DeleteAsset {
    /// The caller, who owns the registry.
    pub owner: Pubkey,
    /// The owner's registry.
    pub registry: AssetRegistry,
}

impl DeleteAsset {
    /// The accounts belong together: the registry is well formed and names
    /// the caller as its owner.
    pub open spec fn wf(&self) -> bool {
        self.registry.wf() && self.registry.owner == self.owner
    }

    /// The accounts of a deletion by `caller` from `registry`. Refused as
    /// `Unauthorized` exactly when the registry names another owner.
    pub fn load(caller: Pubkey, registry: AssetRegistry) -> (loaded: Result<Self, VaultError>)
        requires
            registry.wf(),
        ensures
            match loaded {
                Ok(accounts) => {
                    &&& registry.owner == caller
                    &&& accounts.owner == caller
                    &&& accounts.registry == registry
                    &&& accounts.wf()
                },
                Err(error) => registry.owner != caller && error == VaultError::Unauthorized,
            },
    {
        if !same_key(&registry.owner, &caller) {
            return Err(VaultError::Unauthorized);
        }
        Ok(DeleteAsset { owner: caller, registry })
    }
}

} // verus!
