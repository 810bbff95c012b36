//! The registries of many owners, each found by its owner.
//!
//! A [`Vault`] is the place where registries live between calls. It keeps
//! at most one registry per owner, makes a registry when its owner first
//! registers an asset, and hands each call the registry of the caller and
//! no other.

use crate::accounts::{DeleteAsset, RegisterAsset};
use crate::error::VaultError;
use crate::key::same_key;
use crate::operations::{delete_asset, register_asset};
use crate::record::{admission, check_admission, AssetRecordView};
use crate::registry::{AssetRegistry, AssetRegistryView};
use anchor_lang::prelude::Pubkey;
use vstd::prelude::*;

verus! {

/// Why a call on a [`Vault`] failed. A failed call changes nothing.
#[derive(Clone, Copy, Debug, PartialEq, Eq)]
pub enum StoreError {
    /// The operation itself refused, with this error.
    Refused(VaultError),
    /// The owner has no registry.
    RegistryNotFound,
    /// The owner's registry does not lie at the address that the salt
    /// gives.
    AddressMismatch,
    /// The owner's registry has no room for another record.
    StorageExhausted,
}

/// The registry that a registration by `owner` adds to: the owner's own, or
/// else a fresh one salted with `bump`.
pub open spec fn base_of(
    registries: Map<Pubkey, AssetRegistryView>,
    owner: Pubkey,
    bump: u8,
) -> AssetRegistryView {
    if registries.dom().contains(owner) {
        registries[owner]
    } else {
        AssetRegistryView::fresh(owner, bump)
    }
}

/// How a registration by `owner` ends. The salt is held against the
/// registry first, then the texts go through the admission checks, then
/// the registry must have room.
pub open spec fn register_outcome(
    registries: Map<Pubkey, AssetRegistryView>,
    owner: Pubkey,
    bump: u8,
    cid: Seq<char>,
    name: Seq<char>,
    description: Seq<char>,
    file_type: Seq<char>,
) -> Result<(), StoreError> {
    let base = base_of(registries, owner, bump);
    if base.bump != bump {
        Err(StoreError::AddressMismatch)
    } else {
        match admission(cid, name, description, file_type) {
            Err(error) => Err(StoreError::Refused(error)),
            Ok(()) => if base.has_room() {
                Ok(())
            } else {
                Err(StoreError::StorageExhausted)
            },
        }
    }
}

/// The registries after `owner` registered `record`: the owner's registry
/// has the record, the others are as they were.
pub open spec fn registered(
    registries: Map<Pubkey, AssetRegistryView>,
    owner: Pubkey,
    record: AssetRecordView,
) -> Map<Pubkey, AssetRegistryView> {
    registries.insert(owner, base_of(registries, owner, record.bump).register(record))
}

/// How a deletion by `owner` ends.
pub open spec fn delete_outcome(
    registries: Map<Pubkey, AssetRegistryView>,
    owner: Pubkey,
    cid: Seq<char>,
) -> Result<(), StoreError> {
    if !registries.dom().contains(owner) {
        Err(StoreError::RegistryNotFound)
    } else if !registries[owner].holds(cid) {
        Err(StoreError::Refused(VaultError::AssetNotFound))
    } else {
        Ok(())
    }
}

/// The registries after `owner` deleted `cid`: the owner's registry has
/// lost the records with that content identifier, the others are as they
/// were.
pub open spec fn deleted(
    registries: Map<Pubkey, AssetRegistryView>,
    owner: Pubkey,
    cid: Seq<char>,
) -> Map<Pubkey, AssetRegistryView> {
    registries.insert(owner, registries[owner].delete(cid))
}

/// No two of the registries name the same owner.
spec fn distinct_owners(registries: Seq<AssetRegistry>) -> bool {
    forall|i: int, j: int|
        0 <= i < j < registries.len() ==> (#[trigger] registries[i]).owner
            != (#[trigger] registries[j]).owner
}

/// `owner` has a registry at place `at`.
spec fn at_place(registries: Seq<AssetRegistry>, owner: Pubkey, at: int) -> bool {
    0 <= at < registries.len() && registries[at].owner == owner
}

/// The registries, each under its owner.
spec fn by_owner(registries: Seq<AssetRegistry>) -> Map<Pubkey, AssetRegistryView> {
    Map::new(
        |owner: Pubkey| exists|at: int| at_place(registries, owner, at),
        |owner: Pubkey| registries[choose|at: int| at_place(registries, owner, at)]@,
    )
}

/// The registry at a place is the one that its owner is mapped to.
proof fn lemma_place(registries: Seq<AssetRegistry>, at: int)
    requires
        distinct_owners(registries),
        0 <= at < registries.len(),
    ensures
        by_owner(registries).dom().contains(registries[at].owner),
        by_owner(registries)[registries[at].owner] == registries[at]@,
{
    assert(at_place(registries, registries[at].owner, at));
}

/// Replacing a registry by another of the same owner changes the mapping at
/// that owner alone.
proof fn lemma_replace(registries: Seq<AssetRegistry>, at: int, next: AssetRegistry)
    requires
        distinct_owners(registries),
        0 <= at < registries.len(),
        next.owner == registries[at].owner,
    ensures
        distinct_owners(registries.update(at, next)),
        by_owner(registries.update(at, next)) == by_owner(registries).insert(next.owner, next@),
{
    let after = registries.update(at, next);
    assert forall|owner: Pubkey|
        by_owner(after).dom().contains(owner) <==> #[trigger] by_owner(registries).insert(
            next.owner,
            next@,
        ).dom().contains(owner) by {
        if by_owner(after).dom().contains(owner) {
            let place = choose|place: int| at_place(after, owner, place);
            assert(at_place(registries, registries[place].owner, place));
        }
        if by_owner(registries).dom().contains(owner) {
            let place = choose|place: int| at_place(registries, owner, place);
            assert(at_place(after, after[place].owner, place));
        }
        assert(at_place(after, next.owner, at));
    }
    assert forall|owner: Pubkey| by_owner(after).dom().contains(owner) implies #[trigger] by_owner(
        after,
    )[owner] == by_owner(registries).insert(next.owner, next@)[owner] by {
        let place = choose|place: int| at_place(after, owner, place);
        lemma_place(after, place);
        if place != at {
            lemma_place(registries, place);
        }
    }
}

/// Adding the registry of an owner who had none changes the mapping at that
/// owner alone.
proof fn lemma_add(registries: Seq<AssetRegistry>, next: AssetRegistry)
    requires
        distinct_owners(registries),
        !by_owner(registries).dom().contains(next.owner),
    ensures
        distinct_owners(registries.push(next)),
        by_owner(registries.push(next)) == by_owner(registries).insert(next.owner, next@),
{
    let after = registries.push(next);
    let last = registries.len() as int;
    assert forall|i: int, j: int| 0 <= i < j < after.len() implies (#[trigger] after[i]).owner != (
    #[trigger] after[j]).owner by {
        if j == last {
            assert(at_place(registries, registries[i].owner, i));
        }
    }
    assert forall|owner: Pubkey|
        by_owner(after).dom().contains(owner) <==> #[trigger] by_owner(registries).insert(
            next.owner,
            next@,
        ).dom().contains(owner) by {
        if by_owner(after).dom().contains(owner) {
            let place = choose|place: int| at_place(after, owner, place);
            if place < last {
                assert(at_place(registries, owner, place));
            }
        }
        if by_owner(registries).dom().contains(owner) {
            let place = choose|place: int| at_place(registries, owner, place);
            assert(at_place(after, owner, place));
        }
        assert(at_place(after, next.owner, last));
    }
    assert forall|owner: Pubkey| by_owner(after).dom().contains(owner) implies #[trigger] by_owner(
        after,
    )[owner] == by_owner(registries).insert(next.owner, next@)[owner] by {
        let place = choose|place: int| at_place(after, owner, place);
        lemma_place(after, place);
        if place < last {
            lemma_place(registries, place);
        }
    }
}

/// What the vault answers when an operation gave `outcome`.
fn refused(outcome: Result<(), VaultError>) -> (answer: Result<(), StoreError>)
    ensures
        answer == match outcome {
            Ok(()) => Ok::<(), StoreError>(()),
            Err(error) => Err(StoreError::Refused(error)),
        },
{
    match outcome {
        Ok(()) => Ok(()),
        Err(error) => Err(StoreError::Refused(error)),
    }
}

/// The registries of many owners.
pub struct Vault {
    registries: Vec<AssetRegistry>,
}

impl View for Vault {
    type V = Map<Pubkey, AssetRegistryView>;

    /// The owners that have a registry, each with its registry.
    closed spec fn view(&self) -> Map<Pubkey, AssetRegistryView> {
        by_owner(self.registries@)
    }
}

impl Vault {
    /// The invariant of a vault: every registry is well formed, and no two
    /// name the same owner.
    pub closed spec fn wf(&self) -> bool {
        &&& distinct_owners(self.registries@)
        &&& forall|i: int|
            0 <= i < self.registries.len() ==> (#[trigger] self.registries[i]).wf()
    }

    /// In a well-formed vault every registry is well formed and stands
    /// under the owner that it names.
    pub proof fn lemma_registries(&self)
        requires
            self.wf(),
        ensures
            forall|owner: Pubkey| #[trigger]
                self@.dom().contains(owner) ==> self@[owner].wf() && self@[owner].owner == owner,
    {
        assert forall|owner: Pubkey| #[trigger] self@.dom().contains(owner) implies self@[owner].wf()
            && self@[owner].owner == owner by {
            let place = choose|place: int| at_place(self.registries@, owner, place);
            lemma_place(self.registries@, place);
        }
    }

    /// A vault without registries.
    pub fn new() -> (vault: Vault)
        ensures
            vault.wf(),
            vault@ == Map::<Pubkey, AssetRegistryView>::empty(),
    {
        Vault { registries: Vec::new() }
    }

    /// The place of the registry of `owner`, if there is one.
    fn find(&self, owner: &Pubkey) -> (place: Option<usize>)
        requires
            self.wf(),
        ensures
            match place {
                Some(at) => {
                    &&& at_place(self.registries@, *owner, at as int)
                    &&& self@.dom().contains(*owner)
                    &&& self@[*owner] == self.registries[at as int]@
                },
                None => !self@.dom().contains(*owner),
            },
    {
        let mut at: usize = 0;
        while at < self.registries.len()
            invariant
                self.wf(),
                at <= self.registries.len(),
                forall|seen: int| 0 <= seen < at ==> !at_place(self.registries@, *owner, seen),
            decreases self.registries.len() - at,
        {
            if same_key(&self.registries[at].owner, owner) {
                proof {
                    lemma_place(self.registries@, at as int);
                }
                return Some(at);
            }
            at += 1;
        }
        None
    }

    /// The registry of `owner`, if there is one.
    pub fn registry(&self, owner: &Pubkey) -> (found: Option<&AssetRegistry>)
        requires
            self.wf(),
        ensures
            match found {
                Some(registry) => {
                    &&& self@.dom().contains(*owner)
                    &&& registry@ == self@[*owner]
                    &&& registry.wf()
                    &&& registry.owner == *owner
                },
                None => !self@.dom().contains(*owner),
            },
    {
        match self.find(owner) {
            Some(at) => Some(&self.registries[at]),
            None => None,
        }
    }

    /// Registers an asset for `owner` at time `now`. `bump` is the salt of
    /// the address of the owner's registry.
    ///
    /// The call fails, and changes nothing, when the owner's registry was
    /// made with another salt, when a text fails its admission check, or
    /// when the registry has no room. Otherwise the record is appended to
    /// the owner's registry, which is made first if the owner had none.
    /// No other owner's registry is read or changed.
    pub fn register(
        &mut self,
        owner: Pubkey,
        bump: u8,
        cid: String,
        name: String,
        description: String,
        file_type: String,
        file_size: u64,
        now: i64,
    ) -> (outcome: Result<(), StoreError>)
        requires
            old(self).wf(),
        ensures
            final(self).wf(),
            outcome == register_outcome(
                old(self)@,
                owner,
                bump,
                cid@,
                name@,
                description@,
                file_type@,
            ),
            outcome is Err ==> final(self)@ == old(self)@,
            outcome is Ok ==> final(self)@ == registered(
                old(self)@,
                owner,
                AssetRecordView {
                    cid: cid@,
                    name: name@,
                    description: description@,
                    file_type: file_type@,
                    file_size,
                    owner,
                    timestamp: now,
                    bump,
                },
            ),
    {
        let place = self.find(&owner);
        if let Some(at) = place {
            if self.registries[at].bump != bump {
                return Err(StoreError::AddressMismatch);
            }
        }
        if let Err(error) = check_admission(
            cid.as_str(),
            name.as_str(),
            description.as_str(),
            file_type.as_str(),
        ) {
            return Err(StoreError::Refused(error));
        }
        match place {
            Some(at) => {
                if !self.registries[at].has_room() {
                    return Err(StoreError::StorageExhausted);
                }
                let mut ctx = RegisterAsset {
                    owner,
                    registry: Some(self.registries.remove(at)),
                    bump,
                };
                let outcome = register_asset(
                    &mut ctx,
                    cid,
                    name,
                    description,
                    file_type,
                    file_size,
                    now,
                );
                let registry = ctx.registry.unwrap();
                proof {
                    lemma_replace(old(self).registries@, at as int, registry);
                    assert(old(self).registries@.remove(at as int).insert(at as int, registry)
                        =~= old(self).registries@.update(at as int, registry));
                }
                self.registries.insert(at, registry);
                refused(outcome)
            },
            None => {
                let mut ctx = RegisterAsset::create(owner, bump);
                let outcome = register_asset(
                    &mut ctx,
                    cid,
                    name,
                    description,
                    file_type,
                    file_size,
                    now,
                );
                let registry = ctx.registry.unwrap();
                proof {
                    lemma_add(old(self).registries@, registry);
                }
                self.registries.push(registry);
                refused(outcome)
            },
        }
    }

    /// Deletes from the registry of `owner` every record with the content
    /// identifier `cid`.
    ///
    /// The call fails, and changes nothing, when the owner has no registry
    /// or the registry holds no such record. No registry is made, and no
    /// other owner's registry is read or changed.
    pub fn delete(&mut self, owner: Pubkey, cid: String) -> (outcome: Result<(), StoreError>)
        requires
            old(self).wf(),
        ensures
            final(self).wf(),
            outcome == delete_outcome(old(self)@, owner, cid@),
            outcome is Err ==> final(self)@ == old(self)@,
            outcome is Ok ==> final(self)@ == deleted(old(self)@, owner, cid@),
    {
        let at = match self.find(&owner) {
            Some(at) => at,
            None => {
                return Err(StoreError::RegistryNotFound);
            },
        };
        let mut ctx = DeleteAsset { owner, registry: self.registries.remove(at) };
        let outcome = delete_asset(&mut ctx, cid);
        let registry = ctx.registry;
        proof {
            lemma_replace(old(self).registries@, at as int, registry);
            assert(old(self).registries@.remove(at as int).insert(at as int, registry)
                =~= old(self).registries@.update(at as int, registry));
        }
        self.registries.insert(at, registry);
        refused(outcome)
    }
}

} // verus!
