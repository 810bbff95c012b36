//! The two operations on a registry.

use crate::accounts::{DeleteAsset, RegisterAsset};
use crate::error::VaultError;
use crate::record::{admission, check_admission, AssetRecord, AssetRecordView};
use crate::registry::AssetRegistry;
use vstd::prelude::*;
use vstd::seq_lib::lemma_filter_view_commute;

verus! {

/// Registers an asset for the owner at time `now`.
///
/// The four texts go through the admission checks; when one fails the call
/// ends with its error and the accounts are as they were. Otherwise the
/// call succeeds: a record of the arguments, the owner, `now` and the salt
/// is appended to the owner's registry, which is made first if the owner
/// had none, and the counter of the registry goes up by one.
pub fn register_asset(
    ctx: &mut RegisterAsset,
    cid: String,
    name: String,
    description: String,
    file_type: String,
    file_size: u64,
    now: i64,
) -> (outcome: Result<(), VaultError>)
    requires
        old(ctx).wf(),
        old(ctx).has_room(),
    ensures
        final(ctx).wf(),
        outcome == admission(cid@, name@, description@, file_type@),
        outcome is Err ==> *final(ctx) == *old(ctx),
        outcome is Ok ==> {
            &&& final(ctx).owner == old(ctx).owner
            &&& final(ctx).bump == old(ctx).bump
            &&& final(ctx).registry is Some
            &&& final(ctx).base() == old(ctx).base().register(
                AssetRecordView {
                    cid: cid@,
                    name: name@,
                    description: description@,
                    file_type: file_type@,
                    file_size,
                    owner: old(ctx).owner,
                    timestamp: now,
                    bump: old(ctx).bump,
                },
            )
        },
{
    let checked = check_admission(
        cid.as_str(),
        name.as_str(),
        description.as_str(),
        file_type.as_str(),
    );
    if checked.is_err() {
        return checked;
    }
    let owner = ctx.owner;
    let bump = ctx.bump;
    let record = AssetRecord {
        cid,
        name,
        description,
        file_type,
        file_size,
        owner,
        timestamp: now,
        bump,
    };
    let ghost base = ctx.base();
    match &mut ctx.registry {
        Some(registry) => {
            registry.assets.push(record);
            registry.asset_count += 1;
        },
        None => {
            let mut registry = AssetRegistry::new(owner, bump);
            registry.assets.push(record);
            registry.asset_count += 1;
            ctx.registry = Some(registry);
        },
    }
    assert(ctx.base().assets =~= base.assets.push(record@));
    Ok(())
}

/// Whether some record in `assets` carries the content identifier `cid`.
fn holds_cid(assets: &Vec<AssetRecord>, cid: &String) -> (found: bool)
    ensures
        found == exists|i: int| 0 <= i < assets.len() && (#[trigger] assets[i]).cid@ == cid@,
{
    let mut i: usize = 0;
    while i < assets.len()
        invariant
            i <= assets.len(),
            forall|j: int| 0 <= j < i ==> (#[trigger] assets[j]).cid@ != cid@,
        decreases assets.len() - i,
    {
        if assets[i].cid == *cid {
            return true;
        }
        i += 1;
    }
    false
}

/// Takes every record with the content identifier `cid` out of `assets` and
/// leaves the others in their order.
fn remove_cid(assets: &mut Vec<AssetRecord>, cid: &String)
    ensures
        final(assets)@ == old(assets)@.filter(|record: AssetRecord| record.cid@ != cid@),
{
    let ghost keep = |record: AssetRecord| record.cid@ != cid@;
    let ghost before = assets@;
    let mut kept: usize = 0;
    let ghost mut seen: int = 0;
    proof {
        before.take(0).lemma_filter_len(keep);
    }
    while kept < assets.len()
        invariant
            0 <= seen <= before.len(),
            kept == before.take(seen).filter(keep).len(),
            assets@ == before.take(seen).filter(keep) + before.skip(seen),
            keep == |record: AssetRecord| record.cid@ != cid@,
        decreases before.len() - seen,
    {
        proof {
            assert(before.take(seen + 1) =~= before.take(seen).push(before[seen]));
            before.take(seen).lemma_filter_push(before[seen], keep);
        }
        if assets[kept].cid == *cid {
            assets.remove(kept);
        } else {
            kept += 1;
        }
        proof {
            seen = seen + 1;
        }
    }
    assert(before.take(seen) =~= before);
}

/// Deletes from the owner's registry every record with the content
/// identifier `cid`.
///
/// When the registry holds such a record the call succeeds: all of them are
/// gone, the other records stand in their old order, and the counter is
/// what it was. When it holds none the call ends with `AssetNotFound` and
/// the accounts are as they were.
pub fn delete_asset(ctx: &mut DeleteAsset, cid: String) -> (outcome: Result<(), VaultError>)
    requires
        old(ctx).wf(),
    ensures
        final(ctx).wf(),
        final(ctx).owner == old(ctx).owner,
        match outcome {
            Ok(()) => {
                &&& old(ctx).registry@.holds(cid@)
                &&& final(ctx).registry@ == old(ctx).registry@.delete(cid@)
            },
            Err(error) => {
                &&& error == VaultError::AssetNotFound
                &&& !old(ctx).registry@.holds(cid@)
                &&& *final(ctx) == *old(ctx)
            },
        },
{
    if !holds_cid(&ctx.registry.assets, &cid) {
        return Err(VaultError::AssetNotFound);
    }
    remove_cid(&mut ctx.registry.assets, &cid);
    proof {
        let before = old(ctx).registry;
        let at = choose|i: int|
            0 <= i < before.assets.len() && (#[trigger] before.assets[i]).cid@ == cid@;
        assert(before@.assets[at].cid == cid@);
        lemma_filter_view_commute(
            before.assets@,
            |record: AssetRecord| record.cid@ != cid@,
            |record: AssetRecordView| record.cid != cid@,
        );
        before@.lemma_delete(cid@);
    }
    Ok(())
}

} // verus!
