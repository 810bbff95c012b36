//! What holds of a registry over several calls, and of the registries of
//! several owners.

use crate::record::AssetRecordView;
use crate::registry::AssetRegistryView;
use crate::vault::{base_of, delete_outcome, deleted, register_outcome, registered};
use anchor_lang::prelude::Pubkey;
use vstd::prelude::*;

verus! {

/// One call on a registry.
pub enum Call {
    /// A registration of this record.
    Register(AssetRecordView),
    /// A deletion of this content identifier.
    Delete(Seq<char>),
}

impl Call {
    /// The call succeeds on `registry`: a registration when the registry
    /// admits the record and has room, a deletion when the registry holds
    /// the content identifier.
    pub open spec fn succeeds(self, registry: AssetRegistryView) -> bool {
        match self {
            Call::Register(record) => registry.admits(record) && registry.has_room(),
            Call::Delete(cid) => registry.holds(cid),
        }
    }

    /// The registry after the call. A call that does not succeed leaves the
    /// registry as it is.
    pub open spec fn apply(self, registry: AssetRegistryView) -> AssetRegistryView {
        if self.succeeds(registry) {
            match self {
                Call::Register(record) => registry.register(record),
                Call::Delete(cid) => registry.delete(cid),
            }
        } else {
            registry
        }
    }
}

/// The registry after the calls were made on `start`, one after the other.
pub open spec fn run(start: AssetRegistryView, calls: Seq<Call>) -> AssetRegistryView
    decreases calls.len(),
{
    if calls.len() == 0 {
        start
    } else {
        calls.last().apply(run(start, calls.drop_last()))
    }
}

/// How many of the calls were successful registrations.
pub open spec fn registrations(start: AssetRegistryView, calls: Seq<Call>) -> nat
    decreases calls.len(),
{
    if calls.len() == 0 {
        0
    } else {
        let before = run(start, calls.drop_last());
        let earlier = registrations(start, calls.drop_last());
        match calls.last() {
            Call::Register(_) if calls.last().succeeds(before) => earlier + 1,
            _ => earlier,
        }
    }
}

/// How many records the successful deletions among the calls removed: for
/// each of them, the records that carried its content identifier.
pub open spec fn removals(start: AssetRegistryView, calls: Seq<Call>) -> nat
    decreases calls.len(),
{
    if calls.len() == 0 {
        0
    } else {
        let before = run(start, calls.drop_last());
        let earlier = removals(start, calls.drop_last());
        match calls.last() {
            Call::Delete(cid) if calls.last().succeeds(before) => earlier + before.matching(cid),
            _ => earlier,
        }
    }
}

/// Over any run of calls the counter grows by the number of successful
/// registrations and never falls, while the number of records grows by the
/// registrations and falls by the records that the deletions removed. The
/// registry stays well formed and keeps its owner and its salt.
pub proof fn lemma_counter_and_length(start: AssetRegistryView, calls: Seq<Call>)
    requires
        start.wf(),
    ensures
        run(start, calls).wf(),
        run(start, calls).owner == start.owner,
        run(start, calls).bump == start.bump,
        run(start, calls).asset_count == start.asset_count + registrations(start, calls),
        run(start, calls).assets.len() + removals(start, calls) == start.assets.len()
            + registrations(start, calls),
    decreases calls.len(),
{
    if calls.len() > 0 {
        let before = run(start, calls.drop_last());
        lemma_counter_and_length(start, calls.drop_last());
        match calls.last() {
            Call::Register(record) => {
                if calls.last().succeeds(before) {
                    before.lemma_register(record);
                }
            },
            Call::Delete(cid) => {
                before.lemma_delete(cid);
                before.lemma_matching(cid);
            },
        }
    }
}

/// A registry that starts empty and has seen `n` successful registrations
/// and deletions that removed `k` records holds `n - k` records, and its
/// counter stands at `n`.
pub proof fn lemma_counts_from_fresh(owner: Pubkey, bump: u8, calls: Seq<Call>)
    ensures
        ({
            let start = AssetRegistryView::fresh(owner, bump);
            let n = registrations(start, calls);
            let k = removals(start, calls);
            &&& k <= n
            &&& run(start, calls).assets.len() == n - k
            &&& run(start, calls).asset_count == n
        }),
{
    lemma_counter_and_length(AssetRegistryView::fresh(owner, bump), calls);
}

/// Two records with the same content identifier can be registered one
/// after the other and then stand both in the registry, last; one deletion
/// of that identifier removes both, along with any older record that
/// carries it, and leaves the counter two higher than it was.
pub proof fn lemma_same_cid_twice(
    registry: AssetRegistryView,
    first: AssetRecordView,
    second: AssetRecordView,
)
    requires
        registry.wf(),
        registry.admits(first),
        registry.admits(second),
        first.cid == second.cid,
        registry.has_room(),
        registry.register(first).has_room(),
    ensures
        ({
            let twice = registry.register(first).register(second);
            &&& Call::Register(first).succeeds(registry)
            &&& Call::Register(second).succeeds(registry.register(first))
            &&& twice.wf()
            &&& twice.assets == registry.assets.push(first).push(second)
            &&& twice.holds(first.cid)
            &&& twice.delete(first.cid).assets == registry.delete(first.cid).assets
            &&& !twice.delete(first.cid).holds(first.cid)
            &&& twice.delete(first.cid).asset_count == registry.asset_count + 2
        }),
{
    let once = registry.register(first);
    let twice = once.register(second);
    let keep = |record: AssetRecordView| record.cid != first.cid;
    registry.lemma_register(first);
    once.lemma_register(second);
    twice.lemma_delete(first.cid);
    registry.assets.lemma_filter_push(first, keep);
    registry.assets.push(first).lemma_filter_push(second, keep);
}

/// A registration by one owner leaves every other owner as it found them:
/// with a registry or without, and the registry as it was.
pub proof fn lemma_register_leaves_others(
    registries: Map<Pubkey, AssetRegistryView>,
    owner: Pubkey,
    record: AssetRecordView,
    other: Pubkey,
)
    requires
        other != owner,
    ensures
        registered(registries, owner, record).dom().contains(other) == registries.dom().contains(
            other,
        ),
        registered(registries, owner, record)[other] == registries[other],
{
}

/// A deletion by one owner leaves every other owner as it found them: with
/// a registry or without, and the registry as it was.
pub proof fn lemma_delete_leaves_others(
    registries: Map<Pubkey, AssetRegistryView>,
    owner: Pubkey,
    cid: Seq<char>,
    other: Pubkey,
)
    requires
        other != owner,
    ensures
        deleted(registries, owner, cid).dom().contains(other) == registries.dom().contains(other),
        deleted(registries, owner, cid)[other] == registries[other],
{
}

/// No call takes a registry away: an owner who has a registry has one after
/// any registration and any deletion, their own or another's.
pub proof fn lemma_registries_stay(
    registries: Map<Pubkey, AssetRegistryView>,
    owner: Pubkey,
    record: AssetRecordView,
    cid: Seq<char>,
)
    ensures
        registries.dom().subset_of(registered(registries, owner, record).dom()),
        registries.dom().subset_of(deleted(registries, owner, cid).dom()),
{
}

/// A registration sees the registry of the caller and no other: in two
/// vaults that agree on the caller it ends the same way and gives the
/// caller the same registry.
pub proof fn lemma_register_sees_owner_only(
    here: Map<Pubkey, AssetRegistryView>,
    there: Map<Pubkey, AssetRegistryView>,
    owner: Pubkey,
    record: AssetRecordView,
)
    requires
        here.dom().contains(owner) == there.dom().contains(owner),
        here.dom().contains(owner) ==> here[owner] == there[owner],
    ensures
        register_outcome(
            here,
            owner,
            record.bump,
            record.cid,
            record.name,
            record.description,
            record.file_type,
        ) == register_outcome(
            there,
            owner,
            record.bump,
            record.cid,
            record.name,
            record.description,
            record.file_type,
        ),
        registered(here, owner, record)[owner] == registered(there, owner, record)[owner],
{
}

/// A deletion sees the registry of the caller and no other: in two vaults
/// that agree on the caller it ends the same way and gives the caller the
/// same registry.
pub proof fn lemma_delete_sees_owner_only(
    here: Map<Pubkey, AssetRegistryView>,
    there: Map<Pubkey, AssetRegistryView>,
    owner: Pubkey,
    cid: Seq<char>,
)
    requires
        here.dom().contains(owner) == there.dom().contains(owner),
        here.dom().contains(owner) ==> here[owner] == there[owner],
    ensures
        delete_outcome(here, owner, cid) == delete_outcome(there, owner, cid),
        here.dom().contains(owner) ==> deleted(here, owner, cid)[owner] == deleted(
            there,
            owner,
            cid,
        )[owner],
{
}

/// Calls of two owners do not get in each other's way: a registration by
/// one and a deletion by the other end the same way and leave the same
/// registries in either order.
pub proof fn lemma_owners_commute(
    registries: Map<Pubkey, AssetRegistryView>,
    registering: Pubkey,
    record: AssetRecordView,
    deleting: Pubkey,
    cid: Seq<char>,
)
    requires
        registering != deleting,
        registries.dom().contains(deleting),
    ensures
        deleted(registered(registries, registering, record), deleting, cid) == registered(
            deleted(registries, deleting, cid),
            registering,
            record,
        ),
        delete_outcome(registered(registries, registering, record), deleting, cid)
            == delete_outcome(registries, deleting, cid),
        register_outcome(
            deleted(registries, deleting, cid),
            registering,
            record.bump,
            record.cid,
            record.name,
            record.description,
            record.file_type,
        ) == register_outcome(
            registries,
            registering,
            record.bump,
            record.cid,
            record.name,
            record.description,
            record.file_type,
        ),
{
    assert(deleted(registered(registries, registering, record), deleting, cid) =~= registered(
        deleted(registries, deleting, cid),
        registering,
        record,
    ));
    assert(base_of(deleted(registries, deleting, cid), registering, record.bump) == base_of(
        registries,
        registering,
        record.bump,
    ));
}

} // verus!
