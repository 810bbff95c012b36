//! The registry of one owner: its records, its counter, and what holds of
//! them.

use crate::key::same_key;
use crate::record::{AssetRecord, AssetRecordView};
use anchor_lang::prelude::Pubkey;
use vstd::prelude::*;

verus! {

/// Most records a registry can hold: the storage reserved for it has this
/// many record slots.
pub const MAX_ASSETS: usize = 300;

/// What an [`AssetRegistry`] holds, as mathematical values.
pub struct AssetRegistryView {
    pub owner: Pubkey,
    pub assets: Seq<AssetRecordView>,
    pub asset_count: nat,
    pub bump: u8,
}

impl AssetRegistryView {
    /// The registry of `owner` as it is created: no records, nothing counted.
    pub open spec fn fresh(owner: Pubkey, bump: u8) -> Self {
        AssetRegistryView { owner, assets: Seq::empty(), asset_count: 0, bump }
    }

    /// `record` may stand in this registry: it passes the admission checks
    /// and carries the registry's owner and salt.
    pub open spec fn admits(self, record: AssetRecordView) -> bool {
        &&& record.admissible()
        &&& record.owner == self.owner
        &&& record.bump == self.bump
    }

    /// The invariant of a registry: it holds no more records than it has
    /// slots, never more than were ever registered, and only records that
    /// it admits.
    pub open spec fn wf(self) -> bool {
        &&& self.assets.len() <= MAX_ASSETS
        &&& self.assets.len() <= self.asset_count <= u32::MAX
        &&& forall|i: int| 0 <= i < self.assets.len() ==> self.admits(#[trigger] self.assets[i])
    }

    /// One more record fits: a slot is free and the counter can still grow.
    pub open spec fn has_room(self) -> bool {
        self.assets.len() < MAX_ASSETS && self.asset_count < u32::MAX
    }

    /// Some record carries the content identifier `cid`.
    pub open spec fn holds(self, cid: Seq<char>) -> bool {
        exists|i: int| 0 <= i < self.assets.len() && (#[trigger] self.assets[i]).cid == cid
    }

    /// How many records carry the content identifier `cid`.
    pub open spec fn matching(self, cid: Seq<char>) -> nat {
        self.assets.filter(|record: AssetRecordView| record.cid == cid).len()
    }

    /// The registry after `record` was registered: the record stands last
    /// and the counter is one higher.
    pub open spec fn register(self, record: AssetRecordView) -> Self {
        AssetRegistryView {
            assets: self.assets.push(record),
            asset_count: self.asset_count + 1,
            ..self
        }
    }

    /// The registry after `cid` was deleted: every record with that content
    /// identifier is gone, the others stand in their old order, and the
    /// counter is what it was.
    pub open spec fn delete(self, cid: Seq<char>) -> Self {
        AssetRegistryView {
            assets: self.assets.filter(|record: AssetRecordView| record.cid != cid),
            ..self
        }
    }
}

/// A filter that every element passes keeps the sequence as it is.
proof fn lemma_filter_keeps_all<A>(s: Seq<A>, keep: spec_fn(A) -> bool)
    requires
        forall|i: int| 0 <= i < s.len() ==> keep(#[trigger] s[i]),
    ensures
        s.filter(keep) == s,
    decreases s.len(),
{
    reveal(Seq::filter);
    if s.len() > 0 {
        lemma_filter_keeps_all(s.drop_last(), keep);
    }
}

/// A filter that some element fails makes the sequence shorter.
proof fn lemma_filter_drops_one<A>(s: Seq<A>, keep: spec_fn(A) -> bool, at: int)
    requires
        0 <= at < s.len(),
        !keep(s[at]),
    ensures
        s.filter(keep).len() < s.len(),
    decreases s.len(),
{
    reveal(Seq::filter);
    s.drop_last().lemma_filter_len(keep);
    if at < s.len() - 1 {
        lemma_filter_drops_one(s.drop_last(), keep, at);
    }
}

/// A filter and its opposite split a sequence: their lengths add up to its
/// length.
proof fn lemma_filter_splits<A>(s: Seq<A>, keep: spec_fn(A) -> bool, drop: spec_fn(A) -> bool)
    requires
        forall|a: A| #[trigger] keep(a) <==> !drop(a),
    ensures
        s.filter(keep).len() + s.filter(drop).len() == s.len(),
    decreases s.len(),
{
    reveal(Seq::filter);
    if s.len() > 0 {
        lemma_filter_splits(s.drop_last(), keep, drop);
    }
}

impl AssetRegistryView {
    /// A deletion removes as many records as carry the content identifier.
    pub proof fn lemma_matching(self, cid: Seq<char>)
        ensures
            self.delete(cid).assets.len() + self.matching(cid) == self.assets.len(),
            self.holds(cid) <==> self.matching(cid) > 0,
    {
        let keep = |record: AssetRecordView| record.cid != cid;
        let drop = |record: AssetRecordView| record.cid == cid;
        lemma_filter_splits(self.assets, keep, drop);
        if self.holds(cid) {
            let at = choose|i: int| 0 <= i < self.assets.len() && (#[trigger] self.assets[i]).cid
                == cid;
            lemma_filter_drops_one(self.assets, keep, at);
        } else {
            lemma_filter_keeps_all(self.assets, keep);
        }
    }

    /// A registration into a well-formed registry with room, of a record
    /// that the registry admits, gives a well-formed registry with one
    /// record more.
    pub proof fn lemma_register(self, record: AssetRecordView)
        requires
            self.wf(),
            self.has_room(),
            self.admits(record),
        ensures
            self.register(record).wf(),
            self.register(record).assets.len() == self.assets.len() + 1,
            self.register(record).assets.last() == record,
            self.register(record).holds(record.cid),
    {
        let after = self.register(record);
        assert(after.assets[self.assets.len() as int] == record);
        assert forall|i: int| 0 <= i < after.assets.len() implies after.admits(
            #[trigger] after.assets[i],
        ) by {
            if i < self.assets.len() {
            }
        }
    }

    /// A deletion from a well-formed registry gives a well-formed registry
    /// that holds no record with the deleted content identifier. It has
    /// fewer records exactly when the registry held one; when it held none,
    /// nothing has changed.
    pub proof fn lemma_delete(self, cid: Seq<char>)
        requires
            self.wf(),
        ensures
            self.delete(cid).wf(),
            !self.delete(cid).holds(cid),
            self.delete(cid).assets.len() <= self.assets.len(),
            self.holds(cid) <==> self.delete(cid).assets.len() < self.assets.len(),
            !self.holds(cid) ==> self.delete(cid) == self,
    {
        let keep = |record: AssetRecordView| record.cid != cid;
        let after = self.delete(cid);
        self.assets.lemma_filter_len(keep);
        assert forall|i: int| 0 <= i < after.assets.len() implies self.admits(
            #[trigger] after.assets[i],
        ) && after.assets[i].cid != cid by {
            self.assets.lemma_filter_pred(keep, i);
            self.assets.lemma_filter_contains_rev(keep, after.assets[i]);
        }
        if self.holds(cid) {
            let at = choose|i: int| 0 <= i < self.assets.len() && (#[trigger] self.assets[i]).cid
                == cid;
            lemma_filter_drops_one(self.assets, keep, at);
        } else {
            lemma_filter_keeps_all(self.assets, keep);
        }
    }
}

/// All assets of one owner.
#[derive(Debug, PartialEq, Eq)]
pub struct AssetRegistry {
    /// The owner; every record names the same one.
    pub owner: Pubkey,
    /// The records, oldest first. Two records may carry the same content
    /// identifier.
    pub assets: Vec<AssetRecord>,
    /// How many records were ever registered. A deletion does not lower it.
    pub asset_count: u32,
    /// The salt of the registry's address, fixed when the registry is made.
    pub bump: u8,
}

impl View for AssetRegistry {
    type V = AssetRegistryView;

    open spec fn view(&self) -> AssetRegistryView {
        AssetRegistryView {
            owner: self.owner,
            assets: self.assets@.map_values(|record: AssetRecord| record@),
            asset_count: self.asset_count as nat,
            bump: self.bump,
        }
    }
}

impl Clone for AssetRegistry {
    /// A registry with the same content.
    fn clone(&self) -> (copy: Self)
        ensures
            copy@ == self@,
    {
        let mut assets: Vec<AssetRecord> = Vec::new();
        let mut i: usize = 0;
        while i < self.assets.len()
            invariant
                i <= self.assets.len(),
                assets.len() == i,
                forall|j: int| 0 <= j < i ==> (#[trigger] assets[j])@ == self.assets[j]@,
            decreases self.assets.len() - i,
        {
            assets.push(self.assets[i].clone());
            i += 1;
        }
        let copy = AssetRegistry {
            owner: self.owner,
            assets,
            asset_count: self.asset_count,
            bump: self.bump,
        };
        assert(copy@.assets =~= self@.assets);
        copy
    }
}

impl AssetRegistry {
    /// The invariant of a registry, see [`AssetRegistryView::wf`].
    pub open spec fn wf(&self) -> bool {
        self@.wf()
    }

    /// Makes the registry of `owner`, empty, at the address salted with
    /// `bump`.
    pub fn new(owner: Pubkey, bump: u8) -> (registry: Self)
        ensures
            registry@ == AssetRegistryView::fresh(owner, bump),
            registry.wf(),
    {
        let registry = AssetRegistry { owner, assets: Vec::new(), asset_count: 0, bump };
        assert(registry@.assets =~= Seq::empty());
        registry
    }

    /// Whether one more record fits.
    pub fn has_room(&self) -> (room: bool)
        ensures
            room == self@.has_room(),
    {
        self.assets.len() < MAX_ASSETS && self.asset_count < u32::MAX
    }

    /// Whether the invariant holds. A registry that this library made and
    /// changed always passes; one put together from stored fields may not.
    pub fn is_well_formed(&self) -> (ok: bool)
        ensures
            ok == self.wf(),
    {
        let len = self.assets.len();
        if len > MAX_ASSETS || len > self.asset_count as usize {
            return false;
        }
        let mut i: usize = 0;
        while i < len
            invariant
                len == self.assets.len(),
                i <= len,
                forall|j: int| 0 <= j < i ==> self@.admits(#[trigger] self@.assets[j]),
            decreases len - i,
        {
            let record = &self.assets[i];
            if !(record.is_admissible() && same_key(&record.owner, &self.owner) && record.bump
                == self.bump) {
                assert(!self@.admits(self@.assets[i as int]));
                return false;
            }
            i += 1;
        }
        true
    }
}

} // verus!
