use anchor_lang::prelude::Pubkey;
use the_vault::{
    delete_asset, register_asset, AssetRecord, AssetRegistry, DeleteAsset, RegisterAsset,
    VaultError,
};

fn owner_key(n: u8) -> Pubkey {
    Pubkey::new_from_array([n; 32])
}

fn register(ctx: &mut RegisterAsset, cid: &str, name: &str, now: i64) -> Result<(), VaultError> {
    register_asset(
        ctx,
        cid.to_string(),
        name.to_string(),
        "about".to_string(),
        "text/plain".to_string(),
        10,
        now,
    )
}

fn registry_with(cids: &[&str]) -> AssetRegistry {
    let mut ctx = RegisterAsset::create(owner_key(1), 254);
    for (i, cid) in cids.iter().enumerate() {
        assert_eq!(register(&mut ctx, cid, &format!("file{}", i), 100 + i as i64), Ok(()));
    }
    ctx.registry.unwrap_or(AssetRegistry::new(owner_key(1), 254))
}

fn cids_of(registry: &AssetRegistry) -> Vec<String> {
    registry.assets.iter().map(|record| record.cid.clone()).collect()
}

#[test]
fn the_first_registration_makes_the_registry() {
    let mut ctx = RegisterAsset::create(owner_key(1), 254);
    assert!(ctx.registry.is_none());
    assert!(ctx.has_room());
    let outcome = register_asset(
        &mut ctx,
        "Qm123".to_string(),
        "photo.png".to_string(),
        "".to_string(),
        "image/png".to_string(),
        2048,
        1_700_000_000,
    );
    assert_eq!(outcome, Ok(()));
    assert_eq!(ctx.owner, owner_key(1));
    assert_eq!(ctx.bump, 254);
    let registry = ctx.registry.expect("the registration made the registry");
    assert_eq!(registry.owner, owner_key(1));
    assert_eq!(registry.bump, 254);
    assert_eq!(registry.asset_count, 1);
    assert_eq!(
        registry.assets,
        vec![AssetRecord {
            cid: "Qm123".to_string(),
            name: "photo.png".to_string(),
            description: "".to_string(),
            file_type: "image/png".to_string(),
            file_size: 2048,
            owner: owner_key(1),
            timestamp: 1_700_000_000,
            bump: 254,
        }]
    );
    assert!(registry.is_well_formed());
}

#[test]
fn a_registration_appends_one_record_and_counts_it() {
    let before = registry_with(&["a", "b"]);
    let mut ctx = RegisterAsset::load(owner_key(1), before.clone()).unwrap();
    let outcome = register_asset(
        &mut ctx,
        "c".to_string(),
        "third".to_string(),
        "the third".to_string(),
        "text/csv".to_string(),
        u64::MAX,
        -5,
    );
    assert_eq!(outcome, Ok(()));
    let after = ctx.registry.unwrap();
    assert_eq!(after.asset_count, before.asset_count + 1);
    assert_eq!(after.assets.len(), before.assets.len() + 1);
    assert_eq!(after.assets[..2], before.assets[..]);
    assert_eq!(
        after.assets[2],
        AssetRecord {
            cid: "c".to_string(),
            name: "third".to_string(),
            description: "the third".to_string(),
            file_type: "text/csv".to_string(),
            file_size: u64::MAX,
            owner: owner_key(1),
            timestamp: -5,
            bump: 254,
        }
    );
    assert_eq!(after.owner, before.owner);
    assert_eq!(after.bump, before.bump);
}

#[test]
fn a_refused_registration_changes_nothing() {
    let before = registry_with(&["a", "b"]);
    let long = "x".repeat(101);
    let cases: Vec<([&str; 4], VaultError)> = vec![
        (["", "n", "d", "t"], VaultError::InvalidCID),
        ([long.as_str(), "n", "d", "t"], VaultError::InvalidCID),
        (["c", "", "d", "t"], VaultError::InvalidName),
        (["c", long.as_str(), "d", "t"], VaultError::InvalidName),
        (["c", "n", "d", ""], VaultError::InvalidFileType),
        (["c", "n", "d", long.as_str()], VaultError::InvalidFileType),
    ];
    for (texts, error) in cases {
        let mut ctx = RegisterAsset::load(owner_key(1), before.clone()).unwrap();
        let outcome = register_asset(
            &mut ctx,
            texts[0].to_string(),
            texts[1].to_string(),
            texts[2].to_string(),
            texts[3].to_string(),
            1,
            2,
        );
        assert_eq!(outcome, Err(error));
        assert_eq!(ctx.registry, Some(before.clone()));
        assert_eq!(ctx.owner, owner_key(1));
        assert_eq!(ctx.bump, 254);
    }
    let mut ctx = RegisterAsset::load(owner_key(1), before.clone()).unwrap();
    let outcome = register_asset(
        &mut ctx,
        "c".to_string(),
        "n".to_string(),
        "d".repeat(501),
        "t".to_string(),
        1,
        2,
    );
    assert_eq!(outcome, Err(VaultError::InvalidDescription));
    assert_eq!(ctx.registry, Some(before));
}

#[test]
fn a_refused_first_registration_makes_no_registry() {
    let mut ctx = RegisterAsset::create(owner_key(1), 254);
    assert_eq!(register(&mut ctx, "", "name", 1), Err(VaultError::InvalidCID));
    assert!(ctx.registry.is_none());
    assert_eq!(register(&mut ctx, "cid", "", 1), Err(VaultError::InvalidName));
    assert!(ctx.registry.is_none());
}

#[test]
fn the_same_cid_can_be_registered_twice() {
    let mut ctx = RegisterAsset::create(owner_key(1), 254);
    assert_eq!(register(&mut ctx, "other", "zero", 1), Ok(()));
    assert_eq!(register(&mut ctx, "same", "one", 2), Ok(()));
    assert_eq!(register(&mut ctx, "same", "two", 3), Ok(()));
    let registry = ctx.registry.unwrap();
    assert_eq!(cids_of(&registry), vec!["other", "same", "same"]);
    assert_eq!(registry.assets[1].name, "one");
    assert_eq!(registry.assets[2].name, "two");
    assert_eq!(registry.asset_count, 3);

    let mut ctx = DeleteAsset::load(owner_key(1), registry).unwrap();
    assert_eq!(delete_asset(&mut ctx, "same".to_string()), Ok(()));
    assert_eq!(cids_of(&ctx.registry), vec!["other"]);
    assert_eq!(ctx.registry.asset_count, 3);
    assert_eq!(delete_asset(&mut ctx, "same".to_string()), Err(VaultError::AssetNotFound));
}

#[test]
fn deleting_an_absent_cid_changes_nothing() {
    let before = registry_with(&["a", "b", "c"]);
    let mut ctx = DeleteAsset::load(owner_key(1), before.clone()).unwrap();
    assert_eq!(delete_asset(&mut ctx, "d".to_string()), Err(VaultError::AssetNotFound));
    assert_eq!(ctx.registry, before);
    assert_eq!(ctx.owner, owner_key(1));
    assert_eq!(delete_asset(&mut ctx, "".to_string()), Err(VaultError::AssetNotFound));
    assert_eq!(delete_asset(&mut ctx, "A".to_string()), Err(VaultError::AssetNotFound));
    assert_eq!(delete_asset(&mut ctx, "ab".to_string()), Err(VaultError::AssetNotFound));
    assert_eq!(ctx.registry, before);
}

#[test]
fn deleting_from_an_empty_registry_finds_nothing() {
    let before = AssetRegistry::new(owner_key(1), 3);
    let mut ctx = DeleteAsset::load(owner_key(1), before.clone()).unwrap();
    assert_eq!(delete_asset(&mut ctx, "a".to_string()), Err(VaultError::AssetNotFound));
    assert_eq!(ctx.registry, before);
}

#[test]
fn a_deletion_keeps_the_others_in_their_order() {
    let before = registry_with(&["x", "a", "x", "b", "c", "x", "x", "d"]);
    let mut ctx = DeleteAsset::load(owner_key(1), before.clone()).unwrap();
    assert_eq!(delete_asset(&mut ctx, "x".to_string()), Ok(()));
    assert_eq!(cids_of(&ctx.registry), vec!["a", "b", "c", "d"]);
    assert_eq!(
        ctx.registry.assets,
        vec![
            before.assets[1].clone(),
            before.assets[3].clone(),
            before.assets[4].clone(),
            before.assets[7].clone(),
        ]
    );
    assert_eq!(ctx.registry.asset_count, 8);
    assert_eq!(ctx.registry.owner, before.owner);
    assert_eq!(ctx.registry.bump, before.bump);
    assert!(ctx.registry.is_well_formed());
}

#[test]
fn a_deletion_can_empty_the_registry() {
    let mut ctx = DeleteAsset::load(owner_key(1), registry_with(&["x", "x"])).unwrap();
    assert_eq!(delete_asset(&mut ctx, "x".to_string()), Ok(()));
    assert!(ctx.registry.assets.is_empty());
    assert_eq!(ctx.registry.asset_count, 2);
}

#[test]
fn the_counter_counts_registrations_and_never_falls() {
    let mut registry = AssetRegistry::new(owner_key(1), 254);
    let mut registered: u32 = 0;
    let mut removed: usize = 0;
    let steps: Vec<(bool, &str)> = vec![
        (true, "a"),
        (true, "b"),
        (true, "a"),
        (false, "a"),
        (false, "a"),
        (true, "c"),
        (true, ""),
        (false, "b"),
        (true, "c"),
        (true, "c"),
        (false, "c"),
        (false, "zzz"),
    ];
    for (is_registration, cid) in steps {
        let counted = registry.asset_count;
        let held = registry.assets.len();
        if is_registration {
            let mut ctx = RegisterAsset::load(owner_key(1), registry).unwrap();
            if register(&mut ctx, cid, "name", 5).is_ok() {
                registered += 1;
            }
            registry = ctx.registry.unwrap();
        } else {
            let mut ctx = DeleteAsset::load(owner_key(1), registry).unwrap();
            if delete_asset(&mut ctx, cid.to_string()).is_ok() {
                assert!(ctx.registry.assets.len() < held);
                removed += held - ctx.registry.assets.len();
            }
            registry = ctx.registry;
        }
        assert!(registry.asset_count >= counted);
        assert_eq!(registry.asset_count, registered);
        assert_eq!(registry.assets.len(), registered as usize - removed);
    }
    assert_eq!(registered, 6);
    assert_eq!(removed, 6);
    assert_eq!(registry.asset_count, 6);
    assert!(registry.assets.is_empty());
}

#[test]
fn only_the_owner_may_register() {
    let registry = registry_with(&["a"]);
    let refused = RegisterAsset::load(owner_key(2), registry.clone());
    assert_eq!(refused.err(), Some(VaultError::Unauthorized));
    let ctx = RegisterAsset::load(owner_key(1), registry.clone()).unwrap();
    assert_eq!(ctx.owner, owner_key(1));
    assert_eq!(ctx.bump, 254);
    assert_eq!(ctx.registry, Some(registry));
}

#[test]
fn only_the_owner_may_delete() {
    let registry = registry_with(&["a"]);
    let refused = DeleteAsset::load(owner_key(2), registry.clone());
    assert_eq!(refused.err(), Some(VaultError::Unauthorized));
    let mut almost = [1u8; 32];
    almost[31] = 0;
    let refused = DeleteAsset::load(Pubkey::new_from_array(almost), registry.clone());
    assert_eq!(refused.err(), Some(VaultError::Unauthorized));
    let ctx = DeleteAsset::load(owner_key(1), registry.clone()).unwrap();
    assert_eq!(ctx.owner, owner_key(1));
    assert_eq!(ctx.registry, registry);
}

#[test]
fn room_is_told_before_a_registration() {
    let mut registry = registry_with(&["a"]);
    assert!(RegisterAsset::load(owner_key(1), registry.clone()).unwrap().has_room());
    registry.asset_count = u32::MAX;
    assert!(!RegisterAsset::load(owner_key(1), registry.clone()).unwrap().has_room());
    registry.asset_count = 300;
    while registry.assets.len() < 300 {
        let next = registry.assets[0].clone();
        registry.assets.push(next);
    }
    assert!(registry.is_well_formed());
    assert!(!RegisterAsset::load(owner_key(1), registry).unwrap().has_room());
}

#[test]
fn photo_and_doc_scenario() {
    let owner = owner_key(42);
    let t1 = 1_700_000_000;
    let mut ctx = RegisterAsset::create(owner, 255);
    let outcome = register_asset(
        &mut ctx,
        "Qm123".to_string(),
        "photo.png".to_string(),
        "".to_string(),
        "image/png".to_string(),
        2048,
        t1,
    );
    assert_eq!(outcome, Ok(()));
    let registry = ctx.registry.unwrap();
    assert_eq!(registry.assets.len(), 1);
    assert_eq!(registry.asset_count, 1);

    let mut ctx = RegisterAsset::load(owner, registry).unwrap();
    let outcome = register_asset(
        &mut ctx,
        "Qm456".to_string(),
        "doc.pdf".to_string(),
        "notes".to_string(),
        "application/pdf".to_string(),
        4096,
        t1 + 60,
    );
    assert_eq!(outcome, Ok(()));
    let registry = ctx.registry.unwrap();
    assert_eq!(registry.assets.len(), 2);
    assert_eq!(registry.asset_count, 2);

    let mut ctx = DeleteAsset::load(owner, registry).unwrap();
    assert_eq!(delete_asset(&mut ctx, "Qm123".to_string()), Ok(()));
    assert_eq!(ctx.registry.assets.len(), 1);
    assert_eq!(ctx.registry.assets[0].name, "doc.pdf");
    assert_eq!(ctx.registry.assets[0].cid, "Qm456");
    assert_eq!(ctx.registry.asset_count, 2);

    let before = ctx.registry.clone();
    assert_eq!(delete_asset(&mut ctx, "Qm123".to_string()), Err(VaultError::AssetNotFound));
    assert_eq!(ctx.registry, before);
}
