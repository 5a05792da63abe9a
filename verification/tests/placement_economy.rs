use build_server::building_piece_placed::{building_piece_place, building_piece_remove, remove_refund_fits};
use build_server::building_piece_variant::{DbBuildingCost, DbBuildingPieceVariant};
use build_server::building_piece_placed::DbBuildingPieceType;
use build_server::errors::ReducerError;
use build_server::init;
use build_server::inventory::{inventory_add_item, inventory_create, inventory_get_item};
use build_server::types::{DbVector3, Identity};
use build_server::world::World;

const WOOD: u32 = 0;

fn pos() -> DbVector3 {
    DbVector3 { x: 1, y: 2, z: 3 }
}

fn rot() -> DbVector3 {
    DbVector3 { x: 4, y: 5, z: 6 }
}

/// A seeded world where `owner` has an inventory holding `wood` units.
fn world_with_wood(owner: Identity, wood: u32) -> World {
    let mut w = World::new();
    init(&mut w).unwrap();
    inventory_create(&mut w, owner).unwrap();
    if wood > 0 {
        inventory_add_item(&mut w, owner, WOOD, wood).unwrap();
    }
    w
}

#[test]
fn place_spends_and_remove_refunds() {
    // Owner has {wood: 5}; variant 0 (Foundation/Square) costs {wood: 5}.
    let owner = Identity(7);
    let mut w = world_with_wood(owner, 5);

    let pid = building_piece_place(&mut w, owner, 0, pos(), rot()).unwrap();
    assert_eq!(pid, 1);
    assert_eq!(inventory_get_item(&w, owner, WOOD), 0);
    // Debiting to exactly zero removed the entry entirely.
    assert_eq!(w.inventories[0].items.len(), 0);
    assert_eq!(w.placed.len(), 1);

    building_piece_remove(&mut w, owner, pid).unwrap();
    assert_eq!(inventory_get_item(&w, owner, WOOD), 5);
    assert_eq!(w.placed.len(), 0);
}

#[test]
fn insufficient_materials_changes_nothing() {
    // Owner has {wood: 3}; the variant costs {wood: 5}.
    let owner = Identity(7);
    let mut w = world_with_wood(owner, 3);

    let r = building_piece_place(&mut w, owner, 0, pos(), rot());
    assert_eq!(r, Err(ReducerError::InsufficientMaterials));
    assert_eq!(inventory_get_item(&w, owner, WOOD), 3);
    assert_eq!(w.placed.len(), 0);
    assert_eq!(w.next_piece_id, 1);
}

#[test]
fn remove_by_non_owner_fails() {
    let a = Identity(1);
    let b = Identity(2);
    let mut w = world_with_wood(a, 5);
    inventory_create(&mut w, b).unwrap();
    inventory_add_item(&mut w, b, WOOD, 50).unwrap();

    let pid = building_piece_place(&mut w, a, 0, pos(), rot()).unwrap();
    let r = building_piece_remove(&mut w, b, pid);
    assert_eq!(r, Err(ReducerError::NotOwner));
    // The piece still stands and nobody's balance moved.
    assert_eq!(w.placed.len(), 1);
    assert_eq!(inventory_get_item(&w, a, WOOD), 0);
    assert_eq!(inventory_get_item(&w, b, WOOD), 50);

    // The owner can still remove it.
    building_piece_remove(&mut w, a, pid).unwrap();
    assert_eq!(inventory_get_item(&w, a, WOOD), 5);
}

#[test]
fn no_double_removal() {
    let owner = Identity(9);
    let mut w = world_with_wood(owner, 5);

    let pid = building_piece_place(&mut w, owner, 0, pos(), rot()).unwrap();
    building_piece_remove(&mut w, owner, pid).unwrap();
    assert_eq!(inventory_get_item(&w, owner, WOOD), 5);

    let r = building_piece_remove(&mut w, owner, pid);
    assert_eq!(r, Err(ReducerError::PieceNotFound));
    // No additional credit was issued.
    assert_eq!(inventory_get_item(&w, owner, WOOD), 5);
}

#[test]
fn place_unknown_variant_fails() {
    let owner = Identity(3);
    let mut w = world_with_wood(owner, 100);
    let r = building_piece_place(&mut w, owner, 99, pos(), rot());
    assert_eq!(r, Err(ReducerError::VariantNotFound));
    assert_eq!(inventory_get_item(&w, owner, WOOD), 100);
    assert_eq!(w.placed.len(), 0);
}

#[test]
fn piece_ids_are_monotonic_and_never_reused() {
    let owner = Identity(4);
    let mut w = world_with_wood(owner, 20);

    let p1 = building_piece_place(&mut w, owner, 0, pos(), rot()).unwrap();
    let p2 = building_piece_place(&mut w, owner, 1, pos(), rot()).unwrap();
    assert_eq!(p1, 1);
    assert_eq!(p2, 2);
    building_piece_remove(&mut w, owner, p1).unwrap();
    let p3 = building_piece_place(&mut w, owner, 2, pos(), rot()).unwrap();
    assert_eq!(p3, 3);
}

#[test]
fn all_or_nothing_with_multiple_line_items() {
    // A two-line schedule short on only the second line: neither line is
    // debited.
    let owner = Identity(5);
    let mut w = World::new();
    w.variants.push(DbBuildingPieceVariant {
        variant_id: 0,
        piece_type: DbBuildingPieceType::Wall,
        variant_name: String::from("Mixed"),
        build_cost: vec![
            DbBuildingCost { item_id: 0, quantity: 2 },
            DbBuildingCost { item_id: 1, quantity: 4 },
        ],
        max_health: 100,
    });
    inventory_create(&mut w, owner).unwrap();
    inventory_add_item(&mut w, owner, 0, 10).unwrap();
    inventory_add_item(&mut w, owner, 1, 3).unwrap();

    let r = building_piece_place(&mut w, owner, 0, pos(), rot());
    assert_eq!(r, Err(ReducerError::InsufficientMaterials));
    assert_eq!(inventory_get_item(&w, owner, 0), 10);
    assert_eq!(inventory_get_item(&w, owner, 1), 3);

    inventory_add_item(&mut w, owner, 1, 1).unwrap();
    let pid = building_piece_place(&mut w, owner, 0, pos(), rot()).unwrap();
    assert_eq!(inventory_get_item(&w, owner, 0), 8);
    assert_eq!(inventory_get_item(&w, owner, 1), 0);

    building_piece_remove(&mut w, owner, pid).unwrap();
    assert_eq!(inventory_get_item(&w, owner, 0), 10);
    assert_eq!(inventory_get_item(&w, owner, 1), 4);
}

#[test]
fn duplicate_line_items_are_summed() {
    // {wood: 3} twice demands 6 in total, not 3.
    let owner = Identity(6);
    let mut w = World::new();
    w.variants.push(DbBuildingPieceVariant {
        variant_id: 0,
        piece_type: DbBuildingPieceType::Floor,
        variant_name: String::from("Doubled"),
        build_cost: vec![
            DbBuildingCost { item_id: WOOD, quantity: 3 },
            DbBuildingCost { item_id: WOOD, quantity: 3 },
        ],
        max_health: 100,
    });
    inventory_create(&mut w, owner).unwrap();
    inventory_add_item(&mut w, owner, WOOD, 5).unwrap();

    let r = building_piece_place(&mut w, owner, 0, pos(), rot());
    assert_eq!(r, Err(ReducerError::InsufficientMaterials));
    assert_eq!(inventory_get_item(&w, owner, WOOD), 5);

    inventory_add_item(&mut w, owner, WOOD, 1).unwrap();
    let pid = building_piece_place(&mut w, owner, 0, pos(), rot()).unwrap();
    assert_eq!(inventory_get_item(&w, owner, WOOD), 0);

    building_piece_remove(&mut w, owner, pid).unwrap();
    assert_eq!(inventory_get_item(&w, owner, WOOD), 6);
}

#[test]
fn free_variant_places_without_inventory() {
    // A schedule with no line items costs nothing, so even an identity
    // with no provisioned inventory can place and remove.
    let owner = Identity(8);
    let mut w = World::new();
    w.variants.push(DbBuildingPieceVariant {
        variant_id: 0,
        piece_type: DbBuildingPieceType::Stair,
        variant_name: String::from("Free"),
        build_cost: vec![],
        max_health: 100,
    });

    let pid = building_piece_place(&mut w, owner, 0, pos(), rot()).unwrap();
    assert_eq!(w.placed.len(), 1);
    building_piece_remove(&mut w, owner, pid).unwrap();
    assert_eq!(w.placed.len(), 0);
}

#[test]
fn remove_without_inventory_fails() {
    // A piece whose refund has no inventory to land in is kept.
    let owner = Identity(10);
    let mut w = World::new();
    init(&mut w).unwrap();
    w.placed.push(build_server::building_piece_placed::DbBuildingPiecePlaced {
        piece_id: 1,
        owner,
        variant_id: 0,
        position: pos(),
        rotation: rot(),
    });
    w.next_piece_id = 2;

    let r = building_piece_remove(&mut w, owner, 1);
    assert_eq!(r, Err(ReducerError::InventoryNotFound));
    assert_eq!(w.placed.len(), 1);
}

#[test]
fn remove_after_catalog_loss_is_a_consistency_fault() {
    let owner = Identity(11);
    let mut w = world_with_wood(owner, 5);
    let pid = building_piece_place(&mut w, owner, 0, pos(), rot()).unwrap();

    // Reference data is altered after placement: the variant disappears.
    w.variants.clear();
    let r = building_piece_remove(&mut w, owner, pid);
    assert_eq!(r, Err(ReducerError::ConsistencyFault));
    // The piece is not deleted and no refund was issued.
    assert_eq!(w.placed.len(), 1);
    assert_eq!(inventory_get_item(&w, owner, WOOD), 0);
}

#[test]
fn refund_fits_detects_a_full_inventory() {
    let owner = Identity(12);
    let mut w = world_with_wood(owner, 5);
    let pid = building_piece_place(&mut w, owner, 0, pos(), rot()).unwrap();
    assert!(remove_refund_fits(&w, owner, pid));

    // Fill the balance to the brim: the refund of 5 can no longer fit.
    inventory_add_item(&mut w, owner, WOOD, u32::MAX).unwrap();
    assert!(!remove_refund_fits(&w, owner, pid));
}

#[test]
fn conservation_over_every_seeded_variant() {
    let owner = Identity(13);
    for vid in 0..13u32 {
        let mut w = world_with_wood(owner, 9);
        let pid = building_piece_place(&mut w, owner, vid, pos(), rot()).unwrap();
        assert_eq!(inventory_get_item(&w, owner, WOOD), 4);
        building_piece_remove(&mut w, owner, pid).unwrap();
        assert_eq!(inventory_get_item(&w, owner, WOOD), 9);
        assert_eq!(w.placed.len(), 0);
    }
}
