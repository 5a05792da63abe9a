use build_server::building_piece_placed::DbBuildingPieceType;
use build_server::building_piece_variant::{
    building_piece_variant_get, building_piece_variant_init, get_variant_catalog,
};
use build_server::errors::ReducerError;
use build_server::inventory::{
    inventory_add_item, inventory_create, inventory_get_item, inventory_remove_item,
};
use build_server::types::Identity;
use build_server::world::World;

#[test]
fn catalog_seeds_thirteen_variants() {
    let mut w = World::new();
    building_piece_variant_init(&mut w).unwrap();

    let catalog = get_variant_catalog(&w);
    assert_eq!(catalog.len(), 13);

    let square = building_piece_variant_get(&w, 0).unwrap();
    assert_eq!(square.variant_id, 0);
    assert_eq!(square.piece_type, DbBuildingPieceType::Foundation);
    assert_eq!(square.variant_name, "Square");
    assert_eq!(square.build_cost.len(), 1);
    assert_eq!(square.build_cost[0].item_id, 0);
    assert_eq!(square.build_cost[0].quantity, 5);

    let window = building_piece_variant_get(&w, 10).unwrap();
    assert_eq!(window.piece_type, DbBuildingPieceType::Wall);
    assert_eq!(window.variant_name, "Window");

    let stair = building_piece_variant_get(&w, 12).unwrap();
    assert_eq!(stair.piece_type, DbBuildingPieceType::Stair);
    assert_eq!(stair.variant_name, "Half Stair");

    assert!(matches!(
        building_piece_variant_get(&w, 13),
        Err(ReducerError::VariantNotFound)
    ));
}

#[test]
fn balances_accumulate_and_read_back() {
    let owner = Identity(30);
    let mut w = World::new();
    inventory_create(&mut w, owner).unwrap();
    assert_eq!(w.inventories[0].size, 36);
    assert_eq!(w.inventories[0].items.len(), 0);

    assert_eq!(inventory_get_item(&w, owner, 3), 0);
    inventory_add_item(&mut w, owner, 3, 4).unwrap();
    inventory_add_item(&mut w, owner, 3, 6).unwrap();
    inventory_add_item(&mut w, owner, 8, 1).unwrap();
    assert_eq!(inventory_get_item(&w, owner, 3), 10);
    assert_eq!(inventory_get_item(&w, owner, 8), 1);
    // One entry per item kind, however many credits arrived.
    assert_eq!(w.inventories[0].items.len(), 2);
}

#[test]
fn get_item_never_fails() {
    let w = World::new();
    // No inventory at all: the balance reads as zero.
    assert_eq!(inventory_get_item(&w, Identity(31), 0), 0);
}

#[test]
fn credit_without_inventory_fails() {
    let mut w = World::new();
    let r = inventory_add_item(&mut w, Identity(32), 0, 5);
    assert_eq!(r, Err(ReducerError::InventoryNotFound));
    assert_eq!(w.inventories.len(), 0);
}

#[test]
fn debit_prunes_zero_balances() {
    let owner = Identity(33);
    let mut w = World::new();
    inventory_create(&mut w, owner).unwrap();
    inventory_add_item(&mut w, owner, 2, 7).unwrap();
    inventory_add_item(&mut w, owner, 5, 1).unwrap();

    inventory_remove_item(&mut w, owner, 2, 7).unwrap();
    // The entry is removed entirely, and the balance reads back as zero
    // without an error.
    assert_eq!(w.inventories[0].items.len(), 1);
    assert_eq!(w.inventories[0].items[0].id, 5);
    assert_eq!(inventory_get_item(&w, owner, 2), 0);
}

#[test]
fn debit_never_goes_negative() {
    let owner = Identity(34);
    let mut w = World::new();
    inventory_create(&mut w, owner).unwrap();
    inventory_add_item(&mut w, owner, 2, 3).unwrap();

    let r = inventory_remove_item(&mut w, owner, 2, 4);
    assert_eq!(r, Err(ReducerError::InsufficientMaterials));
    assert_eq!(inventory_get_item(&w, owner, 2), 3);

    inventory_remove_item(&mut w, owner, 2, 1).unwrap();
    assert_eq!(inventory_get_item(&w, owner, 2), 2);
}

#[test]
fn debit_without_inventory_fails() {
    let mut w = World::new();
    let r = inventory_remove_item(&mut w, Identity(35), 0, 0);
    assert_eq!(r, Err(ReducerError::InventoryNotFound));
}

#[test]
fn balances_of_other_owners_are_untouched() {
    let a = Identity(36);
    let b = Identity(37);
    let mut w = World::new();
    inventory_create(&mut w, a).unwrap();
    inventory_create(&mut w, b).unwrap();
    inventory_add_item(&mut w, a, 1, 10).unwrap();
    inventory_add_item(&mut w, b, 1, 20).unwrap();

    inventory_remove_item(&mut w, a, 1, 4).unwrap();
    assert_eq!(inventory_get_item(&w, a, 1), 6);
    assert_eq!(inventory_get_item(&w, b, 1), 20);
}
