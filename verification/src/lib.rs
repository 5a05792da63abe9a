//! Authoritative state layer of a multiplayer construction game.
//!
//! The library tracks players, a shared build-mode camera, world spawn
//! points, and player-placed structural pieces, and exposes the mutation
//! operations ("reducers") that clients invoke to change that state. Its
//! core is the resource-backed placement economy: placing a building piece
//! spends inventory materials according to the piece variant's cost
//! schedule, and removing the piece refunds them to its owner, under a
//! conservation invariant.

use vstd::prelude::*;

pub mod building_piece;
pub mod building_piece_placed;
pub mod building_piece_variant;
pub mod creative_camera;
pub mod errors;
pub mod inventory;
pub mod keyed;
pub mod player;
pub mod types;
pub mod world;
pub mod world_spawn;

use crate::building_piece_placed::DbBuildingPieceType;
use crate::building_piece_variant::{building_piece_variant_init, catalog_entry};
use crate::creative_camera::{create_creative_camera, set_creative_camera_enabled, CreativeCamera};
use crate::errors::ReducerError;
use crate::player::{
    create_player, initial_animation_state, set_player_online_status, spawn_pose, Player,
    FULL_HEALTH,
};
use crate::types::{DbVector2, DbVector3, Identity};
use crate::world::{camera_lookup, player_lookup, spawn_lookup, World};
use crate::world_spawn::{default_spawn, world_spawn_init};

verus! {

/// Initialize a fresh world: set the default spawn point and seed the
/// building variant catalog. Runs once, before any client-driven reducer.
pub fn init(w: &mut World) -> (r: Result<(), ReducerError>)
    requires
        old(w).wf(),
        old(w).variants@.len() == 0,
    ensures
        final(w).wf(),
        r is Ok,
        final(w).inventories@ == old(w).inventories@,
        final(w).placed@ == old(w).placed@,
        final(w).next_piece_id == old(w).next_piece_id,
        final(w).pieces@ == old(w).pieces@,
        final(w).next_building_piece_id == old(w).next_building_piece_id,
        final(w).players@ == old(w).players@,
        final(w).next_player_id == old(w).next_player_id,
        final(w).cameras@ == old(w).cameras@,
        spawn_lookup(*final(w), 0) is Some,
        spawn_lookup(*old(w), 0) is None ==> spawn_lookup(*final(w), 0) == Some(default_spawn()),
        final(w).variants@.len() == 13,
        catalog_entry(*final(w), 0, DbBuildingPieceType::Foundation, "Square"@),
        catalog_entry(*final(w), 1, DbBuildingPieceType::Foundation, "Triangle"@),
        catalog_entry(*final(w), 2, DbBuildingPieceType::Floor, "Floor"@),
        catalog_entry(*final(w), 3, DbBuildingPieceType::Floor, "Half Floor"@),
        catalog_entry(*final(w), 4, DbBuildingPieceType::Floor, "Quarter Floor"@),
        catalog_entry(*final(w), 5, DbBuildingPieceType::Floor, "Triangle"@),
        catalog_entry(*final(w), 6, DbBuildingPieceType::Wall, "Wall"@),
        catalog_entry(*final(w), 7, DbBuildingPieceType::Wall, "Half Wall"@),
        catalog_entry(*final(w), 8, DbBuildingPieceType::Wall, "Quarter Wall"@),
        catalog_entry(*final(w), 9, DbBuildingPieceType::Wall, "Door"@),
        catalog_entry(*final(w), 10, DbBuildingPieceType::Wall, "Window"@),
        catalog_entry(*final(w), 11, DbBuildingPieceType::Stair, "Stair"@),
        catalog_entry(*final(w), 12, DbBuildingPieceType::Stair, "Half Stair"@),
{
    match world_spawn_init(w) {
        Ok(()) => {},
        Err(e) => {
            return Err(e);
        },
    }
    building_piece_variant_init(w)
}

/// A client connected: create its player and camera records on first
/// contact, or mark the player online and the camera disabled on a
/// reconnect. Records of every other identity are untouched.
pub fn connect(w: &mut World, sender: Identity) -> (r: Result<(), ReducerError>)
    requires
        old(w).wf(),
        old(w).next_player_id < u32::MAX,
    ensures
        final(w).wf(),
        r is Ok,
        final(w).inventories@ == old(w).inventories@,
        final(w).variants@ == old(w).variants@,
        final(w).placed@ == old(w).placed@,
        final(w).next_piece_id == old(w).next_piece_id,
        final(w).pieces@ == old(w).pieces@,
        final(w).next_building_piece_id == old(w).next_building_piece_id,
        final(w).spawns@ == old(w).spawns@,
        match player_lookup(*old(w), sender) {
            Some(p) => player_lookup(*final(w), sender) == Some(Player { online: true, ..p })
                && final(w).next_player_id == old(w).next_player_id,
            None => player_lookup(*final(w), sender) == Some(
                Player {
                    identity: sender,
                    player_id: old(w).next_player_id,
                    online: true,
                    position: spawn_pose(*old(w)).0,
                    rotation: spawn_pose(*old(w)).1,
                    look_direction: DbVector2 { x: 0, y: 0 },
                    animation_state: initial_animation_state(),
                    health: FULL_HEALTH,
                    max_health: FULL_HEALTH,
                },
            ) && final(w).next_player_id == old(w).next_player_id + 1,
        },
        forall|o: Identity|
            o != sender ==> player_lookup(*final(w), o) == player_lookup(*old(w), o),
        match camera_lookup(*old(w), sender) {
            Some(c) => camera_lookup(*final(w), sender) == Some(
                CreativeCamera {
                    identity: sender,
                    enabled: false,
                    position: c.position,
                    rotation: c.rotation,
                },
            ),
            None => camera_lookup(*final(w), sender) == Some(
                CreativeCamera {
                    identity: sender,
                    enabled: false,
                    position: DbVector3 { x: 0, y: 0, z: 0 },
                    rotation: DbVector3 { x: 0, y: 0, z: 0 },
                },
            ),
        },
        forall|o: Identity|
            o != sender ==> camera_lookup(*final(w), o) == camera_lookup(*old(w), o),
{
    match crate::world::find_player_index(w, sender) {
        None => {
            match create_player(w, sender) {
                Ok(()) => {},
                Err(e) => {
                    return Err(e);
                },
            }
        },
        Some(_) => {
            match set_player_online_status(w, sender, true) {
                Ok(()) => {},
                Err(e) => {
                    return Err(e);
                },
            }
        },
    }
    match crate::world::find_camera_index(w, sender) {
        None => create_creative_camera(w, sender),
        Some(_) => set_creative_camera_enabled(w, sender, false),
    }
}

/// A client disconnected: mark its player record offline; an identity
/// without a player record is left alone.
pub fn disconnect(w: &mut World, sender: Identity) -> (r: Result<(), ReducerError>)
    requires
        old(w).wf(),
    ensures
        final(w).wf(),
        r is Ok,
        crate::world::same_except_players(*old(w), *final(w)),
        final(w).next_player_id == old(w).next_player_id,
        match player_lookup(*old(w), sender) {
            Some(p) => player_lookup(*final(w), sender) == Some(Player { online: false, ..p }),
            None => *final(w) == *old(w),
        },
        forall|o: Identity|
            o != sender ==> player_lookup(*final(w), o) == player_lookup(*old(w), o),
{
    set_player_online_status(w, sender, false)
}

} // verus!
