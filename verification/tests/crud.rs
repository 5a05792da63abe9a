use build_server::building_piece::{place_building_piece, remove_building_piece};
use build_server::building_piece_placed::DbBuildingPieceType;
use build_server::creative_camera::{
    create_creative_camera, move_creative_camera, set_creative_camera_enabled,
};
use build_server::errors::ReducerError;
use build_server::player::{
    create_player, move_player, reset_player_health, set_player_online_status, DbAnimationState,
    FULL_HEALTH,
};
use build_server::types::{DbVector2, DbVector3, Identity};
use build_server::world::World;
use build_server::world_spawn::{set_world_spawn, world_spawn_init, DEFAULT_SPAWN_HEIGHT};
use build_server::{connect, disconnect, init};

fn v3(x: u32, y: u32, z: u32) -> DbVector3 {
    DbVector3 { x, y, z }
}

fn idle_pose() -> DbAnimationState {
    DbAnimationState {
        horizontal_movement: 0,
        vertical_movement: 0,
        look_yaw: 0,
        is_moving: false,
        is_turning: false,
        is_jumping: false,
        is_attacking: false,
    }
}

#[test]
fn connect_provisions_player_and_camera() {
    let id = Identity(21);
    let mut w = World::new();
    init(&mut w).unwrap();
    connect(&mut w, id).unwrap();

    assert_eq!(w.players.len(), 1);
    let p = &w.players[0];
    assert_eq!(p.identity, id);
    assert_eq!(p.player_id, 1);
    assert!(p.online);
    assert_eq!(p.health, FULL_HEALTH);
    assert_eq!(p.max_health, FULL_HEALTH);
    // New players appear at the default spawn point.
    assert_eq!(p.position, v3(0, DEFAULT_SPAWN_HEIGHT, 0));

    assert_eq!(w.cameras.len(), 1);
    assert_eq!(w.cameras[0].identity, id);
    assert!(!w.cameras[0].enabled);
}

#[test]
fn reconnect_marks_online_and_disables_camera() {
    let id = Identity(22);
    let mut w = World::new();
    init(&mut w).unwrap();
    connect(&mut w, id).unwrap();
    set_creative_camera_enabled(&mut w, id, true).unwrap();
    disconnect(&mut w, id).unwrap();
    assert!(!w.players[0].online);

    connect(&mut w, id).unwrap();
    // No duplicate records, the player is back online, the camera is off.
    assert_eq!(w.players.len(), 1);
    assert_eq!(w.cameras.len(), 1);
    assert!(w.players[0].online);
    assert!(!w.cameras[0].enabled);
    assert_eq!(w.players[0].player_id, 1);
}

#[test]
fn disconnect_without_player_is_harmless() {
    let mut w = World::new();
    assert_eq!(disconnect(&mut w, Identity(1)), Ok(()));
    assert_eq!(w.players.len(), 0);
}

#[test]
fn move_player_updates_pose_only() {
    let id = Identity(23);
    let mut w = World::new();
    create_player(&mut w, id).unwrap();

    let look = DbVector2 { x: 8, y: 9 };
    move_player(&mut w, id, v3(10, 11, 12), v3(13, 14, 15), look, idle_pose()).unwrap();
    let p = &w.players[0];
    assert_eq!(p.position, v3(10, 11, 12));
    assert_eq!(p.rotation, v3(13, 14, 15));
    assert_eq!(p.look_direction, look);
    assert!(p.online);
    assert_eq!(p.health, FULL_HEALTH);
}

#[test]
fn move_player_without_record_fails() {
    let mut w = World::new();
    let r = move_player(
        &mut w,
        Identity(1),
        v3(0, 0, 0),
        v3(0, 0, 0),
        DbVector2 { x: 0, y: 0 },
        idle_pose(),
    );
    assert_eq!(r, Err(ReducerError::PlayerNotFound));
}

#[test]
fn reset_player_health_restores_maximum() {
    let id = Identity(24);
    let mut w = World::new();
    create_player(&mut w, id).unwrap();
    // Unverified damage handling writes the health field directly.
    w.players[0].health = 17;

    reset_player_health(&mut w, id).unwrap();
    assert_eq!(w.players[0].health, w.players[0].max_health);

    let r = reset_player_health(&mut w, Identity(99));
    assert_eq!(r, Err(ReducerError::PlayerNotFound));
}

#[test]
fn online_status_tracks_connection() {
    let id = Identity(25);
    let mut w = World::new();
    create_player(&mut w, id).unwrap();
    set_player_online_status(&mut w, id, false).unwrap();
    assert!(!w.players[0].online);
    set_player_online_status(&mut w, id, true).unwrap();
    assert!(w.players[0].online);
    // Unknown identities are left alone.
    assert_eq!(set_player_online_status(&mut w, Identity(99), true), Ok(()));
    assert_eq!(w.players.len(), 1);
}

#[test]
fn camera_toggle_and_move() {
    let id = Identity(26);
    let mut w = World::new();
    create_creative_camera(&mut w, id).unwrap();
    assert!(!w.cameras[0].enabled);

    set_creative_camera_enabled(&mut w, id, true).unwrap();
    assert!(w.cameras[0].enabled);

    move_creative_camera(&mut w, id, v3(1, 2, 3), v3(4, 5, 6)).unwrap();
    assert_eq!(w.cameras[0].position, v3(1, 2, 3));
    assert_eq!(w.cameras[0].rotation, v3(4, 5, 6));
    assert!(w.cameras[0].enabled);
}

#[test]
fn camera_calls_without_record_fail() {
    let mut w = World::new();
    assert_eq!(
        set_creative_camera_enabled(&mut w, Identity(1), true),
        Err(ReducerError::CameraNotFound)
    );
    assert_eq!(
        move_creative_camera(&mut w, Identity(1), v3(0, 0, 0), v3(0, 0, 0)),
        Err(ReducerError::CameraNotFound)
    );
}

#[test]
fn world_spawn_init_is_idempotent() {
    let mut w = World::new();
    world_spawn_init(&mut w).unwrap();
    assert_eq!(w.spawns.len(), 1);
    assert_eq!(w.spawns[0].id, 0);
    assert_eq!(w.spawns[0].position, v3(0, DEFAULT_SPAWN_HEIGHT, 0));

    world_spawn_init(&mut w).unwrap();
    assert_eq!(w.spawns.len(), 1);
}

#[test]
fn set_world_spawn_updates_or_falls_back() {
    let mut w = World::new();
    // Unknown id on an empty table: the default spawn point is created.
    set_world_spawn(&mut w, 5, 1, 2, 3, 4, 5, 6).unwrap();
    assert_eq!(w.spawns.len(), 1);
    assert_eq!(w.spawns[0].id, 0);
    assert_eq!(w.spawns[0].position, v3(0, DEFAULT_SPAWN_HEIGHT, 0));

    // A known id is re-pointed in place.
    set_world_spawn(&mut w, 0, 7, 8, 9, 10, 11, 12).unwrap();
    assert_eq!(w.spawns.len(), 1);
    assert_eq!(w.spawns[0].position, v3(7, 8, 9));
    assert_eq!(w.spawns[0].rotation, v3(10, 11, 12));
}

#[test]
fn free_form_pieces_are_owner_bound() {
    let a = Identity(27);
    let b = Identity(28);
    let mut w = World::new();

    place_building_piece(&mut w, a, 4, DbBuildingPieceType::Wall, v3(1, 1, 1), v3(0, 0, 0))
        .unwrap();
    assert_eq!(w.pieces.len(), 1);
    assert_eq!(w.pieces[0].piece_id, 1);
    assert_eq!(w.pieces[0].index, 4);

    assert_eq!(remove_building_piece(&mut w, b, 1), Err(ReducerError::NotOwner));
    assert_eq!(w.pieces.len(), 1);

    remove_building_piece(&mut w, a, 1).unwrap();
    assert_eq!(w.pieces.len(), 0);

    assert_eq!(remove_building_piece(&mut w, a, 1), Err(ReducerError::PieceNotFound));
}

#[test]
fn error_messages_are_stable() {
    assert_eq!(
        ReducerError::NotOwner.message(),
        "Only the owner can remove their building pieces"
    );
    assert_eq!(ReducerError::PieceNotFound.message(), "Building piece not found");
    assert_eq!(
        ReducerError::InsufficientMaterials.message(),
        "Not enough materials to build this piece"
    );
}
