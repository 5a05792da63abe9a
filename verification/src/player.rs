//! Player records: identity, connection status, pose, and health.

use vstd::prelude::*;

use crate::errors::ReducerError;
use crate::keyed::{lemma_find_first_none_inv, lemma_find_first_push};
use crate::types::{DbVector2, DbVector3, Identity};
use crate::world::{
    find_player_index, find_spawn_index, lemma_player_table_update, player_lookup,
    player_with_identity, same_except_players, spawn_lookup, World,
};

verus! {

/// Scalar encoding of a freshly spawned player's health.
pub const FULL_HEALTH: u32 = 0x42C8_0000;

/// The animation pose a client reports for its player; every scalar is an
/// opaque encoding the library stores without interpreting.
#[derive(Clone, Copy, PartialEq, Eq, Structural, Debug)]
pub struct DbAnimationState {
    pub horizontal_movement: u32,
    pub vertical_movement: u32,
    pub look_yaw: u32,
    pub is_moving: bool,
    pub is_turning: bool,
    pub is_jumping: bool,
    pub is_attacking: bool,
}

/// One player: keyed by identity, with a unique, never reused player id.
#[derive(Clone, Copy, PartialEq, Eq, Structural, Debug)]
pub struct Player {
    pub identity: Identity,
    /// Unique secondary key, assigned by the store; monotonic.
    pub player_id: u32,
    pub online: bool,
    pub position: DbVector3,
    pub rotation: DbVector3,
    pub look_direction: DbVector2,
    pub animation_state: DbAnimationState,
    /// Opaque scalar encoding; mutated only by unverified damage handling
    /// and by [`crate::player::reset_player_health`].
    pub health: u32,
    pub max_health: u32,
}

/// The pose a player record starts with: at rest, reporting nothing.
pub open spec fn initial_animation_state() -> DbAnimationState {
    DbAnimationState {
        horizontal_movement: 0,
        vertical_movement: 0,
        look_yaw: 0,
        is_moving: false,
        is_turning: false,
        is_jumping: false,
        is_attacking: false,
    }
}

/// Where a new player appears: the default spawn point if one is set, else
/// the origin.
pub open spec fn spawn_pose(w: World) -> (DbVector3, DbVector3) {
    match spawn_lookup(w, 0) {
        Some(s) => (s.position, s.rotation),
        None => (DbVector3 { x: 0, y: 0, z: 0 }, DbVector3 { x: 0, y: 0, z: 0 }),
    }
}

/// Provision the caller's player record: online, at the spawn pose, with
/// full health and a fresh, never reused player id. Each identity gets
/// exactly one player record.
pub fn create_player(w: &mut World, sender: Identity) -> (r: Result<(), ReducerError>)
    requires
        old(w).wf(),
        player_lookup(*old(w), sender) is None,
        old(w).next_player_id < u32::MAX,
    ensures
        final(w).wf(),
        r is Ok,
        same_except_players(*old(w), *final(w)),
        final(w).next_player_id == old(w).next_player_id + 1,
        final(w).players@.len() == old(w).players@.len() + 1,
        player_lookup(*final(w), sender) == Some(
            Player {
                identity: sender,
                player_id: old(w).next_player_id,
                online: true,
                position: spawn_pose(*old(w)).0,
                rotation: spawn_pose(*old(w)).1,
                look_direction: DbVector2 { x: 0, y: 0 },
                animation_state: initial_animation_state(),
                health: FULL_HEALTH,
                max_health: FULL_HEALTH,
            },
        ),
        forall|o: Identity|
            o != sender ==> player_lookup(*final(w), o) == player_lookup(*old(w), o),
{
    let ghost pre = w.players@;
    let (position, rotation) = match find_spawn_index(w, 0) {
        Some(si) => (w.spawns[si].position, w.spawns[si].rotation),
        None => (DbVector3::default(), DbVector3::default()),
    };
    let player = Player {
        identity: sender,
        player_id: w.next_player_id,
        online: true,
        position,
        rotation,
        look_direction: DbVector2::default(),
        animation_state: DbAnimationState {
            horizontal_movement: 0,
            vertical_movement: 0,
            look_yaw: 0,
            is_moving: false,
            is_turning: false,
            is_jumping: false,
            is_attacking: false,
        },
        health: FULL_HEALTH,
        max_health: FULL_HEALTH,
    };
    let ghost new_player = player;
    w.players.push(player);
    w.next_player_id = w.next_player_id + 1;
    proof {
        lemma_find_first_none_inv(pre, player_with_identity(sender));
        lemma_find_first_push(pre, player_with_identity(sender), new_player);
        assert forall|o: Identity| o != sender implies player_lookup(*w, o) == player_lookup(
            *old(w),
            o,
        ) by {
            lemma_find_first_push(pre, player_with_identity(o), new_player);
        }
    }
    Ok(())
}

/// Mark the caller's player record online or offline; a caller without a
/// player record is left alone, as connection bookkeeping must not fail.
pub fn set_player_online_status(w: &mut World, sender: Identity, online: bool) -> (r: Result<
    (),
    ReducerError,
>)
    requires
        old(w).wf(),
    ensures
        final(w).wf(),
        r is Ok,
        same_except_players(*old(w), *final(w)),
        final(w).next_player_id == old(w).next_player_id,
        match player_lookup(*old(w), sender) {
            Some(p) => player_lookup(*final(w), sender) == Some(Player { online, ..p }),
            None => *final(w) == *old(w),
        },
        forall|o: Identity|
            o != sender ==> player_lookup(*final(w), o) == player_lookup(*old(w), o),
{
    let ghost pre = w.players@;
    match find_player_index(w, sender) {
        Some(i) => {
            let mut player = w.players.remove(i);
            player.online = online;
            let ghost p2 = player;
            w.players.insert(i, player);
            proof {
                assert(w.players@ =~= pre.update(i as int, p2));
                lemma_player_table_update(*old(w), *w, i as int, sender);
            }
            Ok(())
        },
        None => Ok(()),
    }
}

/// Move the caller's player: pose, look direction, and animation state are
/// replaced together; nothing else changes. Fails when the caller has no
/// player record.
pub fn move_player(
    w: &mut World,
    sender: Identity,
    position: DbVector3,
    rotation: DbVector3,
    look_direction: DbVector2,
    animation_state: DbAnimationState,
) -> (r: Result<(), ReducerError>)
    requires
        old(w).wf(),
    ensures
        final(w).wf(),
        same_except_players(*old(w), *final(w)),
        final(w).next_player_id == old(w).next_player_id,
        r is Ok <==> player_lookup(*old(w), sender) is Some,
        match r {
            Ok(()) => {
                &&& player_lookup(*final(w), sender) == Some(
                    Player {
                        position,
                        rotation,
                        look_direction,
                        animation_state,
                        ..player_lookup(*old(w), sender).unwrap()
                    },
                )
                &&& forall|o: Identity|
                    o != sender ==> player_lookup(*final(w), o) == player_lookup(*old(w), o)
            },
            Err(e) => e == ReducerError::PlayerNotFound && *final(w) == *old(w),
        },
{
    let ghost pre = w.players@;
    match find_player_index(w, sender) {
        Some(i) => {
            let mut player = w.players.remove(i);
            player.position = position;
            player.rotation = rotation;
            player.look_direction = look_direction;
            player.animation_state = animation_state;
            let ghost p2 = player;
            w.players.insert(i, player);
            proof {
                assert(w.players@ =~= pre.update(i as int, p2));
                lemma_player_table_update(*old(w), *w, i as int, sender);
            }
            Ok(())
        },
        None => Err(ReducerError::PlayerNotFound),
    }
}

/// Restore the target player's health to its maximum; nothing else
/// changes. Fails when the target has no player record.
pub fn reset_player_health(w: &mut World, target_identity: Identity) -> (r: Result<
    (),
    ReducerError,
>)
    requires
        old(w).wf(),
    ensures
        final(w).wf(),
        same_except_players(*old(w), *final(w)),
        final(w).next_player_id == old(w).next_player_id,
        r is Ok <==> player_lookup(*old(w), target_identity) is Some,
        match r {
            Ok(()) => {
                &&& player_lookup(*final(w), target_identity) == Some(
                    Player {
                        health: player_lookup(*old(w), target_identity).unwrap().max_health,
                        ..player_lookup(*old(w), target_identity).unwrap()
                    },
                )
                &&& forall|o: Identity|
                    o != target_identity ==> player_lookup(*final(w), o) == player_lookup(
                        *old(w),
                        o,
                    )
            },
            Err(e) => e == ReducerError::PlayerNotFound && *final(w) == *old(w),
        },
{
    let ghost pre = w.players@;
    match find_player_index(w, target_identity) {
        Some(i) => {
            let mut player = w.players.remove(i);
            player.health = player.max_health;
            let ghost p2 = player;
            w.players.insert(i, player);
            proof {
                assert(w.players@ =~= pre.update(i as int, p2));
                lemma_player_table_update(*old(w), *w, i as int, target_identity);
            }
            Ok(())
        },
        None => Err(ReducerError::PlayerNotFound),
    }
}

} // verus!
