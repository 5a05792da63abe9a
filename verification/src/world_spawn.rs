//! World spawn points: where new players appear.

use vstd::prelude::*;

use crate::errors::ReducerError;
use crate::keyed::{lemma_find_first_none_inv, lemma_find_first_push};
use crate::types::DbVector3;
use crate::world::{
    find_spawn_index, lemma_spawn_table_update, same_except_spawns, spawn_lookup, spawn_with_id,
    World,
};

verus! {

/// Scalar encoding of the default spawn point's elevation.
pub const DEFAULT_SPAWN_HEIGHT: u32 = 0x4000_0000;

/// One spawn point; id 0 is the default spawn used for new players.
#[derive(Clone, Copy, PartialEq, Eq, Structural, Debug)]
pub struct WorldSpawn {
    pub id: u32,
    pub position: DbVector3,
    pub rotation: DbVector3,
}

/// The spawn point a fresh world starts with.
pub open spec fn default_spawn() -> WorldSpawn {
    WorldSpawn {
        id: 0,
        position: DbVector3 { x: 0, y: DEFAULT_SPAWN_HEIGHT, z: 0 },
        rotation: DbVector3 { x: 0, y: 0, z: 0 },
    }
}

/// Ensure the default spawn point exists: insert it if spawn 0 is absent,
/// leave everything alone if it is already set.
pub fn world_spawn_init(w: &mut World) -> (r: Result<(), ReducerError>)
    requires
        old(w).wf(),
    ensures
        final(w).wf(),
        r is Ok,
        same_except_spawns(*old(w), *final(w)),
        match spawn_lookup(*old(w), 0) {
            Some(s) => *final(w) == *old(w),
            None => spawn_lookup(*final(w), 0) == Some(default_spawn()),
        },
        spawn_lookup(*final(w), 0) is Some,
        forall|o: u32| o != 0 ==> spawn_lookup(*final(w), o) == spawn_lookup(*old(w), o),
{
    let ghost pre = w.spawns@;
    match find_spawn_index(w, 0) {
        Some(_) => Ok(()),
        None => {
            let spawn = WorldSpawn {
                id: 0,
                position: DbVector3 { x: 0, y: DEFAULT_SPAWN_HEIGHT, z: 0 },
                rotation: DbVector3::default(),
            };
            let ghost new_spawn = spawn;
            w.spawns.push(spawn);
            proof {
                lemma_find_first_none_inv(pre, spawn_with_id(0));
                lemma_find_first_push(pre, spawn_with_id(0), new_spawn);
                assert forall|o: u32| o != 0 implies spawn_lookup(*w, o) == spawn_lookup(
                    *old(w),
                    o,
                ) by {
                    lemma_find_first_push(pre, spawn_with_id(o), new_spawn);
                }
            }
            Ok(())
        },
    }
}

/// Re-point an existing spawn record, component by component; when the id
/// is unknown, fall back to (re)creating the default spawn point instead.
/// The fallback inserts record 0, so it is only taken when record 0 is
/// absent.
pub fn set_world_spawn(
    w: &mut World,
    id: u32,
    x: u32,
    y: u32,
    z: u32,
    rx: u32,
    ry: u32,
    rz: u32,
) -> (r: Result<(), ReducerError>)
    requires
        old(w).wf(),
        spawn_lookup(*old(w), id) is Some || spawn_lookup(*old(w), 0) is None,
    ensures
        final(w).wf(),
        r is Ok,
        same_except_spawns(*old(w), *final(w)),
        match spawn_lookup(*old(w), id) {
            Some(s) => {
                &&& spawn_lookup(*final(w), id) == Some(
                    WorldSpawn {
                        id,
                        position: DbVector3 { x, y, z },
                        rotation: DbVector3 { x: rx, y: ry, z: rz },
                    },
                )
                &&& forall|o: u32|
                    o != id ==> spawn_lookup(*final(w), o) == spawn_lookup(*old(w), o)
            },
            None => {
                &&& spawn_lookup(*final(w), 0) == Some(default_spawn())
                &&& forall|o: u32|
                    o != 0 ==> spawn_lookup(*final(w), o) == spawn_lookup(*old(w), o)
            },
        },
{
    let ghost pre = w.spawns@;
    match find_spawn_index(w, id) {
        Some(i) => {
            let mut spawn = w.spawns.remove(i);
            spawn.position = DbVector3 { x, y, z };
            spawn.rotation = DbVector3 { x: rx, y: ry, z: rz };
            let ghost s2 = spawn;
            w.spawns.insert(i, spawn);
            proof {
                assert(w.spawns@ =~= pre.update(i as int, s2));
                lemma_spawn_table_update(*old(w), *w, i as int, id);
            }
            Ok(())
        },
        None => {
            let spawn = WorldSpawn {
                id: 0,
                position: DbVector3 { x: 0, y: DEFAULT_SPAWN_HEIGHT, z: 0 },
                rotation: DbVector3::default(),
            };
            let ghost new_spawn = spawn;
            w.spawns.push(spawn);
            proof {
                lemma_find_first_none_inv(pre, spawn_with_id(0));
                lemma_find_first_push(pre, spawn_with_id(0), new_spawn);
                assert forall|o: u32| o != 0 implies spawn_lookup(*w, o) == spawn_lookup(
                    *old(w),
                    o,
                ) by {
                    lemma_find_first_push(pre, spawn_with_id(o), new_spawn);
                }
            }
            Ok(())
        },
    }
}

} // verus!
