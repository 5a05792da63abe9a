//! The whole server state: independent keyed tables with foreign-key style
//! references, plus the id counters of the stores that assign keys.
//!
//! Every reducer takes the world by mutable reference and is specified as a
//! transition from `old(world)` to `final(world)`; a failing reducer leaves
//! the world exactly as it was.

use vstd::prelude::*;

use crate::building_piece::DbBuildingPiece;
use crate::building_piece_placed::DbBuildingPiecePlaced;
use crate::building_piece_variant::DbBuildingPieceVariant;
use crate::creative_camera::CreativeCamera;
use crate::inventory::{items_wf, seq_balance, Inventory};
use crate::keyed::{
    distinct_keys, find_first, lemma_find_first_agree, lemma_find_first_at, lemma_find_first_none,
};
use crate::player::Player;
use crate::types::Identity;
use crate::world_spawn::WorldSpawn;

verus! {

/// The authoritative state of one game world.
pub struct World {
    /// Per-owner item inventories, keyed by identity.
    pub inventories: Vec<Inventory>,
    /// The building variant catalog, keyed by variant id; seeded once.
    pub variants: Vec<DbBuildingPieceVariant>,
    /// Currently standing resource-backed pieces, keyed by piece id.
    pub placed: Vec<DbBuildingPiecePlaced>,
    /// Next piece id the placement ledger will assign; never reused.
    pub next_piece_id: u32,
    /// Currently standing free-form pieces, keyed by piece id.
    pub pieces: Vec<DbBuildingPiece>,
    /// Next free-form piece id; never reused.
    pub next_building_piece_id: u32,
    /// Player records, keyed by identity, with unique player ids.
    pub players: Vec<Player>,
    /// Next player id; never reused.
    pub next_player_id: u32,
    /// Creative cameras, keyed by identity.
    pub cameras: Vec<CreativeCamera>,
    /// Spawn points, keyed by id.
    pub spawns: Vec<WorldSpawn>,
}

// Key predicates of the tables. Lookups and their lemmas share these, so
// the same closure term stands everywhere.
pub open spec fn inv_with_owner(owner: Identity) -> spec_fn(Inventory) -> bool {
    |inv: Inventory| inv.identity == owner
}

pub open spec fn variant_with_id(vid: u32) -> spec_fn(DbBuildingPieceVariant) -> bool {
    |v: DbBuildingPieceVariant| v.variant_id == vid
}

pub open spec fn placed_with_id(pid: u32) -> spec_fn(DbBuildingPiecePlaced) -> bool {
    |p: DbBuildingPiecePlaced| p.piece_id == pid
}

pub open spec fn piece_with_id(pid: u32) -> spec_fn(DbBuildingPiece) -> bool {
    |p: DbBuildingPiece| p.piece_id == pid
}

pub open spec fn player_with_identity(id: Identity) -> spec_fn(Player) -> bool {
    |p: Player| p.identity == id
}

pub open spec fn camera_with_identity(id: Identity) -> spec_fn(CreativeCamera) -> bool {
    |c: CreativeCamera| c.identity == id
}

pub open spec fn spawn_with_id(id: u32) -> spec_fn(WorldSpawn) -> bool {
    |s: WorldSpawn| s.id == id
}

pub open spec fn inventory_lookup(w: World, owner: Identity) -> Option<Inventory> {
    find_first(w.inventories@, inv_with_owner(owner))
}

pub open spec fn variant_lookup(w: World, vid: u32) -> Option<DbBuildingPieceVariant> {
    find_first(w.variants@, variant_with_id(vid))
}

pub open spec fn placed_lookup(w: World, pid: u32) -> Option<DbBuildingPiecePlaced> {
    find_first(w.placed@, placed_with_id(pid))
}

pub open spec fn piece_lookup(w: World, pid: u32) -> Option<DbBuildingPiece> {
    find_first(w.pieces@, piece_with_id(pid))
}

pub open spec fn player_lookup(w: World, id: Identity) -> Option<Player> {
    find_first(w.players@, player_with_identity(id))
}

pub open spec fn camera_lookup(w: World, id: Identity) -> Option<CreativeCamera> {
    find_first(w.cameras@, camera_with_identity(id))
}

pub open spec fn spawn_lookup(w: World, id: u32) -> Option<WorldSpawn> {
    find_first(w.spawns@, spawn_with_id(id))
}

/// The balance of item kind `k` in `owner`'s inventory; 0 if the owner has
/// no inventory or no entry for that kind.
pub open spec fn balance(w: World, owner: Identity, k: u32) -> int {
    match inventory_lookup(w, owner) {
        Some(inv) => seq_balance(inv.items@, k),
        None => 0,
    }
}

impl World {
    /// Well-formedness: keys are unique in every table, balance entries are
    /// well formed, and every assigned id lies below its store's counter.
    pub open spec fn wf(self) -> bool {
        &&& distinct_keys(self.inventories@, |inv: Inventory| inv.identity)
        &&& forall|i: int|
            0 <= i < self.inventories@.len() ==> items_wf(#[trigger] self.inventories@[i].items@)
        &&& distinct_keys(self.variants@, |v: DbBuildingPieceVariant| v.variant_id)
        &&& distinct_keys(self.placed@, |p: DbBuildingPiecePlaced| p.piece_id)
        &&& forall|i: int|
            0 <= i < self.placed@.len() ==> (#[trigger] self.placed@[i]).piece_id
                < self.next_piece_id
        &&& distinct_keys(self.pieces@, |p: DbBuildingPiece| p.piece_id)
        &&& forall|i: int|
            0 <= i < self.pieces@.len() ==> (#[trigger] self.pieces@[i]).piece_id
                < self.next_building_piece_id
        &&& distinct_keys(self.players@, |p: Player| p.identity)
        &&& distinct_keys(self.players@, |p: Player| p.player_id)
        &&& forall|i: int|
            0 <= i < self.players@.len() ==> (#[trigger] self.players@[i]).player_id
                < self.next_player_id
        &&& distinct_keys(self.cameras@, |c: CreativeCamera| c.identity)
        &&& distinct_keys(self.spawns@, |s: WorldSpawn| s.id)
    }

    /// A fresh world: every table empty, every id counter at its start.
    pub fn new() -> (w: World)
        ensures
            w.wf(),
            w.inventories@.len() == 0,
            w.variants@.len() == 0,
            w.placed@.len() == 0,
            w.pieces@.len() == 0,
            w.players@.len() == 0,
            w.cameras@.len() == 0,
            w.spawns@.len() == 0,
            w.next_piece_id == 1,
            w.next_building_piece_id == 1,
            w.next_player_id == 1,
    {
        World {
            inventories: Vec::new(),
            variants: Vec::new(),
            placed: Vec::new(),
            next_piece_id: 1,
            pieces: Vec::new(),
            next_building_piece_id: 1,
            players: Vec::new(),
            next_player_id: 1,
            cameras: Vec::new(),
            spawns: Vec::new(),
        }
    }
}

// Frame conditions: which tables a transition leaves untouched.
pub open spec fn same_except_inventories(pre: World, post: World) -> bool {
    &&& post.variants@ == pre.variants@
    &&& post.placed@ == pre.placed@
    &&& post.next_piece_id == pre.next_piece_id
    &&& post.pieces@ == pre.pieces@
    &&& post.next_building_piece_id == pre.next_building_piece_id
    &&& post.players@ == pre.players@
    &&& post.next_player_id == pre.next_player_id
    &&& post.cameras@ == pre.cameras@
    &&& post.spawns@ == pre.spawns@
}

pub open spec fn same_except_placement(pre: World, post: World) -> bool {
    &&& post.variants@ == pre.variants@
    &&& post.pieces@ == pre.pieces@
    &&& post.next_building_piece_id == pre.next_building_piece_id
    &&& post.players@ == pre.players@
    &&& post.next_player_id == pre.next_player_id
    &&& post.cameras@ == pre.cameras@
    &&& post.spawns@ == pre.spawns@
}

pub open spec fn same_except_variants(pre: World, post: World) -> bool {
    &&& post.inventories@ == pre.inventories@
    &&& post.placed@ == pre.placed@
    &&& post.next_piece_id == pre.next_piece_id
    &&& post.pieces@ == pre.pieces@
    &&& post.next_building_piece_id == pre.next_building_piece_id
    &&& post.players@ == pre.players@
    &&& post.next_player_id == pre.next_player_id
    &&& post.cameras@ == pre.cameras@
    &&& post.spawns@ == pre.spawns@
}

pub open spec fn same_except_pieces(pre: World, post: World) -> bool {
    &&& post.inventories@ == pre.inventories@
    &&& post.variants@ == pre.variants@
    &&& post.placed@ == pre.placed@
    &&& post.next_piece_id == pre.next_piece_id
    &&& post.players@ == pre.players@
    &&& post.next_player_id == pre.next_player_id
    &&& post.cameras@ == pre.cameras@
    &&& post.spawns@ == pre.spawns@
}

pub open spec fn same_except_players(pre: World, post: World) -> bool {
    &&& post.inventories@ == pre.inventories@
    &&& post.variants@ == pre.variants@
    &&& post.placed@ == pre.placed@
    &&& post.next_piece_id == pre.next_piece_id
    &&& post.pieces@ == pre.pieces@
    &&& post.next_building_piece_id == pre.next_building_piece_id
    &&& post.cameras@ == pre.cameras@
    &&& post.spawns@ == pre.spawns@
}

pub open spec fn same_except_cameras(pre: World, post: World) -> bool {
    &&& post.inventories@ == pre.inventories@
    &&& post.variants@ == pre.variants@
    &&& post.placed@ == pre.placed@
    &&& post.next_piece_id == pre.next_piece_id
    &&& post.pieces@ == pre.pieces@
    &&& post.next_building_piece_id == pre.next_building_piece_id
    &&& post.players@ == pre.players@
    &&& post.next_player_id == pre.next_player_id
    &&& post.spawns@ == pre.spawns@
}

pub open spec fn same_except_spawns(pre: World, post: World) -> bool {
    &&& post.inventories@ == pre.inventories@
    &&& post.variants@ == pre.variants@
    &&& post.placed@ == pre.placed@
    &&& post.next_piece_id == pre.next_piece_id
    &&& post.pieces@ == pre.pieces@
    &&& post.next_building_piece_id == pre.next_building_piece_id
    &&& post.players@ == pre.players@
    &&& post.next_player_id == pre.next_player_id
    &&& post.cameras@ == pre.cameras@
}

/// Inventories of owners other than `owner` read the same in both worlds.
pub open spec fn inventories_agree_except(pre: World, post: World, owner: Identity) -> bool {
    forall|o: Identity| o != owner ==> inventory_lookup(post, o) == inventory_lookup(pre, o)
}

/// Replacing the balance entries of the inventory record at position `i`
/// (and nothing else) preserves well-formedness, moves the owner's lookup
/// to the new record, and leaves every other owner's inventory as it was.
pub proof fn lemma_inventory_table_update(pre: World, post: World, i: int, owner: Identity)
    requires
        pre.wf(),
        same_except_inventories(pre, post),
        0 <= i < pre.inventories@.len(),
        post.inventories@.len() == pre.inventories@.len(),
        pre.inventories@[i].identity == owner,
        post.inventories@[i].identity == owner,
        forall|j: int|
            0 <= j < pre.inventories@.len() && j != i ==> post.inventories@[j]
                == pre.inventories@[j],
        forall|j: int| 0 <= j < i ==> pre.inventories@[j].identity != owner,
        items_wf(post.inventories@[i].items@),
    ensures
        post.wf(),
        inventory_lookup(pre, owner) == Some(pre.inventories@[i]),
        inventory_lookup(post, owner) == Some(post.inventories@[i]),
        inventories_agree_except(pre, post, owner),
        forall|k: u32| balance(post, owner, k) == seq_balance(post.inventories@[i].items@, k),
        forall|k: u32| balance(pre, owner, k) == seq_balance(pre.inventories@[i].items@, k),
{
    assert forall|j: int| 0 <= j < post.inventories@.len() implies post.inventories@[j].identity
        == pre.inventories@[j].identity by {}
    lemma_find_first_at(pre.inventories@, inv_with_owner(owner), i);
    lemma_find_first_at(post.inventories@, inv_with_owner(owner), i);
    assert forall|o: Identity| o != owner implies inventory_lookup(post, o) == inventory_lookup(
        pre,
        o,
    ) by {
        lemma_find_first_agree(pre.inventories@, post.inventories@, inv_with_owner(o));
    }
}

/// Replacing the camera record at position `i` (keeping its identity, and
/// nothing else) preserves well-formedness, moves the identity's lookup to
/// the new record, and leaves every other camera as it was.
pub proof fn lemma_camera_table_update(pre: World, post: World, i: int, id: Identity)
    requires
        pre.wf(),
        same_except_cameras(pre, post),
        0 <= i < pre.cameras@.len(),
        post.cameras@.len() == pre.cameras@.len(),
        pre.cameras@[i].identity == id,
        post.cameras@[i].identity == id,
        forall|j: int|
            0 <= j < pre.cameras@.len() && j != i ==> post.cameras@[j] == pre.cameras@[j],
        forall|j: int| 0 <= j < i ==> pre.cameras@[j].identity != id,
    ensures
        post.wf(),
        camera_lookup(pre, id) == Some(pre.cameras@[i]),
        camera_lookup(post, id) == Some(post.cameras@[i]),
        forall|o: Identity| o != id ==> camera_lookup(post, o) == camera_lookup(pre, o),
{
    assert forall|j: int| 0 <= j < post.cameras@.len() implies post.cameras@[j].identity
        == pre.cameras@[j].identity by {}
    lemma_find_first_at(pre.cameras@, camera_with_identity(id), i);
    lemma_find_first_at(post.cameras@, camera_with_identity(id), i);
    assert forall|o: Identity| o != id implies camera_lookup(post, o) == camera_lookup(
        pre,
        o,
    ) by {
        lemma_find_first_agree(pre.cameras@, post.cameras@, camera_with_identity(o));
    }
}

/// Replacing the player record at position `i` (keeping its identity and
/// player id) preserves well-formedness, moves the identity's lookup to the
/// new record, and leaves every other player as it was.
pub proof fn lemma_player_table_update(pre: World, post: World, i: int, id: Identity)
    requires
        pre.wf(),
        same_except_players(pre, post),
        post.next_player_id == pre.next_player_id,
        0 <= i < pre.players@.len(),
        post.players@.len() == pre.players@.len(),
        pre.players@[i].identity == id,
        post.players@[i].identity == id,
        post.players@[i].player_id == pre.players@[i].player_id,
        forall|j: int|
            0 <= j < pre.players@.len() && j != i ==> post.players@[j] == pre.players@[j],
        forall|j: int| 0 <= j < i ==> pre.players@[j].identity != id,
    ensures
        post.wf(),
        player_lookup(pre, id) == Some(pre.players@[i]),
        player_lookup(post, id) == Some(post.players@[i]),
        forall|o: Identity| o != id ==> player_lookup(post, o) == player_lookup(pre, o),
{
    assert forall|j: int| 0 <= j < post.players@.len() implies post.players@[j].identity
        == pre.players@[j].identity && post.players@[j].player_id
        == pre.players@[j].player_id by {}
    lemma_find_first_at(pre.players@, player_with_identity(id), i);
    lemma_find_first_at(post.players@, player_with_identity(id), i);
    assert forall|o: Identity| o != id implies player_lookup(post, o) == player_lookup(
        pre,
        o,
    ) by {
        lemma_find_first_agree(pre.players@, post.players@, player_with_identity(o));
    }
}

/// Replacing the spawn record at position `i` (keeping its id) preserves
/// well-formedness, moves the id's lookup to the new record, and leaves
/// every other spawn point as it was.
pub proof fn lemma_spawn_table_update(pre: World, post: World, i: int, id: u32)
    requires
        pre.wf(),
        same_except_spawns(pre, post),
        0 <= i < pre.spawns@.len(),
        post.spawns@.len() == pre.spawns@.len(),
        pre.spawns@[i].id == id,
        post.spawns@[i].id == id,
        forall|j: int| 0 <= j < pre.spawns@.len() && j != i ==> post.spawns@[j] == pre.spawns@[j],
        forall|j: int| 0 <= j < i ==> pre.spawns@[j].id != id,
    ensures
        post.wf(),
        spawn_lookup(pre, id) == Some(pre.spawns@[i]),
        spawn_lookup(post, id) == Some(post.spawns@[i]),
        forall|o: u32| o != id ==> spawn_lookup(post, o) == spawn_lookup(pre, o),
{
    assert forall|j: int| 0 <= j < post.spawns@.len() implies post.spawns@[j].id
        == pre.spawns@[j].id by {}
    lemma_find_first_at(pre.spawns@, spawn_with_id(id), i);
    lemma_find_first_at(post.spawns@, spawn_with_id(id), i);
    assert forall|o: u32| o != id implies spawn_lookup(post, o) == spawn_lookup(pre, o) by {
        lemma_find_first_agree(pre.spawns@, post.spawns@, spawn_with_id(o));
    }
}

/// The position of `owner`'s inventory record, if any, plus the facts the
/// stores need to update it in place.
pub(crate) fn find_inventory_index(w: &World, owner: Identity) -> (r: Option<usize>)
    ensures
        match r {
            Some(i) => {
                &&& i < w.inventories@.len()
                &&& w.inventories@[i as int].identity == owner
                &&& forall|j: int| 0 <= j < i ==> w.inventories@[j].identity != owner
                &&& inventory_lookup(*w, owner) == Some(w.inventories@[i as int])
            },
            None => inventory_lookup(*w, owner) is None,
        },
{
    let n = w.inventories.len();
    let mut i: usize = 0;
    while i < n
        invariant
            n == w.inventories@.len(),
            i <= n,
            forall|j: int| 0 <= j < i ==> w.inventories@[j].identity != owner,
        decreases n - i,
    {
        if w.inventories[i].identity == owner {
            proof {
                lemma_find_first_at(w.inventories@, inv_with_owner(owner), i as int);
            }
            return Some(i);
        }
        i = i + 1;
    }
    proof {
        lemma_find_first_none(w.inventories@, inv_with_owner(owner));
    }
    None
}

/// The position of `id`'s camera record, if any.
pub(crate) fn find_camera_index(w: &World, id: Identity) -> (r: Option<usize>)
    ensures
        match r {
            Some(i) => {
                &&& i < w.cameras@.len()
                &&& w.cameras@[i as int].identity == id
                &&& forall|j: int| 0 <= j < i ==> w.cameras@[j].identity != id
                &&& camera_lookup(*w, id) == Some(w.cameras@[i as int])
            },
            None => camera_lookup(*w, id) is None,
        },
{
    let n = w.cameras.len();
    let mut i: usize = 0;
    while i < n
        invariant
            n == w.cameras@.len(),
            i <= n,
            forall|j: int| 0 <= j < i ==> w.cameras@[j].identity != id,
        decreases n - i,
    {
        if w.cameras[i].identity == id {
            proof {
                lemma_find_first_at(w.cameras@, camera_with_identity(id), i as int);
            }
            return Some(i);
        }
        i = i + 1;
    }
    proof {
        lemma_find_first_none(w.cameras@, camera_with_identity(id));
    }
    None
}

/// The position of `id`'s player record, if any.
pub(crate) fn find_player_index(w: &World, id: Identity) -> (r: Option<usize>)
    ensures
        match r {
            Some(i) => {
                &&& i < w.players@.len()
                &&& w.players@[i as int].identity == id
                &&& forall|j: int| 0 <= j < i ==> w.players@[j].identity != id
                &&& player_lookup(*w, id) == Some(w.players@[i as int])
            },
            None => player_lookup(*w, id) is None,
        },
{
    let n = w.players.len();
    let mut i: usize = 0;
    while i < n
        invariant
            n == w.players@.len(),
            i <= n,
            forall|j: int| 0 <= j < i ==> w.players@[j].identity != id,
        decreases n - i,
    {
        if w.players[i].identity == id {
            proof {
                lemma_find_first_at(w.players@, player_with_identity(id), i as int);
            }
            return Some(i);
        }
        i = i + 1;
    }
    proof {
        lemma_find_first_none(w.players@, player_with_identity(id));
    }
    None
}

/// The position of the spawn record with the given id, if any.
pub(crate) fn find_spawn_index(w: &World, id: u32) -> (r: Option<usize>)
    ensures
        match r {
            Some(i) => {
                &&& i < w.spawns@.len()
                &&& w.spawns@[i as int].id == id
                &&& forall|j: int| 0 <= j < i ==> w.spawns@[j].id != id
                &&& spawn_lookup(*w, id) == Some(w.spawns@[i as int])
            },
            None => spawn_lookup(*w, id) is None,
        },
{
    let n = w.spawns.len();
    let mut i: usize = 0;
    while i < n
        invariant
            n == w.spawns@.len(),
            i <= n,
            forall|j: int| 0 <= j < i ==> w.spawns@[j].id != id,
        decreases n - i,
    {
        if w.spawns[i].id == id {
            proof {
                lemma_find_first_at(w.spawns@, spawn_with_id(id), i as int);
            }
            return Some(i);
        }
        i = i + 1;
    }
    proof {
        lemma_find_first_none(w.spawns@, spawn_with_id(id));
    }
    None
}

} // verus!
