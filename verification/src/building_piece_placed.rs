//! Placed structural pieces and the placement ledger.
//!
//! This is the core of the crate: placing a piece validates the variant's
//! whole cost schedule against the owner's inventory, debits every line
//! item only when all of them pass, and records the piece under a fresh,
//! monotonically increasing piece id. Removing a piece is permitted only
//! to its owner and refunds the full cost schedule before the record is
//! deleted, so that materials spent equal materials refunded, exactly once.

use vstd::prelude::*;

use crate::building_piece_variant::{
    building_piece_variant_get, cost_contrib, lemma_schedule_need_line_le,
    lemma_schedule_need_take_le, lemma_schedule_need_take_step, lemma_schedule_need_zero,
    schedule_need, DbBuildingCost,
};
use crate::errors::ReducerError;
use crate::inventory::{
    items_credit, items_debit, items_try_credit, items_wf, lemma_seq_balance_le_max,
    lemma_seq_balance_nonneg, seq_balance,
};
use crate::keyed::{
    copy_vec, lemma_find_first_at, lemma_find_first_none, lemma_find_first_push,
    lemma_find_first_remove,
};
use crate::types::{DbVector3, Identity};
use crate::world::{
    balance, find_inventory_index, inventories_agree_except, inventory_lookup,
    lemma_inventory_table_update, placed_lookup, placed_with_id, same_except_placement,
    variant_lookup, World,
};

verus! {

/// The structural category of a building piece.
#[derive(Clone, Copy, PartialEq, Eq, Structural, Debug)]
pub enum DbBuildingPieceType {
    Foundation,
    Wall,
    Floor,
    Stair,
}

/// One standing structural element, owned by exactly one identity and
/// referencing exactly one catalog variant.
#[derive(Clone, Copy, PartialEq, Eq, Structural, Debug)]
pub struct DbBuildingPiecePlaced {
    /// Unique key, assigned by the store; monotonic, never reused.
    pub piece_id: u32,
    /// Identity of the placer; authorization anchor for removal.
    pub owner: Identity,
    /// Reference into the building variant catalog.
    pub variant_id: u32,
    pub position: DbVector3,
    pub rotation: DbVector3,
}

/// Every line item of the schedule is covered: the owner's balance for the
/// line's item kind is at least the schedule's whole demand for that kind
/// (so duplicate kinds are tolerated by summing).
pub open spec fn schedule_affordable(w: World, owner: Identity, costs: Seq<DbBuildingCost>) -> bool {
    forall|i: int|
        0 <= i < costs.len() ==> balance(w, owner, (#[trigger] costs[i]).item_id) >= schedule_need(
            costs,
            costs[i].item_id,
        )
}

/// Placement succeeds exactly when the variant exists and its whole cost
/// schedule is affordable to the placer.
pub open spec fn place_allowed(w: World, sender: Identity, variant_id: u32) -> bool {
    match variant_lookup(w, variant_id) {
        Some(v) => schedule_affordable(w, sender, v.build_cost@),
        None => false,
    }
}

/// The effect of a successful placement: the piece stands under the fresh
/// id `pid`, the id counter moved past it, the placer paid the variant's
/// whole cost schedule, and nothing else changed.
pub open spec fn place_transition(
    pre: World,
    post: World,
    sender: Identity,
    variant_id: u32,
    position: DbVector3,
    rotation: DbVector3,
    pid: u32,
) -> bool {
    let v = variant_lookup(pre, variant_id).unwrap();
    let piece = DbBuildingPiecePlaced { piece_id: pid, owner: sender, variant_id, position, rotation };
    &&& variant_lookup(pre, variant_id) is Some
    &&& pid == pre.next_piece_id
    &&& post.next_piece_id == pre.next_piece_id + 1
    &&& post.placed@ == pre.placed@.push(piece)
    &&& placed_lookup(post, pid) == Some(piece)
    &&& forall|q: u32| q != pid ==> placed_lookup(post, q) == placed_lookup(pre, q)
    &&& same_except_placement(pre, post)
    &&& forall|k: u32|
        balance(post, sender, k) == balance(pre, sender, k) - schedule_need(v.build_cost@, k)
    &&& inventories_agree_except(pre, post, sender)
    &&& (inventory_lookup(post, sender) is Some <==> inventory_lookup(pre, sender) is Some)
    &&& (inventory_lookup(pre, sender) is Some ==> inventory_lookup(post, sender).unwrap().size
        == inventory_lookup(pre, sender).unwrap().size)
}

/// Removal succeeds exactly when the piece exists, the requester placed it,
/// its variant is still cataloged, and the refund has an inventory to land
/// in (or there is nothing to refund).
pub open spec fn remove_allowed(w: World, sender: Identity, piece_id: u32) -> bool {
    match placed_lookup(w, piece_id) {
        Some(p) => p.owner == sender && match variant_lookup(w, p.variant_id) {
            Some(v) => inventory_lookup(w, sender) is Some || v.build_cost@.len() == 0,
            None => false,
        },
        None => false,
    }
}

/// The effect of a successful removal: the piece is gone (its id is never
/// reassigned), the owner was refunded the variant's whole cost schedule,
/// and nothing else changed.
pub open spec fn remove_transition(pre: World, post: World, sender: Identity, piece_id: u32) -> bool {
    let p = placed_lookup(pre, piece_id).unwrap();
    let v = variant_lookup(pre, p.variant_id).unwrap();
    &&& placed_lookup(pre, piece_id) is Some
    &&& p.owner == sender
    &&& variant_lookup(pre, p.variant_id) is Some
    &&& post.placed@.len() + 1 == pre.placed@.len()
    &&& post.next_piece_id == pre.next_piece_id
    &&& placed_lookup(post, piece_id) is None
    &&& forall|q: u32| q != piece_id ==> placed_lookup(post, q) == placed_lookup(pre, q)
    &&& same_except_placement(pre, post)
    &&& forall|k: u32|
        balance(post, sender, k) == balance(pre, sender, k) + schedule_need(v.build_cost@, k)
    &&& inventories_agree_except(pre, post, sender)
    &&& (inventory_lookup(post, sender) is Some <==> inventory_lookup(pre, sender) is Some)
    &&& (inventory_lookup(pre, sender) is Some ==> inventory_lookup(post, sender).unwrap().size
        == inventory_lookup(pre, sender).unwrap().size)
}

/// Machine limit on refunds: if the piece is the sender's and still
/// cataloged, every refunded balance must fit the word that stores it.
/// [`remove_refund_fits`] decides this at run time.
pub open spec fn refund_fits(w: World, sender: Identity, piece_id: u32) -> bool {
    match placed_lookup(w, piece_id) {
        Some(p) => p.owner == sender ==> match variant_lookup(w, p.variant_id) {
            Some(v) => inventory_lookup(w, sender) is Some ==> forall|k: u32|
                balance(w, sender, k) + schedule_need(v.build_cost@, k) <= u32::MAX,
            None => true,
        },
        None => true,
    }
}

/// The position of the placed piece with the given id, if any.
fn find_placed_index(w: &World, piece_id: u32) -> (r: Option<usize>)
    ensures
        match r {
            Some(i) => {
                &&& i < w.placed@.len()
                &&& w.placed@[i as int].piece_id == piece_id
                &&& forall|j: int| 0 <= j < i ==> w.placed@[j].piece_id != piece_id
                &&& placed_lookup(*w, piece_id) == Some(w.placed@[i as int])
            },
            None => placed_lookup(*w, piece_id) is None,
        },
{
    let n = w.placed.len();
    let mut i: usize = 0;
    while i < n
        invariant
            n == w.placed@.len(),
            i <= n,
            forall|j: int| 0 <= j < i ==> w.placed@[j].piece_id != piece_id,
        decreases n - i,
    {
        if w.placed[i].piece_id == piece_id {
            proof {
                lemma_find_first_at(w.placed@, placed_with_id(piece_id), i as int);
            }
            return Some(i);
        }
        i = i + 1;
    }
    proof {
        lemma_find_first_none(w.placed@, placed_with_id(piece_id));
    }
    None
}

/// Place a building piece: resolve the variant, validate its whole cost
/// schedule against the sender's inventory, debit every line item only
/// after all of them pass, and record the piece under a fresh id. Fails
/// with `VariantNotFound` or `InsufficientMaterials`, in which case no
/// side effect is observable — no line item is debited, nothing is placed,
/// and no piece id is consumed.
pub fn building_piece_place(
    w: &mut World,
    sender: Identity,
    variant_id: u32,
    position: DbVector3,
    rotation: DbVector3,
) -> (r: Result<u32, ReducerError>)
    requires
        old(w).wf(),
        old(w).next_piece_id < u32::MAX,
    ensures
        final(w).wf(),
        r is Ok <==> place_allowed(*old(w), sender, variant_id),
        match r {
            Ok(pid) => place_transition(
                *old(w),
                *final(w),
                sender,
                variant_id,
                position,
                rotation,
                pid,
            ),
            Err(e) => {
                &&& *final(w) == *old(w)
                &&& (e == ReducerError::VariantNotFound || e == ReducerError::InsufficientMaterials)
                &&& (e == ReducerError::VariantNotFound <==> variant_lookup(*old(w), variant_id)
                    is None)
            },
        },
{
    let ghost w0 = *w;
    let costs: Vec<DbBuildingCost> = match building_piece_variant_get(w, variant_id) {
        Ok(v) => copy_vec(&v.build_cost),
        Err(e) => {
            return Err(e);
        },
    };
    let ghost cs = costs@;
    let piece = DbBuildingPiecePlaced {
        piece_id: w.next_piece_id,
        owner: sender,
        variant_id,
        position,
        rotation,
    };
    match find_inventory_index(w, sender) {
        Some(i) => {
            let ghost pre_invs = w.inventories@;
            let ghost pre_items = w.inventories@[i as int].items@;
            // Validate by simulating the whole debit sequence on a scratch
            // copy; the world is untouched until every line item has passed.
            let mut scratch = copy_vec(&w.inventories[i].items);
            let n = costs.len();
            let mut j: usize = 0;
            while j < n
                invariant
                    n == cs.len(),
                    costs@ == cs,
                    j <= n,
                    items_wf(scratch@),
                    forall|k: u32|
                        seq_balance(scratch@, k) == seq_balance(pre_items, k) - schedule_need(
                            cs.take(j as int),
                            k,
                        ),
                    w0 == *old(w),
                    *w == w0,
                    old(w).wf(),
                    forall|k: u32| balance(w0, sender, k) == seq_balance(pre_items, k),
                    variant_lookup(w0, variant_id) is Some,
                    variant_lookup(w0, variant_id).unwrap().build_cost@ == cs,
                decreases n - j,
            {
                let c = costs[j];
                let ghost pre_scratch = scratch@;
                let ok = items_debit(&mut scratch, c.item_id, c.quantity);
                if !ok {
                    proof {
                        lemma_schedule_need_take_step(cs, j as int, c.item_id);
                        lemma_schedule_need_take_le(cs, j as int + 1, c.item_id);
                        assert(balance(w0, sender, c.item_id) < schedule_need(cs, c.item_id));
                        assert(!schedule_affordable(w0, sender, cs));
                    }
                    return Err(ReducerError::InsufficientMaterials);
                }
                proof {
                    assert forall|k: u32|
                        seq_balance(scratch@, k) == seq_balance(pre_items, k) - schedule_need(
                            cs.take(j as int + 1),
                            k,
                        ) by {
                        lemma_schedule_need_take_step(cs, j as int, k);
                    }
                }
                j = j + 1;
            }
            proof {
                assert(cs.take(n as int) =~= cs);
                assert forall|i2: int| 0 <= i2 < cs.len() implies balance(
                    w0,
                    sender,
                    (#[trigger] cs[i2]).item_id,
                ) >= schedule_need(cs, cs[i2].item_id) by {
                    lemma_seq_balance_nonneg(scratch@, cs[i2].item_id);
                }
            }
            // Commit: write the debited balances back, ...
            let mut inv = w.inventories.remove(i);
            inv.items = scratch;
            let ghost inv2 = inv;
            w.inventories.insert(i, inv);
            proof {
                assert(w.inventories@ =~= pre_invs.update(i as int, inv2));
                lemma_inventory_table_update(w0, *w, i as int, sender);
            }
            // ... then record the piece under the fresh id.
            let pid = w.next_piece_id;
            w.placed.push(piece);
            w.next_piece_id = pid + 1;
            proof {
                assert forall|jj: int| 0 <= jj < w0.placed@.len() implies !(placed_with_id(pid)(
                    w0.placed@[jj],
                )) by {}
                lemma_find_first_none(w0.placed@, placed_with_id(pid));
                lemma_find_first_push(w0.placed@, placed_with_id(pid), piece);
                assert forall|q: u32| q != pid implies placed_lookup(*w, q) == placed_lookup(
                    w0,
                    q,
                ) by {
                    lemma_find_first_push(w0.placed@, placed_with_id(q), piece);
                }
            }
            Ok(pid)
        },
        None => {
            // No inventory: affordable exactly when no line item demands
            // anything.
            let n = costs.len();
            let mut j: usize = 0;
            while j < n
                invariant
                    n == cs.len(),
                    costs@ == cs,
                    j <= n,
                    forall|t: int| 0 <= t < j ==> cs[t].quantity == 0,
                    w0 == *old(w),
                    *w == w0,
                    old(w).wf(),
                    inventory_lookup(w0, sender) is None,
                    variant_lookup(w0, variant_id) is Some,
                    variant_lookup(w0, variant_id).unwrap().build_cost@ == cs,
                decreases n - j,
            {
                let c = costs[j];
                if c.quantity > 0 {
                    proof {
                        lemma_schedule_need_line_le(cs, j as int, c.item_id);
                        assert(cost_contrib(cs[j as int], c.item_id) == c.quantity as int);
                        assert(balance(w0, sender, c.item_id) == 0);
                        assert(!schedule_affordable(w0, sender, cs));
                    }
                    return Err(ReducerError::InsufficientMaterials);
                }
                j = j + 1;
            }
            let pid = w.next_piece_id;
            w.placed.push(piece);
            w.next_piece_id = pid + 1;
            proof {
                assert forall|k: u32| schedule_need(cs, k) == 0 by {
                    lemma_schedule_need_zero(cs, k);
                }
                assert forall|jj: int| 0 <= jj < w0.placed@.len() implies !(placed_with_id(pid)(
                    w0.placed@[jj],
                )) by {}
                lemma_find_first_none(w0.placed@, placed_with_id(pid));
                lemma_find_first_push(w0.placed@, placed_with_id(pid), piece);
                assert forall|q: u32| q != pid implies placed_lookup(*w, q) == placed_lookup(
                    w0,
                    q,
                ) by {
                    lemma_find_first_push(w0.placed@, placed_with_id(q), piece);
                }
            }
            Ok(pid)
        },
    }
}

/// Remove a placed piece: only its owner may remove it; the variant's whole
/// cost schedule is credited back to the owner's inventory, and only then
/// is the record deleted, so a piece can never be removed twice and a
/// refund is never issued without the piece going away. Fails with
/// `PieceNotFound`, `NotOwner`, `ConsistencyFault` (the catalog lost the
/// piece's variant after placement; the piece is kept), or
/// `InventoryNotFound`, in which case no side effect is observable.
pub fn building_piece_remove(w: &mut World, sender: Identity, piece_id: u32) -> (r: Result<
    (),
    ReducerError,
>)
    requires
        old(w).wf(),
        refund_fits(*old(w), sender, piece_id),
    ensures
        final(w).wf(),
        r is Ok <==> remove_allowed(*old(w), sender, piece_id),
        match r {
            Ok(()) => remove_transition(*old(w), *final(w), sender, piece_id),
            Err(e) => {
                &&& *final(w) == *old(w)
                &&& (e == ReducerError::PieceNotFound <==> placed_lookup(*old(w), piece_id)
                    is None)
                &&& (e == ReducerError::NotOwner <==> match placed_lookup(*old(w), piece_id) {
                    Some(p) => p.owner != sender,
                    None => false,
                })
                &&& (e == ReducerError::ConsistencyFault <==> match placed_lookup(
                    *old(w),
                    piece_id,
                ) {
                    Some(p) => p.owner == sender && variant_lookup(*old(w), p.variant_id) is None,
                    None => false,
                })
                &&& (e == ReducerError::PieceNotFound || e == ReducerError::NotOwner
                    || e == ReducerError::ConsistencyFault || e == ReducerError::InventoryNotFound)
            },
        },
{
    let ghost w0 = *w;
    let pi = match find_placed_index(w, piece_id) {
        Some(pi) => pi,
        None => {
            return Err(ReducerError::PieceNotFound);
        },
    };
    let piece = w.placed[pi];
    if piece.owner != sender {
        return Err(ReducerError::NotOwner);
    }
    let costs: Vec<DbBuildingCost> = match building_piece_variant_get(w, piece.variant_id) {
        Ok(v) => copy_vec(&v.build_cost),
        Err(_) => {
            return Err(ReducerError::ConsistencyFault);
        },
    };
    let ghost cs = costs@;
    match find_inventory_index(w, sender) {
        Some(i) => {
            let ghost pre_invs = w.inventories@;
            let ghost pre_items = w.inventories@[i as int].items@;
            proof {
                assert forall|k: u32| seq_balance(pre_items, k) + schedule_need(cs, k)
                    <= u32::MAX by {
                    assert(balance(w0, sender, k) == seq_balance(pre_items, k));
                    assert(balance(w0, sender, k) + schedule_need(cs, k) <= u32::MAX);
                }
            }
            // Refund first: credit every line item of the schedule back to
            // the owner ...
            let mut inv = w.inventories.remove(i);
            let n = costs.len();
            let mut j: usize = 0;
            while j < n
                invariant
                    n == cs.len(),
                    costs@ == cs,
                    j <= n,
                    items_wf(inv.items@),
                    inv.identity == sender,
                    inv.size == w0.inventories@[i as int].size,
                    forall|k: u32|
                        seq_balance(inv.items@, k) == seq_balance(pre_items, k) + schedule_need(
                            cs.take(j as int),
                            k,
                        ),
                    forall|k: u32|
                        seq_balance(pre_items, k) + schedule_need(cs, k) <= u32::MAX,
                decreases n - j,
            {
                let c = costs[j];
                proof {
                    lemma_schedule_need_take_step(cs, j as int, c.item_id);
                    lemma_schedule_need_take_le(cs, j as int + 1, c.item_id);
                }
                items_credit(&mut inv.items, c.item_id, c.quantity);
                proof {
                    assert forall|k: u32|
                        seq_balance(inv.items@, k) == seq_balance(pre_items, k) + schedule_need(
                            cs.take(j as int + 1),
                            k,
                        ) by {
                        lemma_schedule_need_take_step(cs, j as int, k);
                    }
                }
                j = j + 1;
            }
            let ghost inv2 = inv;
            w.inventories.insert(i, inv);
            proof {
                assert(cs.take(n as int) =~= cs);
                assert(w.inventories@ =~= pre_invs.update(i as int, inv2));
                lemma_inventory_table_update(w0, *w, i as int, sender);
            }
            // ... and only then delete the piece.
            w.placed.remove(pi);
            proof {
                let post_placed = w.placed@;
                assert(post_placed =~= w0.placed@.remove(pi as int));
                assert forall|x: int| 0 <= x < post_placed.len() implies !(placed_with_id(
                    piece_id,
                )(post_placed[x])) by {
                    if x < pi as int {
                        assert(post_placed[x] == w0.placed@[x]);
                    } else {
                        assert(post_placed[x] == w0.placed@[x + 1]);
                    }
                }
                lemma_find_first_none(post_placed, placed_with_id(piece_id));
                assert forall|q: u32| q != piece_id implies placed_lookup(*w, q) == placed_lookup(
                    w0,
                    q,
                ) by {
                    lemma_find_first_remove(w0.placed@, placed_with_id(q), pi as int);
                }
            }
            Ok(())
        },
        None => {
            if costs.len() > 0 {
                return Err(ReducerError::InventoryNotFound);
            }
            // Nothing to refund: delete the piece alone.
            w.placed.remove(pi);
            proof {
                assert forall|k: u32| schedule_need(cs, k) == 0 by {
                    lemma_schedule_need_zero(cs, k);
                }
                let post_placed = w.placed@;
                assert(post_placed =~= w0.placed@.remove(pi as int));
                assert forall|x: int| 0 <= x < post_placed.len() implies !(placed_with_id(
                    piece_id,
                )(post_placed[x])) by {
                    if x < pi as int {
                        assert(post_placed[x] == w0.placed@[x]);
                    } else {
                        assert(post_placed[x] == w0.placed@[x + 1]);
                    }
                }
                lemma_find_first_none(post_placed, placed_with_id(piece_id));
                assert forall|q: u32| q != piece_id implies placed_lookup(*w, q) == placed_lookup(
                    w0,
                    q,
                ) by {
                    lemma_find_first_remove(w0.placed@, placed_with_id(q), pi as int);
                }
            }
            Ok(())
        },
    }
}

/// Decide [`refund_fits`] at run time, by simulating the whole refund on a
/// scratch copy of the owner's balances. Callers outside the crate test
/// this before [`building_piece_remove`].
pub fn remove_refund_fits(w: &World, sender: Identity, piece_id: u32) -> (b: bool)
    requires
        w.wf(),
    ensures
        b == refund_fits(*w, sender, piece_id),
{
    let pi = match find_placed_index(w, piece_id) {
        Some(pi) => pi,
        None => {
            return true;
        },
    };
    let piece = w.placed[pi];
    if piece.owner != sender {
        return true;
    }
    let costs: Vec<DbBuildingCost> = match building_piece_variant_get(w, piece.variant_id) {
        Ok(v) => copy_vec(&v.build_cost),
        Err(_) => {
            return true;
        },
    };
    let ghost cs = costs@;
    let i = match find_inventory_index(w, sender) {
        Some(i) => i,
        None => {
            return true;
        },
    };
    let ghost pre_items = w.inventories@[i as int].items@;
    let mut scratch = copy_vec(&w.inventories[i].items);
    let n = costs.len();
    let mut j: usize = 0;
    while j < n
        invariant
            n == cs.len(),
            costs@ == cs,
            j <= n,
            items_wf(scratch@),
            forall|k: u32|
                seq_balance(scratch@, k) == seq_balance(pre_items, k) + schedule_need(
                    cs.take(j as int),
                    k,
                ),
            w.wf(),
            placed_lookup(*w, piece_id) == Some(piece),
            piece.owner == sender,
            variant_lookup(*w, piece.variant_id) is Some,
            variant_lookup(*w, piece.variant_id).unwrap().build_cost@ == cs,
            inventory_lookup(*w, sender) is Some,
            forall|k: u32| balance(*w, sender, k) == seq_balance(pre_items, k),
        decreases n - j,
    {
        let c = costs[j];
        let ghost pre_scratch = scratch@;
        let ok = items_try_credit(&mut scratch, c.item_id, c.quantity);
        if !ok {
            proof {
                lemma_schedule_need_take_step(cs, j as int, c.item_id);
                lemma_schedule_need_take_le(cs, j as int + 1, c.item_id);
                assert(balance(*w, sender, c.item_id) + schedule_need(cs, c.item_id) > u32::MAX);
            }
            return false;
        }
        proof {
            assert forall|k: u32|
                seq_balance(scratch@, k) == seq_balance(pre_items, k) + schedule_need(
                    cs.take(j as int + 1),
                    k,
                ) by {
                lemma_schedule_need_take_step(cs, j as int, k);
            }
        }
        j = j + 1;
    }
    proof {
        assert(cs.take(n as int) =~= cs);
        assert forall|k: u32| balance(*w, sender, k) + schedule_need(cs, k) <= u32::MAX by {
            lemma_seq_balance_le_max(scratch@, k);
        }
    }
    true
}

/// CONSERVATION. For any successful placement followed by a successful
/// removal of the same piece by the same owner, the owner's balance for
/// every item kind is exactly what it was before the pair: the removal
/// refunds, line for line, the schedule the placement debited, because the
/// catalog is unchanged by both transitions.
pub proof fn lemma_place_remove_conserves(
    w0: World,
    w1: World,
    w2: World,
    sender: Identity,
    variant_id: u32,
    position: DbVector3,
    rotation: DbVector3,
    pid: u32,
    k: u32,
)
    requires
        place_transition(w0, w1, sender, variant_id, position, rotation, pid),
        remove_transition(w1, w2, sender, pid),
    ensures
        balance(w2, sender, k) == balance(w0, sender, k),
{
    let piece = placed_lookup(w1, pid).unwrap();
    assert(piece.variant_id == variant_id);
    assert(w1.variants@ == w0.variants@);
    assert(variant_lookup(w1, variant_id) == variant_lookup(w0, variant_id));
}

/// NO DOUBLE REMOVAL. After a successful removal the piece id resolves to
/// nothing, so by the contract of [`building_piece_remove`] a second
/// removal of the same id fails with `PieceNotFound`, leaves the world
/// untouched, and issues no additional credit — whoever requests it.
pub proof fn lemma_no_double_remove(pre: World, post: World, sender: Identity, piece_id: u32)
    requires
        remove_transition(pre, post, sender, piece_id),
    ensures
        placed_lookup(post, piece_id) is None,
        forall|requester: Identity| !remove_allowed(post, requester, piece_id),
{
}

} // verus!
