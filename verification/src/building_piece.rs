//! Free-form building pieces: the cost-free placement surface that predates
//! the resource-backed ledger. Pieces are keyed like placed pieces and
//! removal is owner-only, but no materials change hands.

use vstd::prelude::*;

use crate::building_piece_placed::DbBuildingPieceType;
use crate::errors::ReducerError;
use crate::keyed::{
    lemma_find_first_at, lemma_find_first_none, lemma_find_first_push, lemma_find_first_remove,
};
use crate::types::{DbVector3, Identity};
use crate::world::{piece_lookup, piece_with_id, same_except_pieces, World};

verus! {

/// One standing free-form piece, identified by its category and a
/// client-chosen catalog index rather than a costed variant.
#[derive(Clone, Copy, PartialEq, Eq, Structural, Debug)]
pub struct DbBuildingPiece {
    /// Unique key, assigned by the store; monotonic, never reused.
    pub piece_id: u32,
    pub owner: Identity,
    /// Client-chosen index into its own piece table for this category.
    pub index: u32,
    pub piece_type: DbBuildingPieceType,
    pub position: DbVector3,
    pub rotation: DbVector3,
}

/// The position of the free-form piece with the given id, if any.
fn find_piece_index(w: &World, piece_id: u32) -> (r: Option<usize>)
    ensures
        match r {
            Some(i) => {
                &&& i < w.pieces@.len()
                &&& w.pieces@[i as int].piece_id == piece_id
                &&& forall|j: int| 0 <= j < i ==> w.pieces@[j].piece_id != piece_id
                &&& piece_lookup(*w, piece_id) == Some(w.pieces@[i as int])
            },
            None => piece_lookup(*w, piece_id) is None,
        },
{
    let n = w.pieces.len();
    let mut i: usize = 0;
    while i < n
        invariant
            n == w.pieces@.len(),
            i <= n,
            forall|j: int| 0 <= j < i ==> w.pieces@[j].piece_id != piece_id,
        decreases n - i,
    {
        if w.pieces[i].piece_id == piece_id {
            proof {
                lemma_find_first_at(w.pieces@, piece_with_id(piece_id), i as int);
            }
            return Some(i);
        }
        i = i + 1;
    }
    proof {
        lemma_find_first_none(w.pieces@, piece_with_id(piece_id));
    }
    None
}

/// Record a free-form piece under a fresh id. No materials change hands.
pub fn place_building_piece(
    w: &mut World,
    sender: Identity,
    index: u32,
    piece_type: DbBuildingPieceType,
    position: DbVector3,
    rotation: DbVector3,
) -> (r: Result<(), ReducerError>)
    requires
        old(w).wf(),
        old(w).next_building_piece_id < u32::MAX,
    ensures
        final(w).wf(),
        r is Ok,
        same_except_pieces(*old(w), *final(w)),
        final(w).next_building_piece_id == old(w).next_building_piece_id + 1,
        final(w).pieces@ == old(w).pieces@.push(
            DbBuildingPiece {
                piece_id: old(w).next_building_piece_id,
                owner: sender,
                index,
                piece_type,
                position,
                rotation,
            },
        ),
        piece_lookup(*final(w), old(w).next_building_piece_id) == Some(
            DbBuildingPiece {
                piece_id: old(w).next_building_piece_id,
                owner: sender,
                index,
                piece_type,
                position,
                rotation,
            },
        ),
        forall|q: u32|
            q != old(w).next_building_piece_id ==> piece_lookup(*final(w), q) == piece_lookup(
                *old(w),
                q,
            ),
{
    let ghost w0 = *w;
    let pid = w.next_building_piece_id;
    let piece = DbBuildingPiece { piece_id: pid, owner: sender, index, piece_type, position, rotation };
    w.pieces.push(piece);
    w.next_building_piece_id = pid + 1;
    proof {
        assert forall|jj: int| 0 <= jj < w0.pieces@.len() implies !(piece_with_id(pid)(
            w0.pieces@[jj],
        )) by {}
        lemma_find_first_none(w0.pieces@, piece_with_id(pid));
        lemma_find_first_push(w0.pieces@, piece_with_id(pid), piece);
        assert forall|q: u32| q != pid implies piece_lookup(*w, q) == piece_lookup(w0, q) by {
            lemma_find_first_push(w0.pieces@, piece_with_id(q), piece);
        }
    }
    Ok(())
}

/// Delete a free-form piece; only its owner may. Fails with
/// `PieceNotFound` or `NotOwner`, in which case nothing changes.
pub fn remove_building_piece(w: &mut World, sender: Identity, piece_id: u32) -> (r: Result<
    (),
    ReducerError,
>)
    requires
        old(w).wf(),
    ensures
        final(w).wf(),
        same_except_pieces(*old(w), *final(w)),
        final(w).next_building_piece_id == old(w).next_building_piece_id,
        r is Ok <==> match piece_lookup(*old(w), piece_id) {
            Some(p) => p.owner == sender,
            None => false,
        },
        match r {
            Ok(()) => {
                &&& final(w).pieces@.len() + 1 == old(w).pieces@.len()
                &&& piece_lookup(*final(w), piece_id) is None
                &&& forall|q: u32|
                    q != piece_id ==> piece_lookup(*final(w), q) == piece_lookup(*old(w), q)
            },
            Err(e) => {
                &&& *final(w) == *old(w)
                &&& (e == ReducerError::PieceNotFound <==> piece_lookup(*old(w), piece_id)
                    is None)
                &&& (e == ReducerError::PieceNotFound || e == ReducerError::NotOwner)
            },
        },
{
    let ghost w0 = *w;
    match find_piece_index(w, piece_id) {
        Some(pi) => {
            if w.pieces[pi].owner != sender {
                return Err(ReducerError::NotOwner);
            }
            w.pieces.remove(pi);
            proof {
                let post_pieces = w.pieces@;
                assert(post_pieces =~= w0.pieces@.remove(pi as int));
                assert forall|x: int| 0 <= x < post_pieces.len() implies !(piece_with_id(piece_id)(
                    post_pieces[x],
                )) by {
                    if x < pi as int {
                        assert(post_pieces[x] == w0.pieces@[x]);
                    } else {
                        assert(post_pieces[x] == w0.pieces@[x + 1]);
                    }
                }
                lemma_find_first_none(post_pieces, piece_with_id(piece_id));
                assert forall|q: u32| q != piece_id implies piece_lookup(*w, q) == piece_lookup(
                    w0,
                    q,
                ) by {
                    lemma_find_first_remove(w0.pieces@, piece_with_id(q), pi as int);
                }
            }
            Ok(())
        },
        None => Err(ReducerError::PieceNotFound),
    }
}

} // verus!
