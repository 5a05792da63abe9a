//! The building variant catalog: static reference data mapping a variant
//! id to its category, display name, material cost schedule, and base
//! durability. Seeded once at initialization and read-only afterwards.

use vstd::prelude::*;
use vstd::string::StringExecFns;

use crate::building_piece_placed::DbBuildingPieceType;
use crate::errors::ReducerError;
use crate::keyed::{lemma_find_first_at, lemma_find_first_none, lemma_find_first_push};
use crate::world::{same_except_variants, variant_lookup, variant_with_id, World};

verus! {

/// Scalar encoding of the base durability every seeded variant starts with.
pub const VARIANT_BASE_HEALTH: u32 = 0x42C8_0000;

/// Item kind every seeded cost schedule draws from.
pub const SEED_COST_ITEM: u32 = 0;

/// Quantity of that item kind every seeded variant costs.
pub const SEED_COST_QUANTITY: u32 = 5;

/// One line item of a cost schedule: a required quantity of one item kind.
#[derive(Clone, Copy, PartialEq, Eq, Structural, Debug)]
pub struct DbBuildingCost {
    pub item_id: u32,
    pub quantity: u32,
}

/// A named, costed template for a category of building piece.
#[derive(Debug)]
pub struct DbBuildingPieceVariant {
    /// Unique key.
    pub variant_id: u32,
    pub piece_type: DbBuildingPieceType,
    pub variant_name: String,
    /// Ordered list of line items; duplicate item kinds are tolerated by
    /// summing.
    pub build_cost: Vec<DbBuildingCost>,
    /// Base durability of pieces of this variant, as an opaque positive
    /// scalar encoding (the library never interprets it numerically).
    pub max_health: u32,
}

/// What one line item demands of item kind `k`.
pub open spec fn cost_contrib(c: DbBuildingCost, k: u32) -> int {
    if c.item_id == k {
        c.quantity as int
    } else {
        0
    }
}

/// The total demand of a cost schedule on item kind `k`: the sum of its
/// line items for that kind, so duplicate kinds sum.
pub open spec fn schedule_need(costs: Seq<DbBuildingCost>, k: u32) -> int
    decreases costs.len(),
{
    if costs.len() == 0 {
        0
    } else {
        schedule_need(costs.drop_last(), k) + cost_contrib(costs.last(), k)
    }
}

pub proof fn lemma_schedule_need_nonneg(costs: Seq<DbBuildingCost>, k: u32)
    ensures
        0 <= schedule_need(costs, k),
    decreases costs.len(),
{
    if costs.len() > 0 {
        lemma_schedule_need_nonneg(costs.drop_last(), k);
    }
}

/// Extending a prefix of the schedule by one line adds that line's demand.
pub proof fn lemma_schedule_need_take_step(costs: Seq<DbBuildingCost>, j: int, k: u32)
    requires
        0 <= j < costs.len(),
    ensures
        schedule_need(costs.take(j + 1), k) == schedule_need(costs.take(j), k) + cost_contrib(
            costs[j],
            k,
        ),
{
    assert(costs.take(j + 1).drop_last() =~= costs.take(j));
    assert(costs.take(j + 1).last() == costs[j]);
}

/// A prefix of the schedule never demands more than the whole schedule.
pub proof fn lemma_schedule_need_take_le(costs: Seq<DbBuildingCost>, j: int, k: u32)
    requires
        0 <= j <= costs.len(),
    ensures
        schedule_need(costs.take(j), k) <= schedule_need(costs, k),
    decreases costs.len() - j,
{
    if j == costs.len() {
        assert(costs.take(j) =~= costs);
    } else {
        lemma_schedule_need_take_step(costs, j, k);
        lemma_schedule_need_take_le(costs, j + 1, k);
    }
}

/// A schedule whose every line demands nothing has no total demand.
pub proof fn lemma_schedule_need_zero(costs: Seq<DbBuildingCost>, k: u32)
    requires
        forall|j: int| 0 <= j < costs.len() ==> costs[j].quantity == 0,
    ensures
        schedule_need(costs, k) == 0,
    decreases costs.len(),
{
    if costs.len() > 0 {
        lemma_schedule_need_zero(costs.drop_last(), k);
    }
}

/// One line never demands more than the whole schedule.
pub proof fn lemma_schedule_need_line_le(costs: Seq<DbBuildingCost>, i: int, k: u32)
    requires
        0 <= i < costs.len(),
    ensures
        cost_contrib(costs[i], k) <= schedule_need(costs, k),
{
    lemma_schedule_need_take_step(costs, i, k);
    lemma_schedule_need_take_le(costs, i + 1, k);
    lemma_schedule_need_nonneg(costs.take(i), k);
}

/// The catalog variant with the given id; fails with `VariantNotFound` if
/// it is unknown. Read-only.
pub fn building_piece_variant_get<'a>(w: &'a World, variant_id: u32) -> (r: Result<
    &'a DbBuildingPieceVariant,
    ReducerError,
>)
    ensures
        match r {
            Ok(v) => variant_lookup(*w, variant_id) == Some(*v),
            Err(e) => e == ReducerError::VariantNotFound && variant_lookup(*w, variant_id)
                is None,
        },
{
    let n = w.variants.len();
    let mut i: usize = 0;
    while i < n
        invariant
            n == w.variants@.len(),
            i <= n,
            forall|j: int| 0 <= j < i ==> w.variants@[j].variant_id != variant_id,
        decreases n - i,
    {
        if w.variants[i].variant_id == variant_id {
            proof {
                lemma_find_first_at(w.variants@, variant_with_id(variant_id), i as int);
            }
            return Ok(&w.variants[i]);
        }
        i = i + 1;
    }
    proof {
        lemma_find_first_none(w.variants@, variant_with_id(variant_id));
    }
    Err(ReducerError::VariantNotFound)
}

/// The whole catalog, for clients to render cost and requirement displays.
pub fn get_variant_catalog(w: &World) -> (r: &Vec<DbBuildingPieceVariant>)
    ensures
        r@ == w.variants@,
{
    &w.variants
}

/// The catalog holds a variant with this id, category, name, the seed cost
/// schedule (one line of the seed item kind), and the seed base durability.
pub open spec fn catalog_entry(
    w: World,
    vid: u32,
    piece_type: DbBuildingPieceType,
    name: Seq<char>,
) -> bool {
    match variant_lookup(w, vid) {
        Some(v) => {
            &&& v.piece_type == piece_type
            &&& v.variant_name@ == name
            &&& v.build_cost@.len() == 1
            &&& v.build_cost@[0] == (DbBuildingCost {
                item_id: SEED_COST_ITEM,
                quantity: SEED_COST_QUANTITY,
            })
            &&& v.max_health == VARIANT_BASE_HEALTH
        },
        None => false,
    }
}

/// Append one seeded variant to the catalog. The caller keeps variant ids
/// unique; seeding happens once, on an empty catalog.
fn seed_variant(w: &mut World, variant_id: u32, piece_type: DbBuildingPieceType, name: &str)
    requires
        old(w).wf(),
        variant_lookup(*old(w), variant_id) is None,
    ensures
        final(w).wf(),
        same_except_variants(*old(w), *final(w)),
        final(w).variants@.len() == old(w).variants@.len() + 1,
        forall|j: int| 0 <= j < old(w).variants@.len() ==> final(w).variants@[j] == old(w).variants@[j],
        catalog_entry(*final(w), variant_id, piece_type, name@),
        forall|vid2: u32|
            vid2 != variant_id ==> variant_lookup(*final(w), vid2) == variant_lookup(
                *old(w),
                vid2,
            ),
{
    let ghost pre = w.variants@;
    let mut build_cost: Vec<DbBuildingCost> = Vec::new();
    build_cost.push(DbBuildingCost { item_id: SEED_COST_ITEM, quantity: SEED_COST_QUANTITY });
    let variant = DbBuildingPieceVariant {
        variant_id,
        piece_type,
        variant_name: String::from_str(name),
        build_cost,
        max_health: VARIANT_BASE_HEALTH,
    };
    let ghost new_variant = variant;
    w.variants.push(variant);
    proof {
        crate::keyed::lemma_find_first_none_inv(pre, variant_with_id(variant_id));
        lemma_find_first_push(pre, variant_with_id(variant_id), new_variant);
        assert forall|vid2: u32| vid2 != variant_id implies variant_lookup(*w, vid2)
            == variant_lookup(*old(w), vid2) by {
            lemma_find_first_push(pre, variant_with_id(vid2), new_variant);
        }
    }
}

/// The foundation category's seed variants.
fn foundation_variants(w: &mut World) -> (r: Result<(), ReducerError>)
    requires
        old(w).wf(),
        variant_lookup(*old(w), 0) is None,
        variant_lookup(*old(w), 1) is None,
    ensures
        final(w).wf(),
        r is Ok,
        same_except_variants(*old(w), *final(w)),
        final(w).variants@.len() == old(w).variants@.len() + 2,
        catalog_entry(*final(w), 0, DbBuildingPieceType::Foundation, "Square"@),
        catalog_entry(*final(w), 1, DbBuildingPieceType::Foundation, "Triangle"@),
        forall|vid2: u32|
            !(vid2 == 0 || vid2 == 1) ==> variant_lookup(*final(w), vid2) == variant_lookup(
                *old(w),
                vid2,
            ),
{
    seed_variant(w, 0, DbBuildingPieceType::Foundation, "Square");
    seed_variant(w, 1, DbBuildingPieceType::Foundation, "Triangle");
    Ok(())
}

/// The floor category's seed variants.
fn floor_variants(w: &mut World) -> (r: Result<(), ReducerError>)
    requires
        old(w).wf(),
        variant_lookup(*old(w), 2) is None,
        variant_lookup(*old(w), 3) is None,
        variant_lookup(*old(w), 4) is None,
        variant_lookup(*old(w), 5) is None,
    ensures
        final(w).wf(),
        r is Ok,
        same_except_variants(*old(w), *final(w)),
        final(w).variants@.len() == old(w).variants@.len() + 4,
        catalog_entry(*final(w), 2, DbBuildingPieceType::Floor, "Floor"@),
        catalog_entry(*final(w), 3, DbBuildingPieceType::Floor, "Half Floor"@),
        catalog_entry(*final(w), 4, DbBuildingPieceType::Floor, "Quarter Floor"@),
        catalog_entry(*final(w), 5, DbBuildingPieceType::Floor, "Triangle"@),
        forall|vid2: u32|
            !(2 <= vid2 <= 5) ==> variant_lookup(*final(w), vid2) == variant_lookup(
                *old(w),
                vid2,
            ),
{
    seed_variant(w, 2, DbBuildingPieceType::Floor, "Floor");
    seed_variant(w, 3, DbBuildingPieceType::Floor, "Half Floor");
    seed_variant(w, 4, DbBuildingPieceType::Floor, "Quarter Floor");
    seed_variant(w, 5, DbBuildingPieceType::Floor, "Triangle");
    Ok(())
}

/// The wall category's seed variants.
fn wall_variants(w: &mut World) -> (r: Result<(), ReducerError>)
    requires
        old(w).wf(),
        variant_lookup(*old(w), 6) is None,
        variant_lookup(*old(w), 7) is None,
        variant_lookup(*old(w), 8) is None,
        variant_lookup(*old(w), 9) is None,
        variant_lookup(*old(w), 10) is None,
    ensures
        final(w).wf(),
        r is Ok,
        same_except_variants(*old(w), *final(w)),
        final(w).variants@.len() == old(w).variants@.len() + 5,
        catalog_entry(*final(w), 6, DbBuildingPieceType::Wall, "Wall"@),
        catalog_entry(*final(w), 7, DbBuildingPieceType::Wall, "Half Wall"@),
        catalog_entry(*final(w), 8, DbBuildingPieceType::Wall, "Quarter Wall"@),
        catalog_entry(*final(w), 9, DbBuildingPieceType::Wall, "Door"@),
        catalog_entry(*final(w), 10, DbBuildingPieceType::Wall, "Window"@),
        forall|vid2: u32|
            !(6 <= vid2 <= 10) ==> variant_lookup(*final(w), vid2) == variant_lookup(
                *old(w),
                vid2,
            ),
{
    seed_variant(w, 6, DbBuildingPieceType::Wall, "Wall");
    seed_variant(w, 7, DbBuildingPieceType::Wall, "Half Wall");
    seed_variant(w, 8, DbBuildingPieceType::Wall, "Quarter Wall");
    seed_variant(w, 9, DbBuildingPieceType::Wall, "Door");
    seed_variant(w, 10, DbBuildingPieceType::Wall, "Window");
    Ok(())
}

/// The stair category's seed variants.
fn stair_variants(w: &mut World) -> (r: Result<(), ReducerError>)
    requires
        old(w).wf(),
        variant_lookup(*old(w), 11) is None,
        variant_lookup(*old(w), 12) is None,
    ensures
        final(w).wf(),
        r is Ok,
        same_except_variants(*old(w), *final(w)),
        final(w).variants@.len() == old(w).variants@.len() + 2,
        catalog_entry(*final(w), 11, DbBuildingPieceType::Stair, "Stair"@),
        catalog_entry(*final(w), 12, DbBuildingPieceType::Stair, "Half Stair"@),
        forall|vid2: u32|
            !(vid2 == 11 || vid2 == 12) ==> variant_lookup(*final(w), vid2) == variant_lookup(
                *old(w),
                vid2,
            ),
{
    seed_variant(w, 11, DbBuildingPieceType::Stair, "Stair");
    seed_variant(w, 12, DbBuildingPieceType::Stair, "Half Stair");
    Ok(())
}

/// Seed the whole variant catalog: one or more named variants for each of
/// the four categories, each with a cost schedule and a base durability.
/// Runs once, at initialization, on an empty catalog.
pub fn building_piece_variant_init(w: &mut World) -> (r: Result<(), ReducerError>)
    requires
        old(w).wf(),
        old(w).variants@.len() == 0,
    ensures
        final(w).wf(),
        r is Ok,
        same_except_variants(*old(w), *final(w)),
        final(w).variants@.len() == 13,
        catalog_entry(*final(w), 0, DbBuildingPieceType::Foundation, "Square"@),
        catalog_entry(*final(w), 1, DbBuildingPieceType::Foundation, "Triangle"@),
        catalog_entry(*final(w), 2, DbBuildingPieceType::Floor, "Floor"@),
        catalog_entry(*final(w), 3, DbBuildingPieceType::Floor, "Half Floor"@),
        catalog_entry(*final(w), 4, DbBuildingPieceType::Floor, "Quarter Floor"@),
        catalog_entry(*final(w), 5, DbBuildingPieceType::Floor, "Triangle"@),
        catalog_entry(*final(w), 6, DbBuildingPieceType::Wall, "Wall"@),
        catalog_entry(*final(w), 7, DbBuildingPieceType::Wall, "Half Wall"@),
        catalog_entry(*final(w), 8, DbBuildingPieceType::Wall, "Quarter Wall"@),
        catalog_entry(*final(w), 9, DbBuildingPieceType::Wall, "Door"@),
        catalog_entry(*final(w), 10, DbBuildingPieceType::Wall, "Window"@),
        catalog_entry(*final(w), 11, DbBuildingPieceType::Stair, "Stair"@),
        catalog_entry(*final(w), 12, DbBuildingPieceType::Stair, "Half Stair"@),
{
    let r = foundation_variants(w);
    if r.is_err() {
        return r;
    }
    let r = floor_variants(w);
    if r.is_err() {
        return r;
    }
    let r = wall_variants(w);
    if r.is_err() {
        return r;
    }
    stair_variants(w)
}

} // verus!
