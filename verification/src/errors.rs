//! The error taxonomy of the reducer surface.

use vstd::prelude::*;

verus! {

/// Every failing reducer aborts the entire operation with zero partial
/// effect and reports one of these recoverable, caller-visible errors.
#[derive(Clone, Copy, PartialEq, Eq, Structural, Debug)]
pub enum ReducerError {
    /// The requested building piece variant is not in the catalog.
    VariantNotFound,
    /// The owner is short on at least one line item of a cost schedule.
    InsufficientMaterials,
    /// The owner has no provisioned inventory.
    InventoryNotFound,
    /// No placed piece carries the requested piece id.
    PieceNotFound,
    /// Only the owner of a placed piece may remove it.
    NotOwner,
    /// No player record exists for the identity.
    PlayerNotFound,
    /// No creative camera record exists for the identity.
    CameraNotFound,
    /// The catalog no longer holds the variant of an already placed piece;
    /// reference data was altered after placement.
    ConsistencyFault,
}

impl ReducerError {
    /// A caller-facing description of the error.
    pub fn message(&self) -> &'static str {
        match self {
            ReducerError::VariantNotFound => "Building piece variant not found",
            ReducerError::InsufficientMaterials => "Not enough materials to build this piece",
            ReducerError::InventoryNotFound => "Inventory not found",
            ReducerError::PieceNotFound => "Building piece not found",
            ReducerError::NotOwner => "Only the owner can remove their building pieces",
            ReducerError::PlayerNotFound => "Player not found",
            ReducerError::CameraNotFound => "Creative camera not found",
            ReducerError::ConsistencyFault => "Catalog data changed after placement",
        }
    }
}

} // verus!
