//! Loot unlocking: weighted lotteries over crate series, series entries,
//! particle effects and stat trackers, composing `Item` values, with the
//! localized text they are shown in.
use vstd::prelude::*;

pub mod catalog;
pub mod entries;
pub mod item;
pub mod lang;
pub mod lang_file;
pub mod series;
pub mod series_entry;
pub mod startup;
pub mod unlock;
pub mod weighted;

verus! {

/// Why a point of the editor could not be resolved.
pub enum PointResolutionError {
    NoSuchPoint,
    NoSuchReferent,
    PropagatedError,
    Other,
}

} // verus!
