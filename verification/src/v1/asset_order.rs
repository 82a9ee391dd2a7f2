//! The operators `<`, `<=`, `>` and `>=` on assets.

use crate::rel::Rel;
use crate::v1::multiasset::MultiAsset;
use core::cmp::Ordering;
use vstd::prelude::*;

verus! {

/// The outcome of a comparison in the terms of the standard library.
pub open spec fn rel_ordering(rel: Rel) -> Ordering {
    match rel {
        Rel::Less => Ordering::Less,
        Rel::Equal => Ordering::Equal,
        Rel::Greater => Ordering::Greater,
    }
}

impl PartialOrd for MultiAsset {
    /// The total order of assets: fungibles before non-fungibles, then by
    /// identifier, then by amount or instance.
    fn partial_cmp(&self, other: &MultiAsset) -> (r: Option<Ordering>) {
        Some(
            match self.compare(other) {
                Rel::Less => Ordering::Less,
                Rel::Equal => Ordering::Equal,
                Rel::Greater => Ordering::Greater,
            },
        )
    }
}

/// Two values compare as their views do in the total order.
impl vstd::std_specs::cmp::PartialOrdSpecImpl for MultiAsset {
    open spec fn obeys_partial_cmp_spec() -> bool {
        true
    }

    open spec fn partial_cmp_spec(&self, other: &MultiAsset) -> Option<Ordering> {
        Some(rel_ordering(self@.rel(other@)))
    }
}

} // verus!
