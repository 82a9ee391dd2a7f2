//! The steps of the interior of a location.

use crate::bytes::{bytes_to_vec, compare_bytes};
use crate::rel::{compare_u128, compare_u32, compare_u64, Rel};
use crate::v0::junction::{
    lemma_junction_order, BodyId, BodyPart, Junction as Junction0, JunctionView, NetworkId,
};
use vstd::prelude::*;

verus! {

/// A single item in a path to describe the relative location of a consensus
/// system. Each item assumes a pre-existing location as its context and is
/// defined in terms of it. There is no step to the parent among them: a
/// location counts its ancestors apart from its interior.
#[derive(Debug)]
#[allow(inconsistent_fields)]
pub enum Junction {
    /// An indexed parachain belonging to and operated by the context.
    Parachain(u32),
    /// A 32-byte identifier for an account of a specific network.
    AccountId32 { network: NetworkId, id: [u8; 32] },
    /// An 8-byte index for an account of a specific network.
    AccountIndex64 { network: NetworkId, index: u64 },
    /// A 20-byte identifier for an account of a specific network.
    AccountKey20 { network: NetworkId, key: [u8; 20] },
    /// An instanced, indexed pallet that forms a constituent part of the
    /// context.
    PalletInstance(u8),
    /// A non-descript index within the context location.
    GeneralIndex(u128),
    /// A nondescript datum acting as a key within the context location.
    GeneralKey(Vec<u8>),
    /// The unambiguous child.
    OnlyChild,
    /// A pluralistic body existing within consensus.
    Plurality { id: BodyId, part: BodyPart },
}

impl View for Junction {
    type V = JunctionView;

    open spec fn view(&self) -> JunctionView {
        match self {
            Junction::Parachain(index) => JunctionView::Parachain(*index),
            Junction::AccountId32 { network, id } => JunctionView::AccountId32 {
                network: network@,
                id: *id,
            },
            Junction::AccountIndex64 { network, index } => JunctionView::AccountIndex64 {
                network: network@,
                index: *index,
            },
            Junction::AccountKey20 { network, key } => JunctionView::AccountKey20 {
                network: network@,
                key: *key,
            },
            Junction::PalletInstance(index) => JunctionView::PalletInstance(*index),
            Junction::GeneralIndex(index) => JunctionView::GeneralIndex(*index),
            Junction::GeneralKey(key) => JunctionView::GeneralKey(key@),
            Junction::OnlyChild => JunctionView::OnlyChild,
            Junction::Plurality { id, part } => JunctionView::Plurality { id: id@, part: *part },
        }
    }
}

impl Junction {
    /// No interior junction is a step to the parent.
    pub proof fn lemma_is_interior(self)
        ensures
            !self@.is_parent(),
    {
    }

    fn rank(&self) -> (r: u32)
        ensures
            r == self@.rank(),
    {
        match self {
            Junction::Parachain(_) => 1,
            Junction::AccountId32 { .. } => 2,
            Junction::AccountIndex64 { .. } => 3,
            Junction::AccountKey20 { .. } => 4,
            Junction::PalletInstance(_) => 5,
            Junction::GeneralIndex(_) => 6,
            Junction::GeneralKey(_) => 7,
            Junction::OnlyChild => 8,
            Junction::Plurality { .. } => 9,
        }
    }

    /// Compares two junctions in the total order: by variant, then by the
    /// fields in the order written.
    pub fn compare(&self, other: &Junction) -> (r: Rel)
        ensures
            r == self@.rel(other@),
    {
        match (self, other) {
            (Junction::Parachain(a), Junction::Parachain(b)) => compare_u32(*a, *b),
            (
                Junction::AccountId32 { network: an, id: a },
                Junction::AccountId32 { network: bn, id: b },
            ) => match an.compare(bn) {
                Rel::Equal => compare_bytes(a.as_slice(), b.as_slice()),
                r => r,
            },
            (
                Junction::AccountIndex64 { network: an, index: a },
                Junction::AccountIndex64 { network: bn, index: b },
            ) => match an.compare(bn) {
                Rel::Equal => compare_u64(*a, *b),
                r => r,
            },
            (
                Junction::AccountKey20 { network: an, key: a },
                Junction::AccountKey20 { network: bn, key: b },
            ) => match an.compare(bn) {
                Rel::Equal => compare_bytes(a.as_slice(), b.as_slice()),
                r => r,
            },
            (Junction::PalletInstance(a), Junction::PalletInstance(b)) => compare_u32(
                *a as u32,
                *b as u32,
            ),
            (Junction::GeneralIndex(a), Junction::GeneralIndex(b)) => compare_u128(*a, *b),
            (Junction::GeneralKey(a), Junction::GeneralKey(b)) => compare_bytes(
                a.as_slice(),
                b.as_slice(),
            ),
            (
                Junction::Plurality { id: ai, part: ap },
                Junction::Plurality { id: bi, part: bp },
            ) => match ai.compare(bi) {
                Rel::Equal => ap.compare(bp),
                r => r,
            },
            _ => compare_u32(self.rank(), other.rank()),
        }
    }
}

impl PartialEq for Junction {
    fn eq(&self, other: &Junction) -> (r: bool) {
        proof {
            lemma_junction_order(self@, other@, other@);
        }
        let r = self.compare(other);
        matches!(r, Rel::Equal)
    }
}

/// Two values are equal exactly when their views are.
impl vstd::std_specs::cmp::PartialEqSpecImpl for Junction {
    open spec fn obeys_eq_spec() -> bool {
        true
    }

    open spec fn eq_spec(&self, other: &Junction) -> bool {
        self@ == other@
    }
}

impl Clone for Junction {
    fn clone(&self) -> (r: Junction)
        ensures
            r@ == self@,
    {
        match self {
            Junction::Parachain(index) => Junction::Parachain(*index),
            Junction::AccountId32 { network, id } => Junction::AccountId32 {
                network: network.clone(),
                id: *id,
            },
            Junction::AccountIndex64 { network, index } => Junction::AccountIndex64 {
                network: network.clone(),
                index: *index,
            },
            Junction::AccountKey20 { network, key } => Junction::AccountKey20 {
                network: network.clone(),
                key: *key,
            },
            Junction::PalletInstance(index) => Junction::PalletInstance(*index),
            Junction::GeneralIndex(index) => Junction::GeneralIndex(*index),
            Junction::GeneralKey(key) => Junction::GeneralKey(bytes_to_vec(key.as_slice())),
            Junction::OnlyChild => Junction::OnlyChild,
            Junction::Plurality { id, part } => Junction::Plurality {
                id: id.clone(),
                part: *part,
            },
        }
    }
}

impl TryFrom<Junction0> for Junction {
    type Error = ();

    /// Every junction of the first generation but `Parent` has its equal
    /// here; `Parent` has none.
    fn try_from(old: Junction0) -> (r: Result<Junction, ()>)
        ensures
            old@.is_parent() <==> r is Err,
            r matches Ok(new) ==> new@ == old@,
    {
        match old {
            Junction0::Parent => Err(()),
            Junction0::Parachain(id) => Ok(Junction::Parachain(id)),
            Junction0::AccountId32 { network, id } => Ok(Junction::AccountId32 { network, id }),
            Junction0::AccountIndex64 { network, index } => Ok(
                Junction::AccountIndex64 { network, index },
            ),
            Junction0::AccountKey20 { network, key } => Ok(Junction::AccountKey20 { network, key }),
            Junction0::PalletInstance(index) => Ok(Junction::PalletInstance(index)),
            Junction0::GeneralIndex(index) => Ok(Junction::GeneralIndex(index)),
            Junction0::GeneralKey(key) => Ok(Junction::GeneralKey(key)),
            Junction0::OnlyChild => Ok(Junction::OnlyChild),
            Junction0::Plurality { id, part } => Ok(Junction::Plurality { id, part }),
        }
    }
}

/// The conversion as a `spec` function: the fields are moved as they are.
impl vstd::std_specs::convert::TryFromSpecImpl<Junction0> for Junction {
    open spec fn obeys_try_from_spec() -> bool {
        true
    }

    open spec fn try_from_spec(old: Junction0) -> Result<Junction, ()> {
        match old {
            Junction0::Parent => Err(()),
            Junction0::Parachain(id) => Ok(Junction::Parachain(id)),
            Junction0::AccountId32 { network, id } => Ok(Junction::AccountId32 { network, id }),
            Junction0::AccountIndex64 { network, index } => Ok(
                Junction::AccountIndex64 { network, index },
            ),
            Junction0::AccountKey20 { network, key } => Ok(Junction::AccountKey20 { network, key }),
            Junction0::PalletInstance(index) => Ok(Junction::PalletInstance(index)),
            Junction0::GeneralIndex(index) => Ok(Junction::GeneralIndex(index)),
            Junction0::GeneralKey(key) => Ok(Junction::GeneralKey(key)),
            Junction0::OnlyChild => Ok(Junction::OnlyChild),
            Junction0::Plurality { id, part } => Ok(Junction::Plurality { id, part }),
        }
    }
}

} // verus!
