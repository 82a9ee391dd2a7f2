//! The single steps of a location path, and the identifiers they carry.

use crate::bytes::{
    bytes_rel, bytes_to_vec, compare_bytes, lemma_array_rel_total_order,
    lemma_bytes_rel_total_order,
};
use crate::rel::{compare_u128, compare_u32, compare_u64, int_rel, order_laws, Rel};
use vstd::prelude::*;

verus! {

/// A global identifier of an account-bearing consensus system.
#[derive(Debug)]
pub enum NetworkId {
    /// Unidentified/any.
    Any,
    /// Some named network.
    Named(Vec<u8>),
    /// The Polkadot relay chain.
    Polkadot,
    /// Kusama.
    Kusama,
}

/// The mathematical value of a [`NetworkId`].
pub enum NetworkIdView {
    Any,
    Named(Seq<u8>),
    Polkadot,
    Kusama,
}

impl View for NetworkId {
    type V = NetworkIdView;

    open spec fn view(&self) -> NetworkIdView {
        match self {
            NetworkId::Any => NetworkIdView::Any,
            NetworkId::Named(name) => NetworkIdView::Named(name@),
            NetworkId::Polkadot => NetworkIdView::Polkadot,
            NetworkId::Kusama => NetworkIdView::Kusama,
        }
    }
}

impl NetworkIdView {
    /// The position of the variant in the order of variants.
    pub open spec fn rank(self) -> int {
        match self {
            NetworkIdView::Any => 0,
            NetworkIdView::Named(_) => 1,
            NetworkIdView::Polkadot => 2,
            NetworkIdView::Kusama => 3,
        }
    }

    /// The total order: by variant, then by name.
    pub open spec fn rel(self, other: NetworkIdView) -> Rel {
        match (self, other) {
            (NetworkIdView::Named(a), NetworkIdView::Named(b)) => bytes_rel(a, b),
            _ => int_rel(self.rank(), other.rank()),
        }
    }
}

/// `NetworkIdView::rel` is a total order.
pub proof fn lemma_network_id_order(a: NetworkIdView, b: NetworkIdView, c: NetworkIdView)
    ensures
        order_laws(a, b, c, a.rel(b), b.rel(a), b.rel(c), a.rel(c)),
{
    let x = if a is Named { a->Named_0 } else { Seq::empty() };
    let y = if b is Named { b->Named_0 } else { Seq::empty() };
    let z = if c is Named { c->Named_0 } else { Seq::empty() };
    lemma_bytes_rel_total_order(x, y, z);
}

impl NetworkId {
    /// Compares two identifiers in the total order.
    pub fn compare(&self, other: &NetworkId) -> (r: Rel)
        ensures
            r == self@.rel(other@),
    {
        match (self, other) {
            (NetworkId::Named(a), NetworkId::Named(b)) => compare_bytes(
                a.as_slice(),
                b.as_slice(),
            ),
            _ => compare_u32(self.rank(), other.rank()),
        }
    }

    fn rank(&self) -> (r: u32)
        ensures
            r == self@.rank(),
    {
        match self {
            NetworkId::Any => 0,
            NetworkId::Named(_) => 1,
            NetworkId::Polkadot => 2,
            NetworkId::Kusama => 3,
        }
    }
}

impl PartialEq for NetworkId {
    fn eq(&self, other: &NetworkId) -> (r: bool) {
        proof {
            lemma_network_id_order(self@, other@, other@);
        }
        let r = self.compare(other);
        matches!(r, Rel::Equal)
    }
}

/// Two values are equal exactly when their views are.
impl vstd::std_specs::cmp::PartialEqSpecImpl for NetworkId {
    open spec fn obeys_eq_spec() -> bool {
        true
    }

    open spec fn eq_spec(&self, other: &NetworkId) -> bool {
        self@ == other@
    }
}

impl Clone for NetworkId {
    fn clone(&self) -> (r: NetworkId)
        ensures
            r@ == self@,
    {
        match self {
            NetworkId::Any => NetworkId::Any,
            NetworkId::Named(name) => NetworkId::Named(bytes_to_vec(name.as_slice())),
            NetworkId::Polkadot => NetworkId::Polkadot,
            NetworkId::Kusama => NetworkId::Kusama,
        }
    }
}

/// An identifier of a pluralistic body.
#[derive(Debug)]
pub enum BodyId {
    /// The only body in its context.
    Unit,
    /// A named body.
    Named(Vec<u8>),
    /// An indexed body.
    Index(u32),
    /// The unambiguous executive body.
    Executive,
    /// The unambiguous technical body.
    Technical,
    /// The unambiguous legislative body.
    Legislative,
    /// The unambiguous judicial body.
    Judicial,
}

/// The mathematical value of a [`BodyId`].
pub enum BodyIdView {
    Unit,
    Named(Seq<u8>),
    Index(u32),
    Executive,
    Technical,
    Legislative,
    Judicial,
}

impl View for BodyId {
    type V = BodyIdView;

    open spec fn view(&self) -> BodyIdView {
        match self {
            BodyId::Unit => BodyIdView::Unit,
            BodyId::Named(name) => BodyIdView::Named(name@),
            BodyId::Index(index) => BodyIdView::Index(*index),
            BodyId::Executive => BodyIdView::Executive,
            BodyId::Technical => BodyIdView::Technical,
            BodyId::Legislative => BodyIdView::Legislative,
            BodyId::Judicial => BodyIdView::Judicial,
        }
    }
}

impl BodyIdView {
    /// The position of the variant in the order of variants.
    pub open spec fn rank(self) -> int {
        match self {
            BodyIdView::Unit => 0,
            BodyIdView::Named(_) => 1,
            BodyIdView::Index(_) => 2,
            BodyIdView::Executive => 3,
            BodyIdView::Technical => 4,
            BodyIdView::Legislative => 5,
            BodyIdView::Judicial => 6,
        }
    }

    /// The total order: by variant, then by name or index.
    pub open spec fn rel(self, other: BodyIdView) -> Rel {
        match (self, other) {
            (BodyIdView::Named(a), BodyIdView::Named(b)) => bytes_rel(a, b),
            (BodyIdView::Index(a), BodyIdView::Index(b)) => int_rel(a as int, b as int),
            _ => int_rel(self.rank(), other.rank()),
        }
    }
}

/// `BodyIdView::rel` is a total order.
pub proof fn lemma_body_id_order(a: BodyIdView, b: BodyIdView, c: BodyIdView)
    ensures
        order_laws(a, b, c, a.rel(b), b.rel(a), b.rel(c), a.rel(c)),
{
    let x = if a is Named { a->Named_0 } else { Seq::empty() };
    let y = if b is Named { b->Named_0 } else { Seq::empty() };
    let z = if c is Named { c->Named_0 } else { Seq::empty() };
    lemma_bytes_rel_total_order(x, y, z);
}

impl BodyId {
    /// Compares two identifiers in the total order.
    pub fn compare(&self, other: &BodyId) -> (r: Rel)
        ensures
            r == self@.rel(other@),
    {
        match (self, other) {
            (BodyId::Named(a), BodyId::Named(b)) => compare_bytes(a.as_slice(), b.as_slice()),
            (BodyId::Index(a), BodyId::Index(b)) => compare_u32(*a, *b),
            _ => compare_u32(self.rank(), other.rank()),
        }
    }

    fn rank(&self) -> (r: u32)
        ensures
            r == self@.rank(),
    {
        match self {
            BodyId::Unit => 0,
            BodyId::Named(_) => 1,
            BodyId::Index(_) => 2,
            BodyId::Executive => 3,
            BodyId::Technical => 4,
            BodyId::Legislative => 5,
            BodyId::Judicial => 6,
        }
    }
}

impl PartialEq for BodyId {
    fn eq(&self, other: &BodyId) -> (r: bool) {
        proof {
            lemma_body_id_order(self@, other@, other@);
        }
        let r = self.compare(other);
        matches!(r, Rel::Equal)
    }
}

/// Two values are equal exactly when their views are.
impl vstd::std_specs::cmp::PartialEqSpecImpl for BodyId {
    open spec fn obeys_eq_spec() -> bool {
        true
    }

    open spec fn eq_spec(&self, other: &BodyId) -> bool {
        self@ == other@
    }
}

impl Clone for BodyId {
    fn clone(&self) -> (r: BodyId)
        ensures
            r@ == self@,
    {
        match self {
            BodyId::Unit => BodyId::Unit,
            BodyId::Named(name) => BodyId::Named(bytes_to_vec(name.as_slice())),
            BodyId::Index(index) => BodyId::Index(*index),
            BodyId::Executive => BodyId::Executive,
            BodyId::Technical => BodyId::Technical,
            BodyId::Legislative => BodyId::Legislative,
            BodyId::Judicial => BodyId::Judicial,
        }
    }
}

/// A part of a pluralistic body.
#[derive(Clone, Copy, Debug, PartialEq, Eq, Structural)]
pub enum BodyPart {
    /// The body's declaration, under whatever means it decides.
    Voice,
    /// A given number of members of the body.
    Members { count: u32 },
    /// A given number of members of the body, out of some larger caucus.
    Fraction { nom: u32, denom: u32 },
    /// No less than the given proportion of members of the body.
    AtLeastProportion { nom: u32, denom: u32 },
    /// More than than the given proportion of members of the body.
    MoreThanProportion { nom: u32, denom: u32 },
}

impl BodyPart {
    /// Whether the part stands for a strict majority (more than half) of the
    /// body. A plain voice or member count never does; "at least" and exact
    /// fractions do when twice the numerator exceeds the denominator; "more
    /// than" a proportion does already when twice the numerator reaches it.
    pub open spec fn spec_is_majority(self) -> bool {
        match self {
            BodyPart::Fraction { nom, denom } => nom * 2 > denom,
            BodyPart::AtLeastProportion { nom, denom } => nom * 2 > denom,
            BodyPart::MoreThanProportion { nom, denom } => nom * 2 >= denom,
            _ => false,
        }
    }

    /// Returns `true` if the part represents a strict majority (> 50%) of the
    /// body in question. The doubling is exact: it is carried out in 64 bits.
    pub fn is_majority(&self) -> (r: bool)
        ensures
            r == self.spec_is_majority(),
    {
        match self {
            BodyPart::Fraction { nom, denom } => (*nom as u64) * 2 > *denom as u64,
            BodyPart::AtLeastProportion { nom, denom } => (*nom as u64) * 2 > *denom as u64,
            BodyPart::MoreThanProportion { nom, denom } => (*nom as u64) * 2 >= *denom as u64,
            _ => false,
        }
    }

    /// The position of the variant in the order of variants.
    pub open spec fn rank(self) -> int {
        match self {
            BodyPart::Voice => 0,
            BodyPart::Members { .. } => 1,
            BodyPart::Fraction { .. } => 2,
            BodyPart::AtLeastProportion { .. } => 3,
            BodyPart::MoreThanProportion { .. } => 4,
        }
    }

    /// The first number a variant carries, `0` where it carries none.
    pub open spec fn first(self) -> int {
        match self {
            BodyPart::Voice => 0,
            BodyPart::Members { count } => count as int,
            BodyPart::Fraction { nom, .. } => nom as int,
            BodyPart::AtLeastProportion { nom, .. } => nom as int,
            BodyPart::MoreThanProportion { nom, .. } => nom as int,
        }
    }

    /// The second number a variant carries, `0` where it carries none.
    pub open spec fn second(self) -> int {
        match self {
            BodyPart::Fraction { denom, .. } => denom as int,
            BodyPart::AtLeastProportion { denom, .. } => denom as int,
            BodyPart::MoreThanProportion { denom, .. } => denom as int,
            _ => 0,
        }
    }

    /// The total order: by variant, then by the numbers in the order written.
    pub open spec fn rel(self, other: BodyPart) -> Rel {
        int_rel(self.rank(), other.rank()).followed_by(
            int_rel(self.first(), other.first()).followed_by(int_rel(self.second(), other.second())),
        )
    }

    fn parts(&self) -> (r: (u32, u32, u32))
        ensures
            r.0 == self.rank(),
            r.1 == self.first(),
            r.2 == self.second(),
    {
        match self {
            BodyPart::Voice => (0, 0, 0),
            BodyPart::Members { count } => (1, *count, 0),
            BodyPart::Fraction { nom, denom } => (2, *nom, *denom),
            BodyPart::AtLeastProportion { nom, denom } => (3, *nom, *denom),
            BodyPart::MoreThanProportion { nom, denom } => (4, *nom, *denom),
        }
    }

    /// Compares two parts in the total order.
    pub fn compare(&self, other: &BodyPart) -> (r: Rel)
        ensures
            r == self.rel(*other),
    {
        let a = self.parts();
        let b = other.parts();
        match compare_u32(a.0, b.0) {
            Rel::Equal => match compare_u32(a.1, b.1) {
                Rel::Equal => compare_u32(a.2, b.2),
                r => r,
            },
            r => r,
        }
    }
}

/// `BodyPart::rel` is a total order.
pub proof fn lemma_body_part_order(a: BodyPart, b: BodyPart, c: BodyPart)
    ensures
        order_laws(a, b, c, a.rel(b), b.rel(a), b.rel(c), a.rel(c)),
{
}

/// A single item in a path to describe the relative location of a consensus
/// system. Each item assumes a pre-existing location as its context and is
/// defined in terms of it.
#[derive(Debug)]
#[allow(inconsistent_fields)]
pub enum Junction {
    /// The consensus system of which the context is a member and state-wise
    /// super-set. This item is not a sub-consensus item.
    Parent,
    /// An indexed parachain belonging to and operated by the context.
    Parachain(u32),
    /// A 32-byte identifier for an account of a specific network.
    AccountId32 { network: NetworkId, id: [u8; 32] },
    /// An 8-byte index for an account of a specific network.
    AccountIndex64 { network: NetworkId, index: u64 },
    /// A 20-byte identifier for an account of a specific network.
    AccountKey20 { network: NetworkId, key: [u8; 20] },
    /// An instanced, indexed pallet that forms a constituent part of the
    /// context.
    PalletInstance(u8),
    /// A non-descript index within the context location.
    GeneralIndex(u128),
    /// A nondescript datum acting as a key within the context location.
    GeneralKey(Vec<u8>),
    /// The unambiguous child.
    OnlyChild,
    /// A pluralistic body existing within consensus.
    Plurality { id: BodyId, part: BodyPart },
}

/// The mathematical value of a junction, of either generation of the
/// format. The later generation has no `Parent` junction.
#[allow(inconsistent_fields)]
pub enum JunctionView {
    Parent,
    Parachain(u32),
    AccountId32 { network: NetworkIdView, id: [u8; 32] },
    AccountIndex64 { network: NetworkIdView, index: u64 },
    AccountKey20 { network: NetworkIdView, key: [u8; 20] },
    PalletInstance(u8),
    GeneralIndex(u128),
    GeneralKey(Seq<u8>),
    OnlyChild,
    Plurality { id: BodyIdView, part: BodyPart },
}

impl View for Junction {
    type V = JunctionView;

    open spec fn view(&self) -> JunctionView {
        match self {
            Junction::Parent => JunctionView::Parent,
            Junction::Parachain(index) => JunctionView::Parachain(*index),
            Junction::AccountId32 { network, id } => JunctionView::AccountId32 {
                network: network@,
                id: *id,
            },
            Junction::AccountIndex64 { network, index } => JunctionView::AccountIndex64 {
                network: network@,
                index: *index,
            },
            Junction::AccountKey20 { network, key } => JunctionView::AccountKey20 {
                network: network@,
                key: *key,
            },
            Junction::PalletInstance(index) => JunctionView::PalletInstance(*index),
            Junction::GeneralIndex(index) => JunctionView::GeneralIndex(*index),
            Junction::GeneralKey(key) => JunctionView::GeneralKey(key@),
            Junction::OnlyChild => JunctionView::OnlyChild,
            Junction::Plurality { id, part } => JunctionView::Plurality { id: id@, part: *part },
        }
    }
}

impl JunctionView {
    /// Whether this is the step up to the parent.
    pub open spec fn is_parent(self) -> bool {
        self is Parent
    }

    /// The position of the variant in the order of variants.
    pub open spec fn rank(self) -> int {
        match self {
            JunctionView::Parent => 0,
            JunctionView::Parachain(_) => 1,
            JunctionView::AccountId32 { .. } => 2,
            JunctionView::AccountIndex64 { .. } => 3,
            JunctionView::AccountKey20 { .. } => 4,
            JunctionView::PalletInstance(_) => 5,
            JunctionView::GeneralIndex(_) => 6,
            JunctionView::GeneralKey(_) => 7,
            JunctionView::OnlyChild => 8,
            JunctionView::Plurality { .. } => 9,
        }
    }

    /// The total order: by variant, then by the fields in the order written.
    pub open spec fn rel(self, other: JunctionView) -> Rel {
        match (self, other) {
            (JunctionView::Parachain(a), JunctionView::Parachain(b)) => int_rel(
                a as int,
                b as int,
            ),
            (
                JunctionView::AccountId32 { network: an, id: a },
                JunctionView::AccountId32 { network: bn, id: b },
            ) => an.rel(bn).followed_by(bytes_rel(a@, b@)),
            (
                JunctionView::AccountIndex64 { network: an, index: a },
                JunctionView::AccountIndex64 { network: bn, index: b },
            ) => an.rel(bn).followed_by(int_rel(a as int, b as int)),
            (
                JunctionView::AccountKey20 { network: an, key: a },
                JunctionView::AccountKey20 { network: bn, key: b },
            ) => an.rel(bn).followed_by(bytes_rel(a@, b@)),
            (JunctionView::PalletInstance(a), JunctionView::PalletInstance(b)) => int_rel(
                a as int,
                b as int,
            ),
            (JunctionView::GeneralIndex(a), JunctionView::GeneralIndex(b)) => int_rel(
                a as int,
                b as int,
            ),
            (JunctionView::GeneralKey(a), JunctionView::GeneralKey(b)) => bytes_rel(a, b),
            (
                JunctionView::Plurality { id: ai, part: ap },
                JunctionView::Plurality { id: bi, part: bp },
            ) => ai.rel(bi).followed_by(ap.rel(bp)),
            _ => int_rel(self.rank(), other.rank()),
        }
    }
}

/// `JunctionView::rel` is a total order.
pub proof fn lemma_junction_order(a: JunctionView, b: JunctionView, c: JunctionView)
    ensures
        order_laws(a, b, c, a.rel(b), b.rel(a), b.rel(c), a.rel(c)),
{
    if a.rank() == b.rank() || b.rank() == c.rank() || a.rank() == c.rank() {
        match (a, b, c) {
            (
                JunctionView::AccountId32 { network: an, id: ai },
                JunctionView::AccountId32 { network: bn, id: bi },
                JunctionView::AccountId32 { network: cn, id: ci },
            ) => {
                lemma_network_id_order(an, bn, cn);
                lemma_array_rel_total_order(ai, bi, ci);
            },
            (
                JunctionView::AccountIndex64 { network: an, .. },
                JunctionView::AccountIndex64 { network: bn, .. },
                JunctionView::AccountIndex64 { network: cn, .. },
            ) => {
                lemma_network_id_order(an, bn, cn);
            },
            (
                JunctionView::AccountKey20 { network: an, key: ai },
                JunctionView::AccountKey20 { network: bn, key: bi },
                JunctionView::AccountKey20 { network: cn, key: ci },
            ) => {
                lemma_network_id_order(an, bn, cn);
                lemma_array_rel_total_order(ai, bi, ci);
            },
            (
                JunctionView::GeneralKey(x),
                JunctionView::GeneralKey(y),
                JunctionView::GeneralKey(z),
            ) => {
                lemma_bytes_rel_total_order(x, y, z);
            },
            (
                JunctionView::Plurality { id: ai, part: ap },
                JunctionView::Plurality { id: bi, part: bp },
                JunctionView::Plurality { id: ci, part: cp },
            ) => {
                lemma_body_id_order(ai, bi, ci);
                lemma_body_part_order(ap, bp, cp);
            },
            _ => {
                lemma_junction_order_pair(a, b);
                lemma_junction_order_pair(b, c);
                lemma_junction_order_pair(a, c);
            },
        }
    }
}

/// The laws of `JunctionView::rel` that speak of two values only.
proof fn lemma_junction_order_pair(a: JunctionView, b: JunctionView)
    ensures
        a.rel(b) == Rel::Equal <==> a == b,
        b.rel(a) == a.rel(b).flip(),
{
    match (a, b) {
        (
            JunctionView::AccountId32 { network: an, id: ai },
            JunctionView::AccountId32 { network: bn, id: bi },
        ) => {
            lemma_network_id_order(an, bn, bn);
            lemma_array_rel_total_order(ai, bi, bi);
        },
        (
            JunctionView::AccountIndex64 { network: an, .. },
            JunctionView::AccountIndex64 { network: bn, .. },
        ) => {
            lemma_network_id_order(an, bn, bn);
        },
        (
            JunctionView::AccountKey20 { network: an, key: ai },
            JunctionView::AccountKey20 { network: bn, key: bi },
        ) => {
            lemma_network_id_order(an, bn, bn);
            lemma_array_rel_total_order(ai, bi, bi);
        },
        (JunctionView::GeneralKey(x), JunctionView::GeneralKey(y)) => {
            lemma_bytes_rel_total_order(x, y, y);
        },
        (
            JunctionView::Plurality { id: ai, part: ap },
            JunctionView::Plurality { id: bi, part: bp },
        ) => {
            lemma_body_id_order(ai, bi, bi);
            lemma_body_part_order(ap, bp, bp);
        },
        _ => {},
    }
}

impl Junction {
    /// Returns true if this junction is a `Parent` item.
    pub fn is_parent(&self) -> (r: bool)
        ensures
            r == self@.is_parent(),
    {
        match self {
            Junction::Parent => true,
            _ => false,
        }
    }

    /// Returns true if this junction can be considered an interior part of
    /// its context: every junction but `Parent`.
    pub fn is_interior(&self) -> (r: bool)
        ensures
            r == !self@.is_parent(),
    {
        match self {
            Junction::Parent => false,
            Junction::Parachain(..)
            | Junction::AccountId32 { .. }
            | Junction::AccountIndex64 { .. }
            | Junction::AccountKey20 { .. }
            | Junction::PalletInstance(..)
            | Junction::GeneralIndex(..)
            | Junction::GeneralKey(..)
            | Junction::OnlyChild
            | Junction::Plurality { .. } => true,
        }
    }

    fn rank(&self) -> (r: u32)
        ensures
            r == self@.rank(),
    {
        match self {
            Junction::Parent => 0,
            Junction::Parachain(_) => 1,
            Junction::AccountId32 { .. } => 2,
            Junction::AccountIndex64 { .. } => 3,
            Junction::AccountKey20 { .. } => 4,
            Junction::PalletInstance(_) => 5,
            Junction::GeneralIndex(_) => 6,
            Junction::GeneralKey(_) => 7,
            Junction::OnlyChild => 8,
            Junction::Plurality { .. } => 9,
        }
    }

    /// Compares two junctions in the total order.
    pub fn compare(&self, other: &Junction) -> (r: Rel)
        ensures
            r == self@.rel(other@),
    {
        match (self, other) {
            (Junction::Parachain(a), Junction::Parachain(b)) => compare_u32(*a, *b),
            (
                Junction::AccountId32 { network: an, id: a },
                Junction::AccountId32 { network: bn, id: b },
            ) => match an.compare(bn) {
                Rel::Equal => compare_bytes(a.as_slice(), b.as_slice()),
                r => r,
            },
            (
                Junction::AccountIndex64 { network: an, index: a },
                Junction::AccountIndex64 { network: bn, index: b },
            ) => match an.compare(bn) {
                Rel::Equal => compare_u64(*a, *b),
                r => r,
            },
            (
                Junction::AccountKey20 { network: an, key: a },
                Junction::AccountKey20 { network: bn, key: b },
            ) => match an.compare(bn) {
                Rel::Equal => compare_bytes(a.as_slice(), b.as_slice()),
                r => r,
            },
            (Junction::PalletInstance(a), Junction::PalletInstance(b)) => compare_u32(
                *a as u32,
                *b as u32,
            ),
            (Junction::GeneralIndex(a), Junction::GeneralIndex(b)) => compare_u128(*a, *b),
            (Junction::GeneralKey(a), Junction::GeneralKey(b)) => compare_bytes(
                a.as_slice(),
                b.as_slice(),
            ),
            (
                Junction::Plurality { id: ai, part: ap },
                Junction::Plurality { id: bi, part: bp },
            ) => match ai.compare(bi) {
                Rel::Equal => ap.compare(bp),
                r => r,
            },
            _ => compare_u32(self.rank(), other.rank()),
        }
    }
}

impl PartialEq for Junction {
    fn eq(&self, other: &Junction) -> (r: bool) {
        proof {
            lemma_junction_order(self@, other@, other@);
        }
        let r = self.compare(other);
        matches!(r, Rel::Equal)
    }
}

/// Two values are equal exactly when their views are.
impl vstd::std_specs::cmp::PartialEqSpecImpl for Junction {
    open spec fn obeys_eq_spec() -> bool {
        true
    }

    open spec fn eq_spec(&self, other: &Junction) -> bool {
        self@ == other@
    }
}

impl Clone for Junction {
    fn clone(&self) -> (r: Junction)
        ensures
            r@ == self@,
    {
        match self {
            Junction::Parent => Junction::Parent,
            Junction::Parachain(index) => Junction::Parachain(*index),
            Junction::AccountId32 { network, id } => Junction::AccountId32 {
                network: network.clone(),
                id: *id,
            },
            Junction::AccountIndex64 { network, index } => Junction::AccountIndex64 {
                network: network.clone(),
                index: *index,
            },
            Junction::AccountKey20 { network, key } => Junction::AccountKey20 {
                network: network.clone(),
                key: *key,
            },
            Junction::PalletInstance(index) => Junction::PalletInstance(*index),
            Junction::GeneralIndex(index) => Junction::GeneralIndex(*index),
            Junction::GeneralKey(key) => Junction::GeneralKey(bytes_to_vec(key.as_slice())),
            Junction::OnlyChild => Junction::OnlyChild,
            Junction::Plurality { id, part } => Junction::Plurality {
                id: id.clone(),
                part: *part,
            },
        }
    }
}


impl From<crate::v1::junction::Junction> for Junction {
    /// Every junction of the second generation has its equal here.
    fn from(v1: crate::v1::junction::Junction) -> (r: Junction)
        ensures
            r@ == v1@,
    {
        match v1 {
            crate::v1::junction::Junction::Parachain(id) => Junction::Parachain(id),
            crate::v1::junction::Junction::AccountId32 { network, id } => Junction::AccountId32 {
                network,
                id,
            },
            crate::v1::junction::Junction::AccountIndex64 { network, index } => {
                Junction::AccountIndex64 { network, index }
            },
            crate::v1::junction::Junction::AccountKey20 { network, key } => {
                Junction::AccountKey20 { network, key }
            },
            crate::v1::junction::Junction::PalletInstance(index) => Junction::PalletInstance(index),
            crate::v1::junction::Junction::GeneralIndex(index) => Junction::GeneralIndex(index),
            crate::v1::junction::Junction::GeneralKey(key) => Junction::GeneralKey(key),
            crate::v1::junction::Junction::OnlyChild => Junction::OnlyChild,
            crate::v1::junction::Junction::Plurality { id, part } => Junction::Plurality {
                id,
                part,
            },
        }
    }
}

/// The conversion as a `spec` function: the fields are moved as they are.
impl vstd::std_specs::convert::FromSpecImpl<crate::v1::junction::Junction> for Junction {
    open spec fn obeys_from_spec() -> bool {
        true
    }

    open spec fn from_spec(v1: crate::v1::junction::Junction) -> Junction {
        match v1 {
            crate::v1::junction::Junction::Parachain(id) => Junction::Parachain(id),
            crate::v1::junction::Junction::AccountId32 { network, id } => Junction::AccountId32 {
                network,
                id,
            },
            crate::v1::junction::Junction::AccountIndex64 { network, index } => {
                Junction::AccountIndex64 { network, index }
            },
            crate::v1::junction::Junction::AccountKey20 { network, key } => {
                Junction::AccountKey20 { network, key }
            },
            crate::v1::junction::Junction::PalletInstance(index) => Junction::PalletInstance(index),
            crate::v1::junction::Junction::GeneralIndex(index) => Junction::GeneralIndex(index),
            crate::v1::junction::Junction::GeneralKey(key) => Junction::GeneralKey(key),
            crate::v1::junction::Junction::OnlyChild => Junction::OnlyChild,
            crate::v1::junction::Junction::Plurality { id, part } => Junction::Plurality {
                id,
                part,
            },
        }
    }
}

} // verus!
