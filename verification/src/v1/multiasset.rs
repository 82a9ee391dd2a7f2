//! Asset data structures.
//!
//! - [`MultiAsset`]: a description of a single asset, either an instance of
//!   a non-fungible or some amount of a fungible.
//! - [`MultiAssets`]: a collection of `MultiAsset`s, sorted with fungibles
//!   first.
//! - [`WildMultiAsset`]: a single asset wildcard, either all assets or all
//!   assets of a specific kind.
//! - [`MultiAssetFilter`]: either of the two, to select part of a holding.

use crate::bytes::{
    bytes_rel, bytes_to_vec, compare_bytes, lemma_array_rel_total_order,
    lemma_bytes_rel_total_order,
};
use crate::rel::{compare_u128, compare_u32, int_rel, order_laws, Rel};
use crate::seqs::{lemma_views_push, lemma_views_subrange, lemma_views_update, views};
use crate::v1::multilocation::{lemma_location_order, MultiLocation, MultiLocationView};
use crate::v1::normal::{
    absorb, insert, insert_index, is_canonical, is_normalized,
    lemma_adjacent_in_order, lemma_insert_index, lemma_insert_sorted,
    lemma_normalize_is_normalized, lemma_sort_of_sorted, may_follow, merged, normalize,
    saturating_sum, sort, sorted,
};
use vstd::prelude::*;

verus! {

/// A general identifier for an instance of a non-fungible asset class.
#[derive(Debug)]
pub enum AssetInstance {
    /// Undefined - used if the non-fungible asset class has only one
    /// instance.
    Undefined,
    /// A compact index.
    Index(u128),
    /// A 4-byte fixed-length datum.
    Array4([u8; 4]),
    /// An 8-byte fixed-length datum.
    Array8([u8; 8]),
    /// A 16-byte fixed-length datum.
    Array16([u8; 16]),
    /// A 32-byte fixed-length datum.
    Array32([u8; 32]),
    /// An arbitrary piece of data. Use only when necessary.
    Blob(Vec<u8>),
}

/// The mathematical value of an [`AssetInstance`].
pub enum AssetInstanceView {
    Undefined,
    Index(u128),
    Array4([u8; 4]),
    Array8([u8; 8]),
    Array16([u8; 16]),
    Array32([u8; 32]),
    Blob(Seq<u8>),
}

impl View for AssetInstance {
    type V = AssetInstanceView;

    open spec fn view(&self) -> AssetInstanceView {
        match self {
            AssetInstance::Undefined => AssetInstanceView::Undefined,
            AssetInstance::Index(index) => AssetInstanceView::Index(*index),
            AssetInstance::Array4(data) => AssetInstanceView::Array4(*data),
            AssetInstance::Array8(data) => AssetInstanceView::Array8(*data),
            AssetInstance::Array16(data) => AssetInstanceView::Array16(*data),
            AssetInstance::Array32(data) => AssetInstanceView::Array32(*data),
            AssetInstance::Blob(data) => AssetInstanceView::Blob(data@),
        }
    }
}

impl AssetInstanceView {
    /// The position of the variant in the order of variants.
    pub open spec fn rank(self) -> int {
        match self {
            AssetInstanceView::Undefined => 0,
            AssetInstanceView::Index(_) => 1,
            AssetInstanceView::Array4(_) => 2,
            AssetInstanceView::Array8(_) => 3,
            AssetInstanceView::Array16(_) => 4,
            AssetInstanceView::Array32(_) => 5,
            AssetInstanceView::Blob(_) => 6,
        }
    }

    /// The bytes that the variant carries, none where it carries a number
    /// or nothing.
    pub open spec fn data(self) -> Seq<u8> {
        match self {
            AssetInstanceView::Undefined => Seq::empty(),
            AssetInstanceView::Index(_) => Seq::empty(),
            AssetInstanceView::Array4(data) => data@,
            AssetInstanceView::Array8(data) => data@,
            AssetInstanceView::Array16(data) => data@,
            AssetInstanceView::Array32(data) => data@,
            AssetInstanceView::Blob(data) => data,
        }
    }

    /// The total order: by variant, then by index or by bytes.
    pub open spec fn rel(self, other: AssetInstanceView) -> Rel {
        match (self, other) {
            (AssetInstanceView::Index(a), AssetInstanceView::Index(b)) => int_rel(
                a as int,
                b as int,
            ),
            _ => int_rel(self.rank(), other.rank()).followed_by(
                bytes_rel(self.data(), other.data()),
            ),
        }
    }
}

/// `AssetInstanceView::rel` is a total order.
pub proof fn lemma_asset_instance_order(
    a: AssetInstanceView,
    b: AssetInstanceView,
    c: AssetInstanceView,
)
    ensures
        order_laws(a, b, c, a.rel(b), b.rel(a), b.rel(c), a.rel(c)),
{
    lemma_bytes_rel_total_order(a.data(), b.data(), c.data());
    lemma_asset_instance_data(a, b);
    lemma_asset_instance_data(b, c);
    lemma_asset_instance_data(a, c);
}

/// Two instances of one variant that carry the same bytes are equal.
proof fn lemma_asset_instance_data(a: AssetInstanceView, b: AssetInstanceView)
    ensures
        a.rank() == b.rank() && a.data() == b.data() && !(a is Index) ==> a == b,
{
    match (a, b) {
        (AssetInstanceView::Array4(x), AssetInstanceView::Array4(y)) => {
            lemma_array_rel_total_order(x, y, y);
        },
        (AssetInstanceView::Array8(x), AssetInstanceView::Array8(y)) => {
            lemma_array_rel_total_order(x, y, y);
        },
        (AssetInstanceView::Array16(x), AssetInstanceView::Array16(y)) => {
            lemma_array_rel_total_order(x, y, y);
        },
        (AssetInstanceView::Array32(x), AssetInstanceView::Array32(y)) => {
            lemma_array_rel_total_order(x, y, y);
        },
        _ => {},
    }
}

impl AssetInstance {
    fn rank(&self) -> (r: u32)
        ensures
            r == self@.rank(),
    {
        match self {
            AssetInstance::Undefined => 0,
            AssetInstance::Index(_) => 1,
            AssetInstance::Array4(_) => 2,
            AssetInstance::Array8(_) => 3,
            AssetInstance::Array16(_) => 4,
            AssetInstance::Array32(_) => 5,
            AssetInstance::Blob(_) => 6,
        }
    }

    /// Compares two instances in the total order.
    pub fn compare(&self, other: &AssetInstance) -> (r: Rel)
        ensures
            r == self@.rel(other@),
    {
        match (self, other) {
            (AssetInstance::Index(a), AssetInstance::Index(b)) => compare_u128(*a, *b),
            (AssetInstance::Array4(a), AssetInstance::Array4(b)) => compare_bytes(
                a.as_slice(),
                b.as_slice(),
            ),
            (AssetInstance::Array8(a), AssetInstance::Array8(b)) => compare_bytes(
                a.as_slice(),
                b.as_slice(),
            ),
            (AssetInstance::Array16(a), AssetInstance::Array16(b)) => compare_bytes(
                a.as_slice(),
                b.as_slice(),
            ),
            (AssetInstance::Array32(a), AssetInstance::Array32(b)) => compare_bytes(
                a.as_slice(),
                b.as_slice(),
            ),
            (AssetInstance::Blob(a), AssetInstance::Blob(b)) => compare_bytes(
                a.as_slice(),
                b.as_slice(),
            ),
            _ => {
                proof {
                    lemma_bytes_rel_total_order(self@.data(), other@.data(), other@.data());
                }
                compare_u32(self.rank(), other.rank())
            },
        }
    }
}

impl PartialEq for AssetInstance {
    fn eq(&self, other: &AssetInstance) -> (r: bool) {
        proof {
            lemma_asset_instance_order(self@, other@, other@);
        }
        let r = self.compare(other);
        matches!(r, Rel::Equal)
    }
}

/// Two values are equal exactly when their views are.
impl vstd::std_specs::cmp::PartialEqSpecImpl for AssetInstance {
    open spec fn obeys_eq_spec() -> bool {
        true
    }

    open spec fn eq_spec(&self, other: &AssetInstance) -> bool {
        self@ == other@
    }
}

impl Clone for AssetInstance {
    fn clone(&self) -> (r: AssetInstance)
        ensures
            r@ == self@,
    {
        match self {
            AssetInstance::Undefined => AssetInstance::Undefined,
            AssetInstance::Index(index) => AssetInstance::Index(*index),
            AssetInstance::Array4(data) => AssetInstance::Array4(*data),
            AssetInstance::Array8(data) => AssetInstance::Array8(*data),
            AssetInstance::Array16(data) => AssetInstance::Array16(*data),
            AssetInstance::Array32(data) => AssetInstance::Array32(*data),
            AssetInstance::Blob(data) => AssetInstance::Blob(bytes_to_vec(data.as_slice())),
        }
    }
}

/// Classification of an asset being concrete or abstract.
#[derive(Debug)]
pub enum AssetId {
    /// A relative address: the asset is named by where it lives.
    Concrete(MultiLocation),
    /// A global name, the same in every context.
    Abstract(Vec<u8>),
}

/// The mathematical value of an [`AssetId`].
pub enum AssetIdView {
    Concrete(MultiLocationView),
    Abstract(Seq<u8>),
}

impl View for AssetId {
    type V = AssetIdView;

    open spec fn view(&self) -> AssetIdView {
        match self {
            AssetId::Concrete(location) => AssetIdView::Concrete(location@),
            AssetId::Abstract(name) => AssetIdView::Abstract(name@),
        }
    }
}

impl AssetIdView {
    /// The total order: concrete identifiers first, by location; then
    /// abstract ones, by name.
    #[verifier::opaque]
    pub open spec fn rel(self, other: AssetIdView) -> Rel {
        match (self, other) {
            (AssetIdView::Concrete(a), AssetIdView::Concrete(b)) => a.rel(b),
            (AssetIdView::Concrete(_), AssetIdView::Abstract(_)) => Rel::Less,
            (AssetIdView::Abstract(_), AssetIdView::Concrete(_)) => Rel::Greater,
            (AssetIdView::Abstract(a), AssetIdView::Abstract(b)) => bytes_rel(a, b),
        }
    }

    /// The identifier with `prefix` put before its location; an abstract
    /// identifier as it is. `None` where the location cannot take the
    /// prefix.
    pub open spec fn prepend(self, prefix: MultiLocationView) -> Option<AssetIdView> {
        match self {
            AssetIdView::Concrete(location) => match location.prepend(prefix) {
                Some(joined) => Some(AssetIdView::Concrete(joined)),
                None => None,
            },
            AssetIdView::Abstract(_) => Some(self),
        }
    }

    /// The identifier with its location as seen from `target`; an abstract
    /// identifier as it is. `None` where the location cannot be reanchored.
    pub open spec fn reanchor(
        self,
        target: MultiLocationView,
        ancestry: MultiLocationView,
    ) -> Option<AssetIdView> {
        match self {
            AssetIdView::Concrete(location) => match location.reanchor(target, ancestry) {
                Some(seen) => Some(AssetIdView::Concrete(seen)),
                None => None,
            },
            AssetIdView::Abstract(_) => Some(self),
        }
    }
}

/// `AssetIdView::rel` is a total order.
pub proof fn lemma_asset_id_order(a: AssetIdView, b: AssetIdView, c: AssetIdView)
    ensures
        order_laws(a, b, c, a.rel(b), b.rel(a), b.rel(c), a.rel(c)),
{
    reveal(AssetIdView::rel);
    let here = MultiLocationView::here();
    let la = if a is Concrete { a->Concrete_0 } else { here };
    let lb = if b is Concrete { b->Concrete_0 } else { here };
    let lc = if c is Concrete { c->Concrete_0 } else { here };
    lemma_location_order(la, lb, lc);
    let na = if a is Abstract { a->Abstract_0 } else { Seq::empty() };
    let nb = if b is Abstract { b->Abstract_0 } else { Seq::empty() };
    let nc = if c is Abstract { c->Abstract_0 } else { Seq::empty() };
    lemma_bytes_rel_total_order(na, nb, nc);
}

impl AssetId {
    /// Prepend a `MultiLocation` to a concrete asset, giving it a new root
    /// location. An abstract identifier stays as it is. Fails, leaving
    /// `self` as it was, where the location cannot take the prefix.
    pub fn prepend_with(&mut self, prepend: &MultiLocation) -> (r: Result<(), ()>)
        ensures
            match old(self)@.prepend(prepend@) {
                Some(joined) => r is Ok && final(self)@ == joined,
                None => r is Err && *final(self) == *old(self),
            },
    {
        match self {
            AssetId::Concrete(location) => match location.prepend_with(prepend.clone()) {
                Ok(()) => Ok(()),
                Err(_) => Err(()),
            },
            AssetId::Abstract(_) => Ok(()),
        }
    }

    /// Mutate the asset to represent the same value from the perspective of
    /// a new `target` location. The local chain's location is provided in
    /// `ancestry`. An abstract identifier stays as it is. Fails, leaving
    /// `self` as it was, where the location cannot be reanchored.
    pub fn reanchor(&mut self, target: &MultiLocation, ancestry: &MultiLocation) -> (r: Result<
        (),
        (),
    >)
        ensures
            match old(self)@.reanchor(target@, ancestry@) {
                Some(seen) => r is Ok && final(self)@ == seen,
                None => r is Err && *final(self) == *old(self),
            },
    {
        match self {
            AssetId::Concrete(location) => location.reanchor(target, ancestry),
            AssetId::Abstract(_) => Ok(()),
        }
    }

    /// Use the value of `self` along with a `fun` fungibility specifier to
    /// create the corresponding `MultiAsset` value.
    pub fn into_multiasset(self, fun: Fungibility) -> (r: MultiAsset)
        ensures
            r.id == self,
            r.fun == fun,
    {
        MultiAsset { fun, id: self }
    }

    /// Use the value of `self` along with a `fun` fungibility specifier to
    /// create the corresponding `WildMultiAsset` wildcard (`AllOf`) value.
    pub fn into_wild(self, fun: WildFungibility) -> (r: WildMultiAsset)
        ensures
            r == (WildMultiAsset::AllOf { id: self, fun }),
    {
        WildMultiAsset::AllOf { fun, id: self }
    }

    /// Compares two identifiers in the total order.
    pub fn compare(&self, other: &AssetId) -> (r: Rel)
        ensures
            r == self@.rel(other@),
    {
        proof {
            reveal(AssetIdView::rel);
        }
        match (self, other) {
            (AssetId::Concrete(a), AssetId::Concrete(b)) => a.compare(b),
            (AssetId::Concrete(_), AssetId::Abstract(_)) => Rel::Less,
            (AssetId::Abstract(_), AssetId::Concrete(_)) => Rel::Greater,
            (AssetId::Abstract(a), AssetId::Abstract(b)) => compare_bytes(
                a.as_slice(),
                b.as_slice(),
            ),
        }
    }
}

impl PartialEq for AssetId {
    fn eq(&self, other: &AssetId) -> (r: bool) {
        proof {
            lemma_asset_id_order(self@, other@, other@);
        }
        let r = self.compare(other);
        matches!(r, Rel::Equal)
    }
}

/// Two values are equal exactly when their views are.
impl vstd::std_specs::cmp::PartialEqSpecImpl for AssetId {
    open spec fn obeys_eq_spec() -> bool {
        true
    }

    open spec fn eq_spec(&self, other: &AssetId) -> bool {
        self@ == other@
    }
}

impl Clone for AssetId {
    fn clone(&self) -> (r: AssetId)
        ensures
            r@ == self@,
    {
        match self {
            AssetId::Concrete(location) => AssetId::Concrete(location.clone()),
            AssetId::Abstract(name) => AssetId::Abstract(bytes_to_vec(name.as_slice())),
        }
    }
}

/// Classification of whether an asset is fungible or not.
#[derive(Clone, Copy, Debug, PartialEq, Eq, Structural)]
pub enum WildFungibility {
    Fungible,
    NonFungible,
}

/// Classification of whether an asset is fungible or not, along with a
/// mandatory amount or instance.
#[derive(Debug)]
pub enum Fungibility {
    /// An amount of a fungible asset. The amount `0` stands for no asset.
    Fungible(u128),
    /// One instance of a non-fungible asset class.
    NonFungible(AssetInstance),
}

/// The mathematical value of a [`Fungibility`].
pub enum FungibilityView {
    Fungible(u128),
    NonFungible(AssetInstanceView),
}

impl View for Fungibility {
    type V = FungibilityView;

    open spec fn view(&self) -> FungibilityView {
        match self {
            Fungibility::Fungible(amount) => FungibilityView::Fungible(*amount),
            Fungibility::NonFungible(instance) => FungibilityView::NonFungible(instance@),
        }
    }
}

impl FungibilityView {
    /// Whether the fungibility is of the class `wild`.
    pub open spec fn is_kind(self, wild: WildFungibility) -> bool {
        match (self, wild) {
            (FungibilityView::Fungible(_), WildFungibility::Fungible) => true,
            (FungibilityView::NonFungible(_), WildFungibility::NonFungible) => true,
            _ => false,
        }
    }

    /// The total order: amounts first, by size; then instances, in their
    /// order.
    #[verifier::opaque]
    pub open spec fn rel(self, other: FungibilityView) -> Rel {
        match (self, other) {
            (FungibilityView::Fungible(a), FungibilityView::Fungible(b)) => int_rel(
                a as int,
                b as int,
            ),
            (FungibilityView::Fungible(_), FungibilityView::NonFungible(_)) => Rel::Less,
            (FungibilityView::NonFungible(_), FungibilityView::Fungible(_)) => Rel::Greater,
            (FungibilityView::NonFungible(a), FungibilityView::NonFungible(b)) => a.rel(b),
        }
    }
}

/// `FungibilityView::rel` is a total order.
pub proof fn lemma_fungibility_order(a: FungibilityView, b: FungibilityView, c: FungibilityView)
    ensures
        order_laws(a, b, c, a.rel(b), b.rel(a), b.rel(c), a.rel(c)),
{
    reveal(FungibilityView::rel);
    let none = AssetInstanceView::Undefined;
    let ia = if a is NonFungible { a->NonFungible_0 } else { none };
    let ib = if b is NonFungible { b->NonFungible_0 } else { none };
    let ic = if c is NonFungible { c->NonFungible_0 } else { none };
    lemma_asset_instance_order(ia, ib, ic);
}

impl Fungibility {
    /// Whether the fungibility is of the class `w`: an amount is of the
    /// fungible class, an instance of the non-fungible one.
    pub fn is_kind(&self, w: WildFungibility) -> (r: bool)
        ensures
            r == self@.is_kind(w),
    {
        match (self, w) {
            (Fungibility::Fungible(_), WildFungibility::Fungible) => true,
            (Fungibility::NonFungible(_), WildFungibility::NonFungible) => true,
            _ => false,
        }
    }

    /// Compares two fungibilities in the total order.
    pub fn compare(&self, other: &Fungibility) -> (r: Rel)
        ensures
            r == self@.rel(other@),
    {
        proof {
            reveal(FungibilityView::rel);
        }
        match (self, other) {
            (Fungibility::Fungible(a), Fungibility::Fungible(b)) => compare_u128(*a, *b),
            (Fungibility::Fungible(_), Fungibility::NonFungible(_)) => Rel::Less,
            (Fungibility::NonFungible(_), Fungibility::Fungible(_)) => Rel::Greater,
            (Fungibility::NonFungible(a), Fungibility::NonFungible(b)) => a.compare(b),
        }
    }
}

impl PartialEq for Fungibility {
    fn eq(&self, other: &Fungibility) -> (r: bool) {
        proof {
            lemma_fungibility_order(self@, other@, other@);
        }
        let r = self.compare(other);
        matches!(r, Rel::Equal)
    }
}

/// Two values are equal exactly when their views are.
impl vstd::std_specs::cmp::PartialEqSpecImpl for Fungibility {
    open spec fn obeys_eq_spec() -> bool {
        true
    }

    open spec fn eq_spec(&self, other: &Fungibility) -> bool {
        self@ == other@
    }
}

impl Clone for Fungibility {
    fn clone(&self) -> (r: Fungibility)
        ensures
            r@ == self@,
    {
        match self {
            Fungibility::Fungible(amount) => Fungibility::Fungible(*amount),
            Fungibility::NonFungible(instance) => Fungibility::NonFungible(instance.clone()),
        }
    }
}

/// A single asset: what it is and how much of it, or which instance.
#[derive(Debug)]
pub struct MultiAsset {
    pub id: AssetId,
    pub fun: Fungibility,
}

/// The mathematical value of a [`MultiAsset`].
pub struct MultiAssetView {
    pub id: AssetIdView,
    pub fun: FungibilityView,
}

impl View for MultiAsset {
    type V = MultiAssetView;

    open spec fn view(&self) -> MultiAssetView {
        MultiAssetView { id: self.id@, fun: self.fun@ }
    }
}

impl MultiAssetView {
    /// Whether the asset is an amount of a fungible.
    pub open spec fn is_fungible(self) -> bool {
        self.fun is Fungible
    }

    /// The amount of a fungible asset.
    pub open spec fn amount(self) -> u128 {
        self.fun->Fungible_0
    }

    /// The total order of assets: every fungible asset comes before every
    /// non-fungible one; two assets of one kind are ordered by identifier,
    /// then by amount or instance.
    pub open spec fn rel(self, other: MultiAssetView) -> Rel {
        match (self.fun, other.fun) {
            (FungibilityView::Fungible(_), FungibilityView::NonFungible(_)) => Rel::Less,
            (FungibilityView::NonFungible(_), FungibilityView::Fungible(_)) => Rel::Greater,
            _ => self.id.rel(other.id).followed_by(self.fun.rel(other.fun)),
        }
    }

    /// Whether `self` covers `inner`: two amounts of one fungible, the
    /// first no less than the second; or one and the same non-fungible
    /// instance.
    pub open spec fn contains(self, inner: MultiAssetView) -> bool {
        self.id == inner.id && match (self.fun, inner.fun) {
            (FungibilityView::Fungible(a), FungibilityView::Fungible(i)) => a >= i,
            (FungibilityView::NonFungible(a), FungibilityView::NonFungible(i)) => a == i,
            _ => false,
        }
    }

    /// The asset with `prefix` put before the location of its identifier.
    pub open spec fn prepend(self, prefix: MultiLocationView) -> Option<MultiAssetView> {
        match self.id.prepend(prefix) {
            Some(id) => Some(MultiAssetView { id, fun: self.fun }),
            None => None,
        }
    }

    /// The asset with the location of its identifier as seen from `target`.
    pub open spec fn reanchor(
        self,
        target: MultiLocationView,
        ancestry: MultiLocationView,
    ) -> Option<MultiAssetView> {
        match self.id.reanchor(target, ancestry) {
            Some(id) => Some(MultiAssetView { id, fun: self.fun }),
            None => None,
        }
    }
}

/// `MultiAssetView::rel` is a total order.
pub proof fn lemma_asset_order(a: MultiAssetView, b: MultiAssetView, c: MultiAssetView)
    ensures
        order_laws(a, b, c, a.rel(b), b.rel(a), b.rel(c), a.rel(c)),
{
    lemma_asset_id_order(a.id, b.id, c.id);
    lemma_fungibility_order(a.fun, b.fun, c.fun);
}

/// Every asset covers itself.
pub proof fn lemma_contains_reflexive(x: MultiAssetView)
    ensures
        x.contains(x),
{
}

/// A non-fungible asset covers itself and nothing else, and nothing but
/// itself covers it.
pub proof fn lemma_contains_non_fungible_exact(x: MultiAssetView, y: MultiAssetView)
    requires
        !x.is_fungible() || !y.is_fungible(),
    ensures
        x.contains(y) <==> x == y,
{
}

/// Among the amounts of one fungible, the greater covers the smaller.
pub proof fn lemma_contains_fungible(x: MultiAssetView, y: MultiAssetView)
    requires
        x.is_fungible(),
        y.is_fungible(),
    ensures
        x.contains(y) <==> x.id == y.id && x.amount() >= y.amount(),
{
}

impl MultiAsset {
    /// Whether the asset is fungible and, where `maybe_id` is given, has
    /// that identifier.
    pub fn is_fungible(&self, maybe_id: Option<AssetId>) -> (r: bool)
        ensures
            r == (self@.is_fungible() && (maybe_id matches Some(id) ==> id@ == self@.id)),
    {
        let kind = match self.fun {
            Fungibility::Fungible(..) => true,
            _ => false,
        };
        kind && match maybe_id {
            Some(id) => id == self.id,
            None => true,
        }
    }

    /// Whether the asset is non-fungible and, where `maybe_id` is given,
    /// has that identifier.
    pub fn is_non_fungible(&self, maybe_id: Option<AssetId>) -> (r: bool)
        ensures
            r == (!self@.is_fungible() && (maybe_id matches Some(id) ==> id@ == self@.id)),
    {
        let kind = match self.fun {
            Fungibility::NonFungible(..) => true,
            _ => false,
        };
        kind && match maybe_id {
            Some(id) => id == self.id,
            None => true,
        }
    }

    /// Prepend a `MultiLocation` to a concrete asset, giving it a new root
    /// location. Fails, leaving `self` as it was, where the location cannot
    /// take the prefix.
    pub fn prepend_with(&mut self, prepend: &MultiLocation) -> (r: Result<(), ()>)
        ensures
            match old(self)@.prepend(prepend@) {
                Some(joined) => r is Ok && final(self)@ == joined,
                None => r is Err && *final(self) == *old(self),
            },
    {
        self.id.prepend_with(prepend)
    }

    /// Mutate the location of the asset identifier if concrete, giving it
    /// the same location relative to a `target` context. The local context
    /// is provided as `ancestry`. Fails, leaving `self` as it was, where the
    /// location cannot be reanchored.
    pub fn reanchor(&mut self, target: &MultiLocation, ancestry: &MultiLocation) -> (r: Result<
        (),
        (),
    >)
        ensures
            match old(self)@.reanchor(target@, ancestry@) {
                Some(seen) => r is Ok && final(self)@ == seen,
                None => r is Err && *final(self) == *old(self),
            },
    {
        self.id.reanchor(target, ancestry)
    }

    /// The asset with the location of its identifier, if concrete, as seen
    /// from a `target` context. The local context is provided as
    /// `ancestry`.
    pub fn reanchored(self, target: &MultiLocation, ancestry: &MultiLocation) -> (r: Result<
        MultiAsset,
        (),
    >)
        ensures
            match self@.reanchor(target@, ancestry@) {
                Some(seen) => r matches Ok(asset) && asset@ == seen,
                None => r is Err,
            },
    {
        let mut asset = self;
        match asset.id.reanchor(target, ancestry) {
            Ok(()) => Ok(asset),
            Err(()) => Err(()),
        }
    }

    /// Returns true if `self` is a super-set of the given `inner`: both are
    /// amounts of one fungible and the amount of `self` is no less, or both
    /// are one and the same non-fungible instance.
    pub fn contains(&self, inner: &MultiAsset) -> (r: bool)
        ensures
            r == self@.contains(inner@),
    {
        if self.id == inner.id {
            match (&self.fun, &inner.fun) {
                (Fungibility::Fungible(a), Fungibility::Fungible(i)) => *a >= *i,
                (Fungibility::NonFungible(a), Fungibility::NonFungible(i)) => a == i,
                _ => false,
            }
        } else {
            false
        }
    }

    /// Compares two assets in the total order: fungibles before
    /// non-fungibles, then by identifier, then by amount or instance.
    pub fn compare(&self, other: &MultiAsset) -> (r: Rel)
        ensures
            r == self@.rel(other@),
    {
        match (&self.fun, &other.fun) {
            (Fungibility::Fungible(..), Fungibility::NonFungible(..)) => Rel::Less,
            (Fungibility::NonFungible(..), Fungibility::Fungible(..)) => Rel::Greater,
            _ => match self.id.compare(&other.id) {
                Rel::Equal => self.fun.compare(&other.fun),
                r => r,
            },
        }
    }
}

impl PartialEq for MultiAsset {
    fn eq(&self, other: &MultiAsset) -> (r: bool) {
        proof {
            lemma_asset_order(self@, other@, other@);
        }
        let r = self.compare(other);
        matches!(r, Rel::Equal)
    }
}

/// Two values are equal exactly when their views are.
impl vstd::std_specs::cmp::PartialEqSpecImpl for MultiAsset {
    open spec fn obeys_eq_spec() -> bool {
        true
    }

    open spec fn eq_spec(&self, other: &MultiAsset) -> bool {
        self@ == other@
    }
}

impl Clone for MultiAsset {
    fn clone(&self) -> (r: MultiAsset)
        ensures
            r@ == self@,
    {
        MultiAsset { id: self.id.clone(), fun: self.fun.clone() }
    }
}

/// A wildcard representing a set of assets.
#[derive(Debug)]
pub enum WildMultiAsset {
    /// All assets in the holding register.
    All,
    /// All assets in the holding register of a given fungibility and ID.
    AllOf { id: AssetId, fun: WildFungibility },
}

/// The mathematical value of a [`WildMultiAsset`].
pub enum WildMultiAssetView {
    All,
    AllOf { id: AssetIdView, fun: WildFungibility },
}

impl View for WildMultiAsset {
    type V = WildMultiAssetView;

    open spec fn view(&self) -> WildMultiAssetView {
        match self {
            WildMultiAsset::All => WildMultiAssetView::All,
            WildMultiAsset::AllOf { id, fun } => WildMultiAssetView::AllOf { id: id@, fun: *fun },
        }
    }
}

impl WildMultiAssetView {
    /// Whether the wildcard selects `inner`: `All` selects every asset,
    /// `AllOf` those of its identifier and class.
    pub open spec fn contains(self, inner: MultiAssetView) -> bool {
        match self {
            WildMultiAssetView::AllOf { id, fun } => inner.fun.is_kind(fun) && inner.id == id,
            WildMultiAssetView::All => true,
        }
    }

    /// The wildcard with the location of its identifier as seen from
    /// `target`.
    pub open spec fn reanchor(
        self,
        target: MultiLocationView,
        ancestry: MultiLocationView,
    ) -> Option<WildMultiAssetView> {
        match self {
            WildMultiAssetView::AllOf { id, fun } => match id.reanchor(target, ancestry) {
                Some(seen) => Some(WildMultiAssetView::AllOf { id: seen, fun }),
                None => None,
            },
            WildMultiAssetView::All => Some(self),
        }
    }
}

/// The wildcard `All` selects every asset.
pub proof fn lemma_all_contains_every_asset(x: MultiAssetView)
    ensures
        WildMultiAssetView::All.contains(x),
{
}

impl WildMultiAsset {
    /// Returns true if `self` is a super-set of the given `inner`.
    ///
    /// `All` selects every asset; `AllOf` selects the assets of its
    /// identifier and class of fungibility.
    pub fn contains(&self, inner: &MultiAsset) -> (r: bool)
        ensures
            r == self@.contains(inner@),
    {
        match self {
            WildMultiAsset::AllOf { fun, id } => inner.fun.is_kind(*fun) && inner.id == *id,
            WildMultiAsset::All => true,
        }
    }

    /// Mutate the location of the asset identifier, if any and concrete,
    /// giving it the same location relative to a `target` context. Fails,
    /// leaving `self` as it was, where the location cannot be reanchored.
    pub fn reanchor(&mut self, target: &MultiLocation, ancestry: &MultiLocation) -> (r: Result<
        (),
        (),
    >)
        ensures
            match old(self)@.reanchor(target@, ancestry@) {
                Some(seen) => r is Ok && final(self)@ == seen,
                None => r is Err && *final(self) == *old(self),
            },
    {
        match self {
            WildMultiAsset::AllOf { id, .. } => id.reanchor(target, ancestry),
            WildMultiAsset::All => Ok(()),
        }
    }
}

impl Clone for WildMultiAsset {
    fn clone(&self) -> (r: WildMultiAsset)
        ensures
            r@ == self@,
    {
        match self {
            WildMultiAsset::All => WildMultiAsset::All,
            WildMultiAsset::AllOf { id, fun } => WildMultiAsset::AllOf {
                id: id.clone(),
                fun: *fun,
            },
        }
    }
}

/// Whether every asset of `s` can take `prefix`.
pub open spec fn all_prepend(s: Seq<MultiAssetView>, prefix: MultiLocationView) -> bool {
    forall|i: int| 0 <= i < s.len() ==> (#[trigger] s[i]).prepend(prefix) is Some
}

/// The assets of `s`, each with `prefix` put before its location.
pub open spec fn prepended(s: Seq<MultiAssetView>, prefix: MultiLocationView) -> Seq<
    MultiAssetView,
> {
    Seq::new(s.len(), |i: int| s[i].prepend(prefix).unwrap())
}

/// Whether every asset of `s` can be reanchored.
pub open spec fn all_reanchor(
    s: Seq<MultiAssetView>,
    target: MultiLocationView,
    ancestry: MultiLocationView,
) -> bool {
    forall|i: int| 0 <= i < s.len() ==> (#[trigger] s[i]).reanchor(target, ancestry) is Some
}

/// The assets of `s`, each as seen from `target`.
pub open spec fn reanchored(
    s: Seq<MultiAssetView>,
    target: MultiLocationView,
    ancestry: MultiLocationView,
) -> Seq<MultiAssetView> {
    Seq::new(s.len(), |i: int| s[i].reanchor(target, ancestry).unwrap())
}

/// Whether some asset of `s` covers `inner`.
pub open spec fn any_contains(s: Seq<MultiAssetView>, inner: MultiAssetView) -> bool {
    exists|i: int| 0 <= i < s.len() && (#[trigger] s[i]).contains(inner)
}

/// Whether `s[i]` is the first amount of the fungible that `a` is an amount
/// of.
pub open spec fn first_of_fungible(s: Seq<MultiAssetView>, a: MultiAssetView, i: int) -> bool {
    &&& 0 <= i < s.len()
    &&& s[i].is_fungible()
    &&& s[i].id == a.id
    &&& forall|j: int| 0 <= j < i ==> !((#[trigger] s[j]).is_fungible() && s[j].id == a.id)
}

/// `s` after `a` is pushed: an amount is added, saturating, to the first
/// amount of the same fungible; where there is none, and for a
/// non-fungible instance, `a` is appended and all is sorted.
pub open spec fn pushed(s: Seq<MultiAssetView>, a: MultiAssetView) -> Seq<MultiAssetView> {
    if a.is_fungible() && exists|i: int| first_of_fungible(s, a, i) {
        let i = choose|i: int| first_of_fungible(s, a, i);
        s.update(
            i,
            MultiAssetView {
                id: a.id,
                fun: FungibilityView::Fungible(saturating_sum(s[i].amount(), a.amount())),
            },
        )
    } else {
        sort(s.push(a))
    }
}

/// Where some asset of the first `n` of `s` is an amount of the fungible
/// of `a`, one of them is the first.
proof fn lemma_first_of_fungible(s: Seq<MultiAssetView>, a: MultiAssetView, n: int)
    requires
        0 <= n <= s.len(),
        exists|j: int| 0 <= j < n && (#[trigger] s[j]).is_fungible() && s[j].id == a.id,
    ensures
        exists|i: int| first_of_fungible(s, a, i),
    decreases n,
{
    if exists|j: int| 0 <= j < n - 1 && (#[trigger] s[j]).is_fungible() && s[j].id == a.id {
        lemma_first_of_fungible(s, a, n - 1);
    } else {
        assert(first_of_fungible(s, a, n - 1));
    }
}

/// Pushing keeps a collection sorted with each fungible listed once.
pub proof fn lemma_pushed_canonical(s: Seq<MultiAssetView>, a: MultiAssetView)
    requires
        is_canonical(s),
    ensures
        is_canonical(pushed(s, a)),
{
    let t = pushed(s, a);
    if a.is_fungible() && exists|i: int| first_of_fungible(s, a, i) {
        let at = choose|i: int| first_of_fungible(s, a, i);
        assert forall|i: int, j: int| #![trigger t[i], t[j]] 0 <= i < j < t.len() implies t[i].rel(
            t[j],
        ).at_most() by {
            assert(s[i].rel(s[j]).at_most());
            lemma_asset_id_order(s[i].id, s[j].id, s[j].id);
        }
        assert forall|i: int, j: int|
            #![trigger t[i], t[j]]
            0 <= i < j < t.len() && t[i].is_fungible() && t[j].is_fungible() implies t[i].id
            != t[j].id by {
            assert(s[i].id != s[j].id);
        }
    } else {
        assert(s.push(a).drop_last() =~= s);
        lemma_sort_of_sorted(s);
        lemma_insert_sorted(s, a);
        lemma_insert_index(s, a);
        let at = insert_index(s, a);
        assert(t == s.insert(at, a));
        assert forall|i: int, j: int|
            #![trigger t[i], t[j]]
            0 <= i < j < t.len() && t[i].is_fungible() && t[j].is_fungible() implies t[i].id
            != t[j].id by {
            let from_i = if i < at { i } else { i - 1 };
            let from_j = if j < at { j } else { j - 1 };
            if i == at {
                if s[from_j].is_fungible() && s[from_j].id == a.id {
                    lemma_first_of_fungible(s, a, s.len() as int);
                }
            } else if j == at {
                if s[from_i].is_fungible() && s[from_i].id == a.id {
                    lemma_first_of_fungible(s, a, s.len() as int);
                }
            } else {
                assert(s[from_i].id != s[from_j].id);
            }
        }
    }
}

/// Puts `a` into `out` at its place.
fn insert_asset(out: &mut Vec<MultiAsset>, a: MultiAsset)
    ensures
        views(final(out)@) == insert(views(old(out)@), a@),
{
    let ghost s = views(out@);
    let mut i: usize = out.len();
    proof {
        assert(s.take(i as int) =~= s);
    }
    let mut moving = true;
    while moving && i > 0
        invariant
            i <= out@.len(),
            out@ == old(out)@,
            s == views(out@),
            insert_index(s, a@) == insert_index(s.take(i as int), a@),
            !moving ==> insert_index(s, a@) == i,
        decreases i + (if moving { 1int } else { 0int }),
    {
        match out[i - 1].compare(&a) {
            Rel::Greater => {
                assert(s.take(i as int).drop_last() =~= s.take(i - 1));
                i = i - 1;
            },
            _ => {
                moving = false;
            },
        }
    }
    let ghost before = out@;
    out.insert(i, a);
    proof {
        assert(out@[i as int] == a);
        assert(views(out@) =~= s.insert(i as int, a@)) by {
            assert forall|k: int| 0 <= k < out@.len() implies views(out@)[k] == s.insert(
                i as int,
                a@,
            )[k] by {
                if k < i {
                    assert(out@[k] == before[k]);
                } else if k > i {
                    assert(out@[k] == before[k - 1]);
                }
            }
        }
    }
}

/// The assets of `v`, sorted.
fn sort_assets(v: Vec<MultiAsset>) -> (r: Vec<MultiAsset>)
    ensures
        views(r@) == sort(views(v@)),
{
    let mut rest = v;
    let mut out: Vec<MultiAsset> = Vec::new();
    let ghost whole = views(v@);
    let ghost mut done: int = 0;
    proof {
        assert(whole.take(0) =~= Seq::<MultiAssetView>::empty());
        assert(views(out@) =~= Seq::<MultiAssetView>::empty());
        assert(views(rest@) =~= whole.skip(0));
    }
    while rest.len() > 0
        invariant
            0 <= done <= whole.len(),
            done + rest@.len() == whole.len(),
            views(rest@) == whole.skip(done),
            views(out@) == sort(whole.take(done)),
        decreases rest@.len(),
    {
        let ghost left = rest@;
        assert(views(left)[0] == whole.skip(done)[0]);
        let a = rest.remove(0);
        proof {
            assert(a@ == whole[done]);
            assert(rest@ =~= left.subrange(1, left.len() as int));
            lemma_views_subrange(left, 1, left.len() as int);
            assert(views(rest@) =~= whole.skip(done + 1));
            assert(whole.take(done + 1).drop_last() =~= whole.take(done));
            assert(whole.take(done + 1).last() == whole[done]);
        }
        insert_asset(&mut out, a);
        proof {
            done = done + 1;
        }
    }
    proof {
        assert(whole.take(done) =~= whole);
    }
    out
}

/// Takes `b` in at the end of `out`.
fn absorb_asset(out: &mut Vec<MultiAsset>, b: MultiAsset)
    ensures
        views(final(out)@) == absorb(views(old(out)@), b@),
{
    let ghost m = views(out@);
    let ghost before = out@;
    match out.pop() {
        None => {
            out.push(b);
            assert(views(out@) =~= seq![b@]);
        },
        Some(a) => {
            let ghost front = out@;
            assert(views(front) =~= m.drop_last());
            assert(a@ == m.last());
            let same_id = a.id == b.id;
            match (a, b) {
                (
                    MultiAsset { fun: Fungibility::Fungible(a_amount), id: a_id },
                    MultiAsset { fun: Fungibility::Fungible(b_amount), id: b_id },
                ) => {
                    if same_id {
                        let sum = MultiAsset {
                            id: b_id,
                            fun: Fungibility::Fungible(a_amount.saturating_add(b_amount)),
                        };
                        out.push(sum);
                        proof {
                            lemma_views_push(front, sum);
                        }
                    } else {
                        let first = MultiAsset { id: a_id, fun: Fungibility::Fungible(a_amount) };
                        let second = MultiAsset {
                            id: b_id,
                            fun: Fungibility::Fungible(b_amount),
                        };
                        out.push(first);
                        proof {
                            lemma_views_push(front, first);
                            assert(views(out@) =~= m);
                        }
                        let ghost mid = out@;
                        out.push(second);
                        proof {
                            lemma_views_push(mid, second);
                        }
                    }
                },
                (
                    MultiAsset { fun: Fungibility::NonFungible(a_instance), id: a_id },
                    MultiAsset { fun: Fungibility::NonFungible(b_instance), id: b_id },
                ) => {
                    let same = same_id && a_instance == b_instance;
                    let first = MultiAsset {
                        id: a_id,
                        fun: Fungibility::NonFungible(a_instance),
                    };
                    out.push(first);
                    proof {
                        lemma_views_push(front, first);
                        assert(views(out@) =~= m);
                    }
                    if !same {
                        let second = MultiAsset {
                            id: b_id,
                            fun: Fungibility::NonFungible(b_instance),
                        };
                        let ghost mid = out@;
                        out.push(second);
                        proof {
                            lemma_views_push(mid, second);
                        }
                    }
                },
                (to_push, to_remember) => {
                    out.push(to_push);
                    proof {
                        lemma_views_push(front, to_push);
                        assert(views(out@) =~= m);
                    }
                    let ghost mid = out@;
                    out.push(to_remember);
                    proof {
                        lemma_views_push(mid, to_remember);
                    }
                },
            }
        },
    }
}

/// The assets of `v` with neighbours merged.
fn merge_assets(v: Vec<MultiAsset>) -> (r: Vec<MultiAsset>)
    ensures
        views(r@) == merged(views(v@)),
{
    let mut rest = v;
    let mut out: Vec<MultiAsset> = Vec::with_capacity(rest.len());
    let ghost whole = views(v@);
    let ghost mut done: int = 0;
    proof {
        assert(whole.take(0) =~= Seq::<MultiAssetView>::empty());
        assert(views(out@) =~= Seq::<MultiAssetView>::empty());
        assert(views(rest@) =~= whole.skip(0));
    }
    while rest.len() > 0
        invariant
            0 <= done <= whole.len(),
            done + rest@.len() == whole.len(),
            views(rest@) == whole.skip(done),
            views(out@) == merged(whole.take(done)),
        decreases rest@.len(),
    {
        let ghost left = rest@;
        assert(views(left)[0] == whole.skip(done)[0]);
        let b = rest.remove(0);
        proof {
            assert(b@ == whole[done]);
            assert(rest@ =~= left.subrange(1, left.len() as int));
            lemma_views_subrange(left, 1, left.len() as int);
            assert(views(rest@) =~= whole.skip(done + 1));
            assert(whole.take(done + 1).drop_last() =~= whole.take(done));
            assert(whole.take(done + 1).last() == whole[done]);
        }
        absorb_asset(&mut out, b);
        proof {
            done = done + 1;
        }
    }
    proof {
        assert(whole.take(done) =~= whole);
    }
    out
}

/// A collection of assets. Built from any vector, it is in normal form:
/// sorted by the total order of assets, fungibles first, with the amounts
/// of one fungible merged into one and every non-fungible instance listed
/// once. Pushing keeps it sorted with each fungible listed once; rewriting
/// the locations of its identifiers keeps the order of the assets as it
/// was, whatever the new identifiers are.
#[derive(Debug)]
pub struct MultiAssets(Vec<MultiAsset>);

impl View for MultiAssets {
    type V = Seq<MultiAssetView>;

    closed spec fn view(&self) -> Seq<MultiAssetView> {
        views(self.0@)
    }
}

impl From<Vec<MultiAsset>> for MultiAssets {
    /// The collection of the given assets in normal form: sorted, then
    /// amounts of one fungible added up, saturating, and instances that
    /// occur more than once listed once.
    fn from(assets: Vec<MultiAsset>) -> (r: MultiAssets)
        ensures
            r@ == normalize(views(assets@)),
            is_normalized(r@),
            r@.len() <= assets@.len(),
    {
        proof {
            lemma_normalize_is_normalized(views(assets@));
        }
        MultiAssets(merge_assets(sort_assets(assets)))
    }
}

/// The conversion gives a value made anew, which no `spec` function can
/// name: it is specified by the `ensures` of its own, over views.
impl vstd::std_specs::convert::FromSpecImpl<Vec<MultiAsset>> for MultiAssets {
    open spec fn obeys_from_spec() -> bool {
        false
    }

    open spec fn from_spec(assets: Vec<MultiAsset>) -> MultiAssets {
        arbitrary()
    }
}

impl From<MultiAsset> for MultiAssets {
    /// The collection of one asset.
    fn from(asset: MultiAsset) -> (r: MultiAssets)
        ensures
            r@ == seq![asset@],
    {
        let mut assets: Vec<MultiAsset> = Vec::new();
        assets.push(asset);
        assert(views(assets@) =~= seq![asset@]);
        MultiAssets(assets)
    }
}

/// The conversion gives a value made anew, which no `spec` function can
/// name: it is specified by the `ensures` of its own, over views.
impl vstd::std_specs::convert::FromSpecImpl<MultiAsset> for MultiAssets {
    open spec fn obeys_from_spec() -> bool {
        false
    }

    open spec fn from_spec(asset: MultiAsset) -> MultiAssets {
        arbitrary()
    }
}

impl MultiAssets {
    /// A new (empty) value.
    pub fn new() -> (r: MultiAssets)
        ensures
            r@ == Seq::<MultiAssetView>::empty(),
    {
        let r = MultiAssets(Vec::new());
        assert(r@ =~= Seq::<MultiAssetView>::empty());
        r
    }

    /// Create a new instance of `MultiAssets` from a `Vec<MultiAsset>` whose
    /// contents are sorted and which contain no duplicates.
    ///
    /// Returns `Ok` with the assets as given if they are in normal form:
    /// strictly ascending in the total order of assets, no two of them
    /// amounts of one fungible. Returns `Err` otherwise: nothing is put
    /// right on the way. This asks for the whole order, fungibles before
    /// non-fungibles and instances of one class by instance, not only for
    /// ascending identifiers.
    pub fn from_sorted_and_deduplicated(r: Vec<MultiAsset>) -> (res: Result<MultiAssets, ()>)
        ensures
            is_normalized(views(r@)) <==> res is Ok,
            res matches Ok(assets) ==> assets@ == views(r@),
    {
        proof {
            lemma_adjacent_in_order(views(r@));
        }
        if r.len() == 0 {
            return Ok(MultiAssets(r));
        }
        let mut i: usize = 0;
        while i < r.len() - 1
            invariant
                r@.len() > 0,
                i <= r@.len() - 1,
                forall|k: int| 0 <= k < i ==> may_follow(#[trigger] views(r@)[k], views(r@)[k + 1]),
            decreases r@.len() - i,
        {
            let a = &r[i];
            let b = &r[i + 1];
            let ascending = match a.compare(b) {
                Rel::Less => true,
                _ => false,
            };
            let ok = ascending && !(a.is_fungible(None) && b.is_fungible(None) && a.id == b.id);
            if !ok {
                assert(!may_follow(views(r@)[i as int], views(r@)[i + 1]));
                return Err(());
            }
            i = i + 1;
        }
        Ok(MultiAssets(r))
    }

    /// Create a new instance of `MultiAssets` from a `Vec<MultiAsset>` whose
    /// contents are sorted and which contain no duplicates, without
    /// checking them. The caller has to know that `r` is in normal form.
    pub fn from_sorted_and_deduplicated_skip_checks(r: Vec<MultiAsset>) -> (res: MultiAssets)
        requires
            is_normalized(views(r@)),
        ensures
            res@ == views(r@),
    {
        MultiAssets(r)
    }

    /// Add some asset onto the list, saturating. An amount of a fungible
    /// that the list holds is added to the amount held; any other asset is
    /// appended, and the list sorted. A list that is sorted and holds each
    /// fungible once stays so.
    pub fn push(&mut self, a: MultiAsset)
        ensures
            final(self)@ == pushed(old(self)@, a@),
            is_canonical(old(self)@) ==> is_canonical(final(self)@),
    {
        let ghost s = self@;
        proof {
            if is_canonical(s) {
                lemma_pushed_canonical(s, a@);
            }
        }
        if let Fungibility::Fungible(amount) = a.fun {
            let mut i: usize = 0;
            while i < self.0.len()
                invariant
                    i <= self.0@.len(),
                    *self == *old(self),
                    s == views(self.0@),
                    a@.is_fungible(),
                    a.fun == Fungibility::Fungible(amount),
                    is_canonical(s) ==> is_canonical(pushed(s, a@)),
                    forall|j: int| 0 <= j < i ==> !((#[trigger] s[j]).is_fungible() && s[j].id == a@.id),
                decreases self.0@.len() - i,
            {
                let found = match self.0[i].fun {
                    Fungibility::Fungible(balance) => if self.0[i].id == a.id {
                        Some(balance)
                    } else {
                        None
                    },
                    _ => None,
                };
                if let Some(balance) = found {
                    let ghost before = self.0@;
                    let sum = MultiAsset {
                        id: a.id,
                        fun: Fungibility::Fungible(balance.saturating_add(amount)),
                    };
                    self.0.set(i, sum);
                    proof {
                        assert(first_of_fungible(s, a@, i as int));
                        let chosen = choose|k: int| first_of_fungible(s, a@, k);
                        assert(chosen == i) by {
                            if chosen < i {
                                assert(s[chosen].is_fungible() && s[chosen].id == a@.id);
                            } else if chosen > i {
                                assert(s[i as int].is_fungible() && s[i as int].id == a@.id);
                            }
                        }
                        lemma_views_update(before, i as int, sum);
                    }
                    return ;
                }
                i = i + 1;
            }
            proof {
                assert(!exists|k: int| first_of_fungible(s, a@, k));
            }
        }
        let ghost before = self.0@;
        let mut assets: Vec<MultiAsset> = Vec::new();
        std::mem::swap(&mut assets, &mut self.0);
        assets.push(a);
        proof {
            lemma_views_push(before, a);
        }
        self.0 = sort_assets(assets);
    }

    /// Returns `true` if this definitely represents no asset.
    pub fn is_none(&self) -> (r: bool)
        ensures
            r == (self@.len() == 0),
    {
        self.0.len() == 0
    }

    /// Returns true if `self` is a super-set of the given `inner`: if some
    /// asset of the collection covers it.
    pub fn contains(&self, inner: &MultiAsset) -> (r: bool)
        ensures
            r == any_contains(self@, inner@),
    {
        let mut i: usize = 0;
        while i < self.0.len()
            invariant
                i <= self.0@.len(),
                forall|j: int| 0 <= j < i ==> !(#[trigger] self@[j]).contains(inner@),
            decreases self.0@.len() - i,
        {
            if self.0[i].contains(inner) {
                assert(self@[i as int].contains(inner@));
                return true;
            }
            i = i + 1;
        }
        false
    }

    /// Consume `self` and return the inner vec.
    pub fn drain(self) -> (r: Vec<MultiAsset>)
        ensures
            views(r@) == self@,
    {
        self.0
    }

    /// Return a reference to the inner vec.
    pub fn inner(&self) -> (r: &Vec<MultiAsset>)
        ensures
            views(r@) == self@,
    {
        &self.0
    }

    /// Return the number of distinct asset instances contained.
    pub fn len(&self) -> (r: usize)
        ensures
            r == self@.len(),
    {
        self.0.len()
    }

    /// Prepend a `MultiLocation` to any concrete asset items, giving it a
    /// new root location. All assets are rewritten or none: where one of
    /// them cannot take the prefix, this fails and leaves `self` as it
    /// was.
    pub fn prepend_with(&mut self, prefix: &MultiLocation) -> (r: Result<(), ()>)
        ensures
            all_prepend(old(self)@, prefix@) ==> r is Ok && final(self)@ == prepended(
                old(self)@,
                prefix@,
            ),
            !all_prepend(old(self)@, prefix@) ==> r is Err && *final(self) == *old(self),
    {
        let mut staged: Vec<MultiAsset> = Vec::new();
        let mut i: usize = 0;
        while i < self.0.len()
            invariant
                i <= self.0@.len(),
                *self == *old(self),
                staged@.len() == i,
                forall|j: int| 0 <= j < i ==> (#[trigger] self@[j]).prepend(prefix@) == Some(
                    staged@[j]@,
                ),
            decreases self.0@.len() - i,
        {
            let mut asset = self.0[i].clone();
            match asset.prepend_with(prefix) {
                Ok(()) => {},
                Err(()) => {
                    assert(self@[i as int].prepend(prefix@) is None);
                    return Err(());
                },
            }
            staged.push(asset);
            i = i + 1;
        }
        assert(views(staged@) =~= prepended(self@, prefix@));
        self.0 = staged;
        Ok(())
    }

    /// Mutate the location of every concrete asset identifier, giving it
    /// the same location relative to a `target` context. All assets are
    /// rewritten or none: where one of them cannot be reanchored, this
    /// fails and leaves `self` as it was.
    pub fn reanchor(&mut self, target: &MultiLocation, ancestry: &MultiLocation) -> (r: Result<
        (),
        (),
    >)
        ensures
            all_reanchor(old(self)@, target@, ancestry@) ==> r is Ok && final(self)@
                == reanchored(old(self)@, target@, ancestry@),
            !all_reanchor(old(self)@, target@, ancestry@) ==> r is Err && *final(self) == *old(
                self,
            ),
    {
        let mut staged: Vec<MultiAsset> = Vec::new();
        let mut i: usize = 0;
        while i < self.0.len()
            invariant
                i <= self.0@.len(),
                *self == *old(self),
                staged@.len() == i,
                forall|j: int|
                    0 <= j < i ==> (#[trigger] self@[j]).reanchor(target@, ancestry@) == Some(
                        staged@[j]@,
                    ),
            decreases self.0@.len() - i,
        {
            let mut asset = self.0[i].clone();
            match asset.reanchor(target, ancestry) {
                Ok(()) => {},
                Err(()) => {
                    assert(self@[i as int].reanchor(target@, ancestry@) is None);
                    return Err(());
                },
            }
            staged.push(asset);
            i = i + 1;
        }
        assert(views(staged@) =~= reanchored(self@, target@, ancestry@));
        self.0 = staged;
        Ok(())
    }

    /// Return a reference to an item at a specific index or `None` if it
    /// doesn't exist.
    pub fn get(&self, index: usize) -> (r: Option<&MultiAsset>)
        ensures
            index < self@.len() ==> (r matches Some(asset) && asset@ == self@[index as int]),
            index >= self@.len() ==> r is None,
    {
        if index < self.0.len() {
            Some(&self.0[index])
        } else {
            None
        }
    }
}

impl Clone for MultiAssets {
    fn clone(&self) -> (r: MultiAssets)
        ensures
            r@ == self@,
    {
        let mut assets: Vec<MultiAsset> = Vec::new();
        let mut i: usize = 0;
        while i < self.0.len()
            invariant
                i <= self.0@.len(),
                assets@.len() == i,
                forall|j: int| 0 <= j < i ==> (#[trigger] assets@[j])@ == self.0@[j]@,
            decreases self.0@.len() - i,
        {
            assets.push(self.0[i].clone());
            i = i + 1;
        }
        assert(views(assets@) =~= views(self.0@));
        MultiAssets(assets)
    }
}

/// `MultiAsset` collection, either `MultiAssets` or a single wildcard.
#[derive(Debug)]
pub enum MultiAssetFilter {
    Definite(MultiAssets),
    Wild(WildMultiAsset),
}

/// The mathematical value of a [`MultiAssetFilter`].
pub enum MultiAssetFilterView {
    Definite(Seq<MultiAssetView>),
    Wild(WildMultiAssetView),
}

impl View for MultiAssetFilter {
    type V = MultiAssetFilterView;

    open spec fn view(&self) -> MultiAssetFilterView {
        match self {
            MultiAssetFilter::Definite(assets) => MultiAssetFilterView::Definite(assets@),
            MultiAssetFilter::Wild(wild) => MultiAssetFilterView::Wild(wild@),
        }
    }
}

impl MultiAssetFilterView {
    /// Whether the filter selects `inner`: some asset of a definite
    /// collection covers it, or the wildcard selects it.
    pub open spec fn contains(self, inner: MultiAssetView) -> bool {
        match self {
            MultiAssetFilterView::Definite(assets) => any_contains(assets, inner),
            MultiAssetFilterView::Wild(wild) => wild.contains(inner),
        }
    }
}

impl MultiAssetFilter {
    /// Returns true if `self` is a super-set of the given `inner`.
    pub fn contains(&self, inner: &MultiAsset) -> (r: bool)
        ensures
            r == self@.contains(inner@),
    {
        match self {
            MultiAssetFilter::Definite(assets) => assets.contains(inner),
            MultiAssetFilter::Wild(wild) => wild.contains(inner),
        }
    }

    /// Mutate the location of every concrete asset identifier of the
    /// filter, giving it the same location relative to a `target` context.
    /// Fails, leaving `self` as it was, where one of them cannot be
    /// reanchored.
    pub fn reanchor(&mut self, target: &MultiLocation, ancestry: &MultiLocation) -> (r: Result<
        (),
        (),
    >)
        ensures
            match old(self)@ {
                MultiAssetFilterView::Definite(assets) => if all_reanchor(
                    assets,
                    target@,
                    ancestry@,
                ) {
                    r is Ok && final(self)@ == MultiAssetFilterView::Definite(
                        reanchored(assets, target@, ancestry@),
                    )
                } else {
                    r is Err && *final(self) == *old(self)
                },
                MultiAssetFilterView::Wild(wild) => match wild.reanchor(target@, ancestry@) {
                    Some(seen) => r is Ok && final(self)@ == MultiAssetFilterView::Wild(seen),
                    None => r is Err && *final(self) == *old(self),
                },
            },
    {
        match self {
            MultiAssetFilter::Definite(assets) => assets.reanchor(target, ancestry),
            MultiAssetFilter::Wild(wild) => wild.reanchor(target, ancestry),
        }
    }
}

impl PartialEq for WildMultiAsset {
    fn eq(&self, other: &WildMultiAsset) -> (r: bool) {
        match (self, other) {
            (WildMultiAsset::All, WildMultiAsset::All) => true,
            (
                WildMultiAsset::AllOf { id: a, fun: x },
                WildMultiAsset::AllOf { id: b, fun: y },
            ) => a == b && *x == *y,
            _ => false,
        }
    }
}

/// Two values are equal exactly when their views are.
impl vstd::std_specs::cmp::PartialEqSpecImpl for WildMultiAsset {
    open spec fn obeys_eq_spec() -> bool {
        true
    }

    open spec fn eq_spec(&self, other: &WildMultiAsset) -> bool {
        self@ == other@
    }
}

impl PartialEq for MultiAssets {
    fn eq(&self, other: &MultiAssets) -> (r: bool) {
        if self.0.len() != other.0.len() {
            assert(self@.len() != other@.len());
            return false;
        }
        let mut i: usize = 0;
        while i < self.0.len()
            invariant
                i <= self.0@.len(),
                self.0@.len() == other.0@.len(),
                forall|j: int| 0 <= j < i ==> self@[j] == other@[j],
            decreases self.0@.len() - i,
        {
            if self.0[i] != other.0[i] {
                assert(self@[i as int] != other@[i as int]);
                return false;
            }
            i = i + 1;
        }
        assert(self@ =~= other@);
        true
    }
}

/// Two values are equal exactly when their views are.
impl vstd::std_specs::cmp::PartialEqSpecImpl for MultiAssets {
    open spec fn obeys_eq_spec() -> bool {
        true
    }

    open spec fn eq_spec(&self, other: &MultiAssets) -> bool {
        self@ == other@
    }
}

impl PartialEq for MultiAssetFilter {
    fn eq(&self, other: &MultiAssetFilter) -> (r: bool) {
        match (self, other) {
            (MultiAssetFilter::Definite(a), MultiAssetFilter::Definite(b)) => a == b,
            (MultiAssetFilter::Wild(a), MultiAssetFilter::Wild(b)) => a == b,
            _ => false,
        }
    }
}

/// Two values are equal exactly when their views are.
impl vstd::std_specs::cmp::PartialEqSpecImpl for MultiAssetFilter {
    open spec fn obeys_eq_spec() -> bool {
        true
    }

    open spec fn eq_spec(&self, other: &MultiAssetFilter) -> bool {
        self@ == other@
    }
}

} // verus!
