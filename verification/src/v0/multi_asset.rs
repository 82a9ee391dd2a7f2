//! Assets and asset wildcards as one type.

use crate::bytes::{bytes_eq, bytes_to_vec};
use crate::seqs::views;
use crate::v0::junction::JunctionView;
use crate::v0::multi_location::{path_of_location, path_prepend, MultiLocation};
use crate::v1::multiasset::{
    AssetId, AssetIdView, AssetInstance, AssetInstanceView, Fungibility, FungibilityView,
    MultiAsset as MultiAsset1, MultiAssetFilter, MultiAssetFilterView,
    MultiAssetView as MultiAssetView1, MultiAssets, WildFungibility, WildMultiAsset,
    WildMultiAssetView,
};
use vstd::prelude::*;

verus! {

/// A single general identifier for an asset.
///
/// Represents both fungible and non-fungible assets. May only be used to
/// represent a single asset class. Wildcards may or may not be allowed by
/// the interpreting context.
#[derive(Debug)]
#[allow(inconsistent_fields)]
pub enum MultiAsset {
    /// No assets. Rarely used.
    Nothing,
    /// All assets.
    All,
    /// All fungible assets.
    AllFungible,
    /// All non-fungible assets.
    AllNonFungible,
    /// All fungible assets of a given abstract asset `id`entifier.
    AllAbstractFungible { id: Vec<u8> },
    /// All non-fungible assets of a given abstract asset `class`.
    AllAbstractNonFungible { class: Vec<u8> },
    /// All fungible assets of a given concrete asset `id`entifier.
    AllConcreteFungible { id: MultiLocation },
    /// All non-fungible assets of a given concrete asset `class`.
    AllConcreteNonFungible { class: MultiLocation },
    /// Some specific `amount` of the fungible asset identified by an
    /// abstract `id`.
    AbstractFungible { id: Vec<u8>, amount: u128 },
    /// Some specific `instance` of the non-fungible asset whose `class` is
    /// identified abstractly.
    AbstractNonFungible { class: Vec<u8>, instance: AssetInstance },
    /// Some specific `amount` of the fungible asset identified by an
    /// concrete `id`.
    ConcreteFungible { id: MultiLocation, amount: u128 },
    /// Some specific `instance` of the non-fungible asset whose `class` is
    /// identified concretely.
    ConcreteNonFungible { class: MultiLocation, instance: AssetInstance },
}

/// The mathematical value of a [`MultiAsset`].
#[allow(inconsistent_fields)]
pub enum MultiAssetView {
    Nothing,
    All,
    AllFungible,
    AllNonFungible,
    AllAbstractFungible { id: Seq<u8> },
    AllAbstractNonFungible { class: Seq<u8> },
    AllConcreteFungible { id: Seq<JunctionView> },
    AllConcreteNonFungible { class: Seq<JunctionView> },
    AbstractFungible { id: Seq<u8>, amount: u128 },
    AbstractNonFungible { class: Seq<u8>, instance: AssetInstanceView },
    ConcreteFungible { id: Seq<JunctionView>, amount: u128 },
    ConcreteNonFungible { class: Seq<JunctionView>, instance: AssetInstanceView },
}

impl View for MultiAsset {
    type V = MultiAssetView;

    open spec fn view(&self) -> MultiAssetView {
        match self {
            MultiAsset::Nothing => MultiAssetView::Nothing,
            MultiAsset::All => MultiAssetView::All,
            MultiAsset::AllFungible => MultiAssetView::AllFungible,
            MultiAsset::AllNonFungible => MultiAssetView::AllNonFungible,
            MultiAsset::AllAbstractFungible { id } => MultiAssetView::AllAbstractFungible {
                id: id@,
            },
            MultiAsset::AllAbstractNonFungible { class } => MultiAssetView::AllAbstractNonFungible {
                class: class@,
            },
            MultiAsset::AllConcreteFungible { id } => MultiAssetView::AllConcreteFungible {
                id: id@,
            },
            MultiAsset::AllConcreteNonFungible { class } => MultiAssetView::AllConcreteNonFungible {
                class: class@,
            },
            MultiAsset::AbstractFungible { id, amount } => MultiAssetView::AbstractFungible {
                id: id@,
                amount: *amount,
            },
            MultiAsset::AbstractNonFungible { class, instance } => {
                MultiAssetView::AbstractNonFungible { class: class@, instance: instance@ }
            },
            MultiAsset::ConcreteFungible { id, amount } => MultiAssetView::ConcreteFungible {
                id: id@,
                amount: *amount,
            },
            MultiAsset::ConcreteNonFungible { class, instance } => {
                MultiAssetView::ConcreteNonFungible { class: class@, instance: instance@ }
            },
        }
    }
}

impl MultiAssetView {
    /// Whether the value is a wildcard, which can refer to classes of
    /// assets instead of just one.
    pub open spec fn is_wildcard(self) -> bool {
        match self {
            MultiAssetView::Nothing
            | MultiAssetView::AbstractFungible { .. }
            | MultiAssetView::AbstractNonFungible { .. }
            | MultiAssetView::ConcreteFungible { .. }
            | MultiAssetView::ConcreteNonFungible { .. } => false,
            _ => true,
        }
    }

    /// Whether the value stands for no asset: `Nothing`, or an amount of
    /// zero.
    pub open spec fn is_none(self) -> bool {
        match self {
            MultiAssetView::Nothing => true,
            MultiAssetView::AbstractFungible { amount, .. } => amount == 0,
            MultiAssetView::ConcreteFungible { amount, .. } => amount == 0,
            _ => false,
        }
    }

    /// Whether the value is of the fungible kind, or `All`.
    pub open spec fn is_fungible(self) -> bool {
        match self {
            MultiAssetView::All
            | MultiAssetView::AllFungible
            | MultiAssetView::AllAbstractFungible { .. }
            | MultiAssetView::AllConcreteFungible { .. }
            | MultiAssetView::AbstractFungible { .. }
            | MultiAssetView::ConcreteFungible { .. } => true,
            _ => false,
        }
    }

    /// Whether the value is of the non-fungible kind, or `All`.
    pub open spec fn is_non_fungible(self) -> bool {
        match self {
            MultiAssetView::All
            | MultiAssetView::AllNonFungible
            | MultiAssetView::AllAbstractNonFungible { .. }
            | MultiAssetView::AllConcreteNonFungible { .. }
            | MultiAssetView::AbstractNonFungible { .. }
            | MultiAssetView::ConcreteNonFungible { .. } => true,
            _ => false,
        }
    }

    /// Whether the value is of the fungible that `id` names concretely, or
    /// is `AllFungible`.
    pub open spec fn is_concrete_fungible(self, id: Seq<JunctionView>) -> bool {
        match self {
            MultiAssetView::AllFungible => true,
            MultiAssetView::AllConcreteFungible { id: i } => i == id,
            MultiAssetView::ConcreteFungible { id: i, .. } => i == id,
            _ => false,
        }
    }

    /// Whether the value is of the fungible that `id` names abstractly, or
    /// is `AllFungible`.
    pub open spec fn is_abstract_fungible(self, id: Seq<u8>) -> bool {
        match self {
            MultiAssetView::AllFungible => true,
            MultiAssetView::AllAbstractFungible { id: i } => i == id,
            MultiAssetView::AbstractFungible { id: i, .. } => i == id,
            _ => false,
        }
    }

    /// Whether the value is of the non-fungible class that `class` names
    /// concretely, or is `AllNonFungible`.
    pub open spec fn is_concrete_non_fungible(self, class: Seq<JunctionView>) -> bool {
        match self {
            MultiAssetView::AllNonFungible => true,
            MultiAssetView::AllConcreteNonFungible { class: i } => i == class,
            MultiAssetView::ConcreteNonFungible { class: i, .. } => i == class,
            _ => false,
        }
    }

    /// Whether the value is of the non-fungible class that `class` names
    /// abstractly, or is `AllNonFungible`.
    pub open spec fn is_abstract_non_fungible(self, class: Seq<u8>) -> bool {
        match self {
            MultiAssetView::AllNonFungible => true,
            MultiAssetView::AllAbstractNonFungible { class: i } => i == class,
            MultiAssetView::AbstractNonFungible { class: i, .. } => i == class,
            _ => false,
        }
    }

    /// Whether `self` is a super-set of `inner`. No wildcard is contained
    /// in anything; what stands for no asset is contained in everything;
    /// `All` contains every other value that is no wildcard, and what
    /// stands for no asset contains nothing else. A wildcard of a kind
    /// contains the assets of that kind, a wildcard of a class those of
    /// that class; an amount contains the amounts of the same fungible
    /// that are no greater, and an instance contains itself.
    pub open spec fn contains(self, inner: MultiAssetView) -> bool {
        if inner.is_wildcard() {
            false
        } else if inner.is_none() {
            true
        } else if self is All {
            true
        } else if self.is_none() {
            false
        } else {
            match self {
                MultiAssetView::AllFungible => inner.is_fungible(),
                MultiAssetView::AllNonFungible => inner.is_non_fungible(),
                MultiAssetView::AllConcreteFungible { id } => inner.is_concrete_fungible(id),
                MultiAssetView::AllAbstractFungible { id } => inner.is_abstract_fungible(id),
                MultiAssetView::AllConcreteNonFungible { class } => inner.is_concrete_non_fungible(
                    class,
                ),
                MultiAssetView::AllAbstractNonFungible { class } => inner.is_abstract_non_fungible(
                    class,
                ),
                MultiAssetView::ConcreteFungible { id, amount } => {
                    inner matches MultiAssetView::ConcreteFungible {
                        id: inner_id,
                        amount: inner_amount,
                    } && inner_id == id && amount >= inner_amount
                },
                MultiAssetView::AbstractFungible { id, amount } => {
                    inner matches MultiAssetView::AbstractFungible {
                        id: inner_id,
                        amount: inner_amount,
                    } && inner_id == id && amount >= inner_amount
                },
                MultiAssetView::ConcreteNonFungible { .. } => self == inner,
                MultiAssetView::AbstractNonFungible { .. } => self == inner,
                _ => false,
            }
        }
    }

    /// The value with `prefix` put before its location, where it names an
    /// asset or a class concretely; any other value as it is. `None` where
    /// the location cannot take the prefix.
    pub open spec fn reanchor(self, prefix: Seq<JunctionView>) -> Option<MultiAssetView> {
        match self {
            MultiAssetView::AllConcreteFungible { id } => match path_prepend(id, prefix) {
                Some(id) => Some(MultiAssetView::AllConcreteFungible { id }),
                None => None,
            },
            MultiAssetView::AllConcreteNonFungible { class } => match path_prepend(class, prefix) {
                Some(class) => Some(MultiAssetView::AllConcreteNonFungible { class }),
                None => None,
            },
            MultiAssetView::ConcreteFungible { id, amount } => match path_prepend(id, prefix) {
                Some(id) => Some(MultiAssetView::ConcreteFungible { id, amount }),
                None => None,
            },
            MultiAssetView::ConcreteNonFungible { class, instance } => match path_prepend(
                class,
                prefix,
            ) {
                Some(class) => Some(MultiAssetView::ConcreteNonFungible { class, instance }),
                None => None,
            },
            _ => Some(self),
        }
    }
}

/// No wildcard is contained in anything, not in `All` and not in itself.
pub proof fn lemma_wildcard_never_contained(outer: MultiAssetView, inner: MultiAssetView)
    requires
        inner.is_wildcard(),
    ensures
        !outer.contains(inner),
{
}

/// `All` contains every value that is no wildcard.
pub proof fn lemma_all_contains_every_definite(inner: MultiAssetView)
    requires
        !inner.is_wildcard(),
    ensures
        MultiAssetView::All.contains(inner),
{
}

/// What stands for no asset is contained in everything.
pub proof fn lemma_none_contained_in_everything(outer: MultiAssetView, inner: MultiAssetView)
    requires
        inner.is_none(),
    ensures
        outer.contains(inner),
{
}

impl MultiAsset {
    /// Returns `true` if the `MultiAsset` is a wildcard and can refer to
    /// classes of assets, instead of just one.
    pub fn is_wildcard(&self) -> (r: bool)
        ensures
            r == self@.is_wildcard(),
    {
        match self {
            MultiAsset::Nothing
            | MultiAsset::AbstractFungible { .. }
            | MultiAsset::AbstractNonFungible { .. }
            | MultiAsset::ConcreteFungible { .. }
            | MultiAsset::ConcreteNonFungible { .. } => false,
            MultiAsset::All
            | MultiAsset::AllFungible
            | MultiAsset::AllNonFungible
            | MultiAsset::AllAbstractFungible { .. }
            | MultiAsset::AllConcreteFungible { .. }
            | MultiAsset::AllAbstractNonFungible { .. }
            | MultiAsset::AllConcreteNonFungible { .. } => true,
        }
    }

    fn is_none(&self) -> (r: bool)
        ensures
            r == self@.is_none(),
    {
        match self {
            MultiAsset::Nothing => true,
            MultiAsset::AbstractFungible { amount, .. } => *amount == 0,
            MultiAsset::ConcreteFungible { amount, .. } => *amount == 0,
            _ => false,
        }
    }

    fn is_fungible(&self) -> (r: bool)
        ensures
            r == self@.is_fungible(),
    {
        match self {
            MultiAsset::All
            | MultiAsset::AllFungible
            | MultiAsset::AllAbstractFungible { .. }
            | MultiAsset::AllConcreteFungible { .. }
            | MultiAsset::AbstractFungible { .. }
            | MultiAsset::ConcreteFungible { .. } => true,
            _ => false,
        }
    }

    fn is_non_fungible(&self) -> (r: bool)
        ensures
            r == self@.is_non_fungible(),
    {
        match self {
            MultiAsset::All
            | MultiAsset::AllNonFungible
            | MultiAsset::AllAbstractNonFungible { .. }
            | MultiAsset::AllConcreteNonFungible { .. }
            | MultiAsset::AbstractNonFungible { .. }
            | MultiAsset::ConcreteNonFungible { .. } => true,
            _ => false,
        }
    }

    fn is_concrete_fungible(&self, id: &MultiLocation) -> (r: bool)
        ensures
            r == self@.is_concrete_fungible(id@),
    {
        match self {
            MultiAsset::AllFungible => true,
            MultiAsset::AllConcreteFungible { id: i } => i == id,
            MultiAsset::ConcreteFungible { id: i, .. } => i == id,
            _ => false,
        }
    }

    fn is_abstract_fungible(&self, id: &[u8]) -> (r: bool)
        ensures
            r == self@.is_abstract_fungible(id@),
    {
        match self {
            MultiAsset::AllFungible => true,
            MultiAsset::AllAbstractFungible { id: i } => bytes_eq(i.as_slice(), id),
            MultiAsset::AbstractFungible { id: i, .. } => bytes_eq(i.as_slice(), id),
            _ => false,
        }
    }

    fn is_concrete_non_fungible(&self, class: &MultiLocation) -> (r: bool)
        ensures
            r == self@.is_concrete_non_fungible(class@),
    {
        match self {
            MultiAsset::AllNonFungible => true,
            MultiAsset::AllConcreteNonFungible { class: i } => i == class,
            MultiAsset::ConcreteNonFungible { class: i, .. } => i == class,
            _ => false,
        }
    }

    fn is_abstract_non_fungible(&self, class: &[u8]) -> (r: bool)
        ensures
            r == self@.is_abstract_non_fungible(class@),
    {
        match self {
            MultiAsset::AllNonFungible => true,
            MultiAsset::AllAbstractNonFungible { class: i } => bytes_eq(i.as_slice(), class),
            MultiAsset::AbstractNonFungible { class: i, .. } => bytes_eq(i.as_slice(), class),
            _ => false,
        }
    }

    fn is_all(&self) -> (r: bool)
        ensures
            r == (self@ is All),
    {
        matches!(self, MultiAsset::All)
    }

    /// Returns true if `self` is a super-set of the given `inner`.
    ///
    /// Typically, any wildcard is never contained in anything else, and a
    /// wildcard can contain any other non-wildcard.
    pub fn contains(&self, inner: &MultiAsset) -> (r: bool)
        ensures
            r == self@.contains(inner@),
    {
        // Inner cannot be wild
        if inner.is_wildcard() {
            return false;
        }
        // Everything contains nothing.
        if inner.is_none() {
            return true;
        }
        // Everything contains anything.
        if self.is_all() {
            return true;
        }
        // Nothing contains nothing.
        if self.is_none() {
            return false;
        }
        match self {
            // Anything fungible contains "all fungibles"
            MultiAsset::AllFungible => inner.is_fungible(),
            // Anything non-fungible contains "all non-fungibles"
            MultiAsset::AllNonFungible => inner.is_non_fungible(),
            MultiAsset::AllConcreteFungible { id } => inner.is_concrete_fungible(id),
            MultiAsset::AllAbstractFungible { id } => inner.is_abstract_fungible(id.as_slice()),
            MultiAsset::AllConcreteNonFungible { class } => inner.is_concrete_non_fungible(class),
            MultiAsset::AllAbstractNonFungible { class } => inner.is_abstract_non_fungible(
                class.as_slice(),
            ),
            MultiAsset::ConcreteFungible { id, amount } => match inner {
                MultiAsset::ConcreteFungible { id: inner_id, amount: inner_amount } => inner_id
                    == id && *amount >= *inner_amount,
                _ => false,
            },
            MultiAsset::AbstractFungible { id, amount } => match inner {
                MultiAsset::AbstractFungible { id: inner_id, amount: inner_amount } => bytes_eq(
                    inner_id.as_slice(),
                    id.as_slice(),
                ) && *amount >= *inner_amount,
                _ => false,
            },
            MultiAsset::ConcreteNonFungible { .. } => self == inner,
            MultiAsset::AbstractNonFungible { .. } => self == inner,
            _ => false,
        }
    }

    /// Puts `prepend` before the location by which the value names an
    /// asset or a class concretely; any other value stays as it is. Fails,
    /// leaving `self` as it was, where the location cannot take the
    /// prefix.
    pub fn reanchor(&mut self, prepend: &MultiLocation) -> (r: Result<(), ()>)
        ensures
            match old(self)@.reanchor(prepend@) {
                Some(moved) => r is Ok && final(self)@ == moved,
                None => r is Err && *final(self) == *old(self),
            },
    {
        match self {
            MultiAsset::AllConcreteFungible { id } => match id.prepend_with(prepend.clone()) {
                Ok(()) => Ok(()),
                Err(_) => Err(()),
            },
            MultiAsset::AllConcreteNonFungible { class } => match class.prepend_with(
                prepend.clone(),
            ) {
                Ok(()) => Ok(()),
                Err(_) => Err(()),
            },
            MultiAsset::ConcreteFungible { id, .. } => match id.prepend_with(prepend.clone()) {
                Ok(()) => Ok(()),
                Err(_) => Err(()),
            },
            MultiAsset::ConcreteNonFungible { class, .. } => match class.prepend_with(
                prepend.clone(),
            ) {
                Ok(()) => Ok(()),
                Err(_) => Err(()),
            },
            _ => Ok(()),
        }
    }
}

impl PartialEq for MultiAsset {
    fn eq(&self, other: &MultiAsset) -> (r: bool) {
        match (self, other) {
            (MultiAsset::Nothing, MultiAsset::Nothing) => true,
            (MultiAsset::All, MultiAsset::All) => true,
            (MultiAsset::AllFungible, MultiAsset::AllFungible) => true,
            (MultiAsset::AllNonFungible, MultiAsset::AllNonFungible) => true,
            (MultiAsset::AllAbstractFungible { id: a }, MultiAsset::AllAbstractFungible { id: b }) => {
                bytes_eq(a.as_slice(), b.as_slice())
            },
            (
                MultiAsset::AllAbstractNonFungible { class: a },
                MultiAsset::AllAbstractNonFungible { class: b },
            ) => bytes_eq(a.as_slice(), b.as_slice()),
            (MultiAsset::AllConcreteFungible { id: a }, MultiAsset::AllConcreteFungible { id: b }) => {
                a == b
            },
            (
                MultiAsset::AllConcreteNonFungible { class: a },
                MultiAsset::AllConcreteNonFungible { class: b },
            ) => a == b,
            (
                MultiAsset::AbstractFungible { id: a, amount: x },
                MultiAsset::AbstractFungible { id: b, amount: y },
            ) => bytes_eq(a.as_slice(), b.as_slice()) && *x == *y,
            (
                MultiAsset::AbstractNonFungible { class: a, instance: x },
                MultiAsset::AbstractNonFungible { class: b, instance: y },
            ) => bytes_eq(a.as_slice(), b.as_slice()) && x == y,
            (
                MultiAsset::ConcreteFungible { id: a, amount: x },
                MultiAsset::ConcreteFungible { id: b, amount: y },
            ) => a == b && *x == *y,
            (
                MultiAsset::ConcreteNonFungible { class: a, instance: x },
                MultiAsset::ConcreteNonFungible { class: b, instance: y },
            ) => a == b && x == y,
            _ => false,
        }
    }
}

/// Two values are equal exactly when their views are.
impl vstd::std_specs::cmp::PartialEqSpecImpl for MultiAsset {
    open spec fn obeys_eq_spec() -> bool {
        true
    }

    open spec fn eq_spec(&self, other: &MultiAsset) -> bool {
        self@ == other@
    }
}

impl Clone for MultiAsset {
    fn clone(&self) -> (r: MultiAsset)
        ensures
            r@ == self@,
    {
        match self {
            MultiAsset::Nothing => MultiAsset::Nothing,
            MultiAsset::All => MultiAsset::All,
            MultiAsset::AllFungible => MultiAsset::AllFungible,
            MultiAsset::AllNonFungible => MultiAsset::AllNonFungible,
            MultiAsset::AllAbstractFungible { id } => MultiAsset::AllAbstractFungible {
                id: bytes_to_vec(id.as_slice()),
            },
            MultiAsset::AllAbstractNonFungible { class } => MultiAsset::AllAbstractNonFungible {
                class: bytes_to_vec(class.as_slice()),
            },
            MultiAsset::AllConcreteFungible { id } => MultiAsset::AllConcreteFungible {
                id: id.clone(),
            },
            MultiAsset::AllConcreteNonFungible { class } => MultiAsset::AllConcreteNonFungible {
                class: class.clone(),
            },
            MultiAsset::AbstractFungible { id, amount } => MultiAsset::AbstractFungible {
                id: bytes_to_vec(id.as_slice()),
                amount: *amount,
            },
            MultiAsset::AbstractNonFungible { class, instance } => MultiAsset::AbstractNonFungible {
                class: bytes_to_vec(class.as_slice()),
                instance: instance.clone(),
            },
            MultiAsset::ConcreteFungible { id, amount } => MultiAsset::ConcreteFungible {
                id: id.clone(),
                amount: *amount,
            },
            MultiAsset::ConcreteNonFungible { class, instance } => MultiAsset::ConcreteNonFungible {
                class: class.clone(),
                instance: instance.clone(),
            },
        }
    }
}

/// The value of the first generation that stands for the asset `m`.
/// `None` where the location of a concrete identifier has no path.
pub open spec fn asset_to_v0(m: MultiAssetView1) -> Option<MultiAssetView> {
    match (m.id, m.fun) {
        (AssetIdView::Concrete(location), FungibilityView::Fungible(amount)) => {
            match path_of_location(location) {
                Some(id) => Some(MultiAssetView::ConcreteFungible { id, amount }),
                None => None,
            }
        },
        (AssetIdView::Concrete(location), FungibilityView::NonFungible(instance)) => {
            match path_of_location(location) {
                Some(class) => Some(MultiAssetView::ConcreteNonFungible { class, instance }),
                None => None,
            }
        },
        (AssetIdView::Abstract(id), FungibilityView::Fungible(amount)) => Some(
            MultiAssetView::AbstractFungible { id, amount },
        ),
        (AssetIdView::Abstract(class), FungibilityView::NonFungible(instance)) => Some(
            MultiAssetView::AbstractNonFungible { class, instance },
        ),
    }
}

/// The wildcard of the first generation that stands for `w`. `None` where
/// the location of a concrete identifier has no path.
pub open spec fn wild_to_v0(w: WildMultiAssetView) -> Option<MultiAssetView> {
    match w {
        WildMultiAssetView::All => Some(MultiAssetView::All),
        WildMultiAssetView::AllOf { id: AssetIdView::Concrete(location), fun } => {
            match path_of_location(location) {
                Some(path) => Some(
                    match fun {
                        WildFungibility::Fungible => MultiAssetView::AllConcreteFungible {
                            id: path,
                        },
                        WildFungibility::NonFungible => MultiAssetView::AllConcreteNonFungible {
                            class: path,
                        },
                    },
                ),
                None => None,
            }
        },
        WildMultiAssetView::AllOf { id: AssetIdView::Abstract(name), fun } => Some(
            match fun {
                WildFungibility::Fungible => MultiAssetView::AllAbstractFungible { id: name },
                WildFungibility::NonFungible => MultiAssetView::AllAbstractNonFungible {
                    class: name,
                },
            },
        ),
    }
}

/// The values of the first generation that stand for the assets of `s`,
/// one for one. `None` where one of them has none.
pub open spec fn assets_to_v0(s: Seq<MultiAssetView1>) -> Option<Seq<MultiAssetView>> {
    if forall|i: int| 0 <= i < s.len() ==> asset_to_v0(#[trigger] s[i]) is Some {
        Some(Seq::new(s.len(), |i: int| asset_to_v0(s[i]).unwrap()))
    } else {
        None
    }
}

/// The list of the first generation that stands for the filter `f`: the
/// assets of a definite filter, or the one wildcard.
pub open spec fn filter_to_v0(f: MultiAssetFilterView) -> Option<Seq<MultiAssetView>> {
    match f {
        MultiAssetFilterView::Definite(assets) => assets_to_v0(assets),
        MultiAssetFilterView::Wild(wild) => match wild_to_v0(wild) {
            Some(old) => Some(seq![old]),
            None => None,
        },
    }
}

/// Whether the locations in `m` hold no step to the parent in their
/// interior, as the locations of every asset do.
pub open spec fn interior_only(m: MultiAssetView1) -> bool {
    m.id matches AssetIdView::Concrete(location) ==> forall|i: int|
        0 <= i < location.interior.len() ==> !location.interior[i].is_parent()
}

/// An asset that has a value of the first generation is the asset that
/// this value stands for.
pub proof fn lemma_asset_there_and_back(m: MultiAssetView1)
    requires
        asset_to_v0(m) is Some,
        interior_only(m),
    ensures
        crate::v1::from_v0::asset_from_v0(asset_to_v0(m).unwrap()) == Some(m),
{
    if m.id is Concrete {
        crate::v0::multi_location::lemma_location_of_path_of_location(m.id->Concrete_0);
    }
}

impl TryFrom<MultiAsset1> for MultiAsset {
    type Error = ();

    /// The value that stands for the asset `m`. Fails where the location of
    /// a concrete identifier has no path of the first generation.
    fn try_from(m: MultiAsset1) -> (r: Result<MultiAsset, ()>)
        ensures
            match asset_to_v0(m@) {
                Some(old) => r matches Ok(found) && found@ == old,
                None => r is Err,
            },
    {
        match (m.id, m.fun) {
            (AssetId::Concrete(id), Fungibility::Fungible(amount)) => match MultiLocation::try_from(
                id,
            ) {
                Ok(id) => Ok(MultiAsset::ConcreteFungible { id, amount }),
                Err(()) => Err(()),
            },
            (AssetId::Concrete(class), Fungibility::NonFungible(instance)) => {
                match MultiLocation::try_from(class) {
                    Ok(class) => Ok(MultiAsset::ConcreteNonFungible { class, instance }),
                    Err(()) => Err(()),
                }
            },
            (AssetId::Abstract(id), Fungibility::Fungible(amount)) => Ok(
                MultiAsset::AbstractFungible { id, amount },
            ),
            (AssetId::Abstract(class), Fungibility::NonFungible(instance)) => Ok(
                MultiAsset::AbstractNonFungible { class, instance },
            ),
        }
    }
}

/// The conversion gives a value made anew, which no `spec` function can
/// name: it is specified by the `ensures` of its own, over views.
impl vstd::std_specs::convert::TryFromSpecImpl<MultiAsset1> for MultiAsset {
    open spec fn obeys_try_from_spec() -> bool {
        false
    }

    open spec fn try_from_spec(m: MultiAsset1) -> Result<MultiAsset, ()> {
        arbitrary()
    }
}

impl TryFrom<MultiAssets> for Vec<MultiAsset> {
    type Error = ();

    /// The values that stand for the assets of `m`, one for one. Fails
    /// where one of them has none.
    fn try_from(m: MultiAssets) -> (r: Result<Vec<MultiAsset>, ()>)
        ensures
            match assets_to_v0(m@) {
                Some(old) => r matches Ok(found) && views(found@) == old,
                None => r is Err,
            },
    {
        let ghost whole = m@;
        let mut rest = m.drain();
        let mut out: Vec<MultiAsset> = Vec::new();
        assert(views(rest@) =~= whole.skip(0));
        while rest.len() > 0
            invariant
                whole == m@,
                out@.len() + rest@.len() == whole.len(),
                views(rest@) == whole.skip(out@.len() as int),
                forall|j: int| 0 <= j < out@.len() ==> asset_to_v0(#[trigger] whole[j]) == Some(
                    out@[j]@,
                ),
            decreases rest@.len(),
        {
            let ghost done = out@.len() as int;
            let ghost left = rest@;
            assert(views(left)[0] == whole.skip(done)[0]);
            let asset = rest.remove(0);
            proof {
                assert(rest@ =~= left.subrange(1, left.len() as int));
                crate::seqs::lemma_views_subrange(left, 1, left.len() as int);
                assert(views(rest@) =~= whole.skip(done + 1));
            }
            match MultiAsset::try_from(asset) {
                Ok(old) => {
                    out.push(old);
                },
                Err(()) => {
                    assert(asset_to_v0(whole[done]) is None);
                    return Err(());
                },
            }
        }
        assert(views(out@) =~= assets_to_v0(whole).unwrap());
        Ok(out)
    }
}

/// The conversion gives a value made anew, which no `spec` function can
/// name: it is specified by the `ensures` of its own, over views.
impl vstd::std_specs::convert::TryFromSpecImpl<MultiAssets> for Vec<MultiAsset> {
    open spec fn obeys_try_from_spec() -> bool {
        false
    }

    open spec fn try_from_spec(m: MultiAssets) -> Result<Vec<MultiAsset>, ()> {
        arbitrary()
    }
}

impl TryFrom<WildMultiAsset> for MultiAsset {
    type Error = ();

    /// The wildcard that stands for `m`. Fails where the location of a
    /// concrete identifier has no path of the first generation.
    fn try_from(m: WildMultiAsset) -> (r: Result<MultiAsset, ()>)
        ensures
            match wild_to_v0(m@) {
                Some(old) => r matches Ok(found) && found@ == old,
                None => r is Err,
            },
    {
        match m {
            WildMultiAsset::All => Ok(MultiAsset::All),
            WildMultiAsset::AllOf { id, fun } => match (id, fun) {
                (AssetId::Concrete(id), WildFungibility::Fungible) => match MultiLocation::try_from(
                    id,
                ) {
                    Ok(id) => Ok(MultiAsset::AllConcreteFungible { id }),
                    Err(()) => Err(()),
                },
                (AssetId::Concrete(class), WildFungibility::NonFungible) => {
                    match MultiLocation::try_from(class) {
                        Ok(class) => Ok(MultiAsset::AllConcreteNonFungible { class }),
                        Err(()) => Err(()),
                    }
                },
                (AssetId::Abstract(id), WildFungibility::Fungible) => Ok(
                    MultiAsset::AllAbstractFungible { id },
                ),
                (AssetId::Abstract(class), WildFungibility::NonFungible) => Ok(
                    MultiAsset::AllAbstractNonFungible { class },
                ),
            },
        }
    }
}

/// The conversion gives a value made anew, which no `spec` function can
/// name: it is specified by the `ensures` of its own, over views.
impl vstd::std_specs::convert::TryFromSpecImpl<WildMultiAsset> for MultiAsset {
    open spec fn obeys_try_from_spec() -> bool {
        false
    }

    open spec fn try_from_spec(m: WildMultiAsset) -> Result<MultiAsset, ()> {
        arbitrary()
    }
}

impl TryFrom<WildMultiAsset> for Vec<MultiAsset> {
    type Error = ();

    /// The list of the one wildcard that stands for `m`.
    fn try_from(m: WildMultiAsset) -> (r: Result<Vec<MultiAsset>, ()>)
        ensures
            match wild_to_v0(m@) {
                Some(old) => r matches Ok(found) && views(found@) == seq![old],
                None => r is Err,
            },
    {
        match MultiAsset::try_from(m) {
            Ok(old) => {
                let mut out: Vec<MultiAsset> = Vec::new();
                out.push(old);
                assert(views(out@) =~= seq![old@]);
                Ok(out)
            },
            Err(()) => Err(()),
        }
    }
}

/// The conversion gives a value made anew, which no `spec` function can
/// name: it is specified by the `ensures` of its own, over views.
impl vstd::std_specs::convert::TryFromSpecImpl<WildMultiAsset> for Vec<MultiAsset> {
    open spec fn obeys_try_from_spec() -> bool {
        false
    }

    open spec fn try_from_spec(m: WildMultiAsset) -> Result<Vec<MultiAsset>, ()> {
        arbitrary()
    }
}

impl TryFrom<MultiAssetFilter> for Vec<MultiAsset> {
    type Error = ();

    /// The list that stands for the filter `m`: its assets, or its one
    /// wildcard.
    fn try_from(m: MultiAssetFilter) -> (r: Result<Vec<MultiAsset>, ()>)
        ensures
            match filter_to_v0(m@) {
                Some(old) => r matches Ok(found) && views(found@) == old,
                None => r is Err,
            },
    {
        match m {
            MultiAssetFilter::Definite(assets) => Vec::<MultiAsset>::try_from(assets),
            MultiAssetFilter::Wild(wildcard) => Vec::<MultiAsset>::try_from(wildcard),
        }
    }
}

/// The conversion gives a value made anew, which no `spec` function can
/// name: it is specified by the `ensures` of its own, over views.
impl vstd::std_specs::convert::TryFromSpecImpl<MultiAssetFilter> for Vec<MultiAsset> {
    open spec fn obeys_try_from_spec() -> bool {
        false
    }

    open spec fn try_from_spec(m: MultiAssetFilter) -> Result<Vec<MultiAsset>, ()> {
        arbitrary()
    }
}

} // verus!
