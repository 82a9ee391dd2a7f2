//! Messages and the orders they carry.

use crate::double_encoded::DoubleEncoded;
use crate::seqs::views;
use crate::v0::junction::JunctionView;
use crate::v0::message::OriginKind;
use crate::v1::junction::Junction;
use crate::v1::multiasset::{
    MultiAsset, MultiAssetFilter, MultiAssetFilterView, MultiAssetView, MultiAssets,
};
use crate::v1::multilocation::{MultiLocation, MultiLocationView};
use vstd::prelude::*;

verus! {

/// Response data to a query.
#[derive(Debug)]
pub enum Response {
    /// Some assets.
    Assets(MultiAssets),
    /// The version of the format that the responder speaks.
    Version(u32),
}

/// The mathematical value of a [`Response`].
pub enum ResponseView {
    Assets(Seq<MultiAssetView>),
    Version(u32),
}

impl View for Response {
    type V = ResponseView;

    open spec fn view(&self) -> ResponseView {
        match self {
            Response::Assets(assets) => ResponseView::Assets(assets@),
            Response::Version(version) => ResponseView::Version(*version),
        }
    }
}

/// An instruction to be executed on some or all of the assets in holding,
/// used by asset-related XCM messages.
#[derive(Debug)]
pub enum Order<Call> {
    /// Do nothing. Not generally used.
    Noop,
    /// Remove the asset(s) (`assets`) from holding and place equivalent
    /// assets under the ownership of `beneficiary` within this consensus
    /// system.
    DepositAsset { assets: MultiAssetFilter, max_assets: u32, beneficiary: MultiLocation },
    /// Remove the asset(s) (`assets`) from holding and place equivalent
    /// assets under the ownership of `dest` within this consensus system,
    /// and send an onward message of `ReserveAssetDeposited` with the given
    /// `effects`.
    DepositReserveAsset {
        assets: MultiAssetFilter,
        max_assets: u32,
        dest: MultiLocation,
        effects: Vec<Order<()>>,
    },
    /// Remove the asset(s) (`give`) from holding and replace them with
    /// alternative assets.
    ExchangeAsset { give: MultiAssetFilter, receive: MultiAssets },
    /// Remove the asset(s) (`assets`) from holding and send a
    /// `WithdrawAsset` message to a reserve location.
    InitiateReserveWithdraw {
        assets: MultiAssetFilter,
        reserve: MultiLocation,
        effects: Vec<Order<()>>,
    },
    /// Remove the asset(s) (`assets`) from holding and send a
    /// `ReceiveTeleportedAsset` message to a `dest` location.
    InitiateTeleport { assets: MultiAssetFilter, dest: MultiLocation, effects: Vec<Order<()>> },
    /// Send a `Balances` message to `dest` with the portion of the
    /// holding that `assets` selects.
    QueryHolding { query_id: u64, dest: MultiLocation, assets: MultiAssetFilter },
    /// Pay for the execution of some messages with up to `weight` of
    /// `fees`.
    BuyExecution {
        fees: MultiAsset,
        weight: u64,
        debt: u64,
        halt_on_error: bool,
        instructions: Vec<Xcm<Call>>,
    },
}

/// Cross-Consensus Message: A message from one consensus system to
/// another.
#[derive(Debug)]
#[allow(inconsistent_fields)]
pub enum Xcm<Call> {
    /// Withdraw asset(s) (`assets`) from the ownership of `origin` and
    /// place them into `holding`. Execute the orders (`effects`).
    WithdrawAsset { assets: MultiAssets, effects: Vec<Order<Call>> },
    /// Asset(s) (`assets`) have been received into the ownership of this
    /// system on the `origin` system.
    ReserveAssetDeposited { assets: MultiAssets, effects: Vec<Order<Call>> },
    /// Asset(s) (`assets`) have been destroyed on the `origin` system and
    /// equivalent assets should be created on this system.
    ReceiveTeleportedAsset { assets: MultiAssets, effects: Vec<Order<Call>> },
    /// Indication of the contents of the holding register corresponding to
    /// the `QueryHolding` order of `query_id`.
    QueryResponse { query_id: u64, response: Response },
    /// Withdraw asset(s) (`assets`) from the ownership of `origin` and
    /// place equivalent assets under the ownership of `beneficiary`.
    TransferAsset { assets: MultiAssets, beneficiary: MultiLocation },
    /// Withdraw asset(s) (`assets`) from the ownership of `origin`, place
    /// equivalent assets under the ownership of `dest`, and send an onward
    /// message to `dest` of `ReserveAssetDeposited` with the given
    /// `effects`.
    TransferReserveAsset { assets: MultiAssets, dest: MultiLocation, effects: Vec<Order<()>> },
    /// Apply the encoded transaction `call`, whose dispatch-origin should
    /// be `origin` as expressed by the kind of origin `origin_type`.
    Transact { origin_type: OriginKind, require_weight_at_most: u64, call: DoubleEncoded<Call> },
    /// A message to notify about a new incoming HRMP channel.
    HrmpNewChannelOpenRequest { sender: u32, max_message_size: u32, max_capacity: u32 },
    /// A message to notify about that a previously sent open channel
    /// request has been accepted by the recipient.
    HrmpChannelAccepted { recipient: u32 },
    /// A message to notify that the other party in an open channel decided
    /// to close it.
    HrmpChannelClosing { initiator: u32, sender: u32, recipient: u32 },
    /// A message to indicate that the embedded XCM is actually arriving on
    /// behalf of some consensus location within the origin.
    RelayedFrom { who: Vec<Junction>, message: Box<Xcm<Call>> },
    /// Ask the destination system to respond with the most recent version
    /// of the format that they support.
    SubscribeVersion { query_id: u64, max_response_weight: u64 },
    /// Cancel the effect of a previous `SubscribeVersion` instruction.
    UnsubscribeVersion,
}

/// The mathematical value of an [`Order`]: what it holds on the wire.
pub enum OrderView {
    Noop,
    DepositAsset { assets: MultiAssetFilterView, max_assets: u32, beneficiary: MultiLocationView },
    DepositReserveAsset {
        assets: MultiAssetFilterView,
        max_assets: u32,
        dest: MultiLocationView,
        effects: Seq<OrderView>,
    },
    ExchangeAsset { give: MultiAssetFilterView, receive: Seq<MultiAssetView> },
    InitiateReserveWithdraw {
        assets: MultiAssetFilterView,
        reserve: MultiLocationView,
        effects: Seq<OrderView>,
    },
    InitiateTeleport { assets: MultiAssetFilterView, dest: MultiLocationView, effects: Seq<OrderView> },
    QueryHolding { query_id: u64, dest: MultiLocationView, assets: MultiAssetFilterView },
    BuyExecution {
        fees: MultiAssetView,
        weight: u64,
        debt: u64,
        halt_on_error: bool,
        instructions: Seq<XcmView>,
    },
}

/// The mathematical value of an [`Xcm`]: what it holds on the wire. Of a
/// call it holds the encoded form.
pub enum XcmView {
    WithdrawAsset { assets: Seq<MultiAssetView>, effects: Seq<OrderView> },
    ReserveAssetDeposited { assets: Seq<MultiAssetView>, effects: Seq<OrderView> },
    ReceiveTeleportedAsset { assets: Seq<MultiAssetView>, effects: Seq<OrderView> },
    QueryResponse { query_id: u64, response: ResponseView },
    TransferAsset { assets: Seq<MultiAssetView>, beneficiary: MultiLocationView },
    TransferReserveAsset {
        assets: Seq<MultiAssetView>,
        dest: MultiLocationView,
        effects: Seq<OrderView>,
    },
    Transact { origin_type: OriginKind, require_weight_at_most: u64, call: Seq<u8> },
    HrmpNewChannelOpenRequest { sender: u32, max_message_size: u32, max_capacity: u32 },
    HrmpChannelAccepted { recipient: u32 },
    HrmpChannelClosing { initiator: u32, sender: u32, recipient: u32 },
    RelayedFrom { who: Seq<JunctionView>, message: Box<XcmView> },
    SubscribeVersion { query_id: u64, max_response_weight: u64 },
    UnsubscribeVersion,
}

/// The value of an order.
pub open spec fn order_view<Call>(order: Order<Call>) -> OrderView
    decreases order, 0int,
{
    match order {
        Order::Noop => OrderView::Noop,
        Order::DepositAsset { assets, max_assets, beneficiary } => OrderView::DepositAsset {
            assets: assets@,
            max_assets,
            beneficiary: beneficiary@,
        },
        Order::DepositReserveAsset {
            assets,
            max_assets,
            dest,
            effects,
        } => OrderView::DepositReserveAsset {
            assets: assets@,
            max_assets,
            dest: dest@,
            effects: orders_view(effects, effects@.len() as int),
        },
        Order::ExchangeAsset { give, receive } => OrderView::ExchangeAsset {
            give: give@,
            receive: receive@,
        },
        Order::InitiateReserveWithdraw {
            assets,
            reserve,
            effects,
        } => OrderView::InitiateReserveWithdraw {
            assets: assets@,
            reserve: reserve@,
            effects: orders_view(effects, effects@.len() as int),
        },
        Order::InitiateTeleport { assets, dest, effects } => OrderView::InitiateTeleport {
            assets: assets@,
            dest: dest@,
            effects: orders_view(effects, effects@.len() as int),
        },
        Order::QueryHolding { query_id, dest, assets } => OrderView::QueryHolding {
            query_id,
            dest: dest@,
            assets: assets@,
        },
        Order::BuyExecution {
            fees,
            weight,
            debt,
            halt_on_error,
            instructions,
        } => OrderView::BuyExecution {
            fees: fees@,
            weight,
            debt,
            halt_on_error,
            instructions: xcms_view(instructions, instructions@.len() as int),
        },
    }
}

/// The values of the first `n` orders of `orders`.
pub open spec fn orders_view<Call>(orders: Vec<Order<Call>>, n: int) -> Seq<OrderView>
    decreases orders, n,
{
    if 0 < n <= orders@.len() {
        orders_view(orders, n - 1).push(order_view(orders@[n - 1]))
    } else {
        Seq::empty()
    }
}

/// The value of a message.
pub open spec fn xcm_view<Call>(xcm: Xcm<Call>) -> XcmView
    decreases xcm, 0int,
{
    match xcm {
        Xcm::WithdrawAsset { assets, effects } => XcmView::WithdrawAsset {
            assets: assets@,
            effects: orders_view(effects, effects@.len() as int),
        },
        Xcm::ReserveAssetDeposited { assets, effects } => XcmView::ReserveAssetDeposited {
            assets: assets@,
            effects: orders_view(effects, effects@.len() as int),
        },
        Xcm::ReceiveTeleportedAsset { assets, effects } => XcmView::ReceiveTeleportedAsset {
            assets: assets@,
            effects: orders_view(effects, effects@.len() as int),
        },
        Xcm::QueryResponse { query_id, response } => XcmView::QueryResponse {
            query_id,
            response: response@,
        },
        Xcm::TransferAsset { assets, beneficiary } => XcmView::TransferAsset {
            assets: assets@,
            beneficiary: beneficiary@,
        },
        Xcm::TransferReserveAsset { assets, dest, effects } => XcmView::TransferReserveAsset {
            assets: assets@,
            dest: dest@,
            effects: orders_view(effects, effects@.len() as int),
        },
        Xcm::Transact { origin_type, require_weight_at_most, call } => XcmView::Transact {
            origin_type,
            require_weight_at_most,
            call: call@,
        },
        Xcm::HrmpNewChannelOpenRequest {
            sender,
            max_message_size,
            max_capacity,
        } => XcmView::HrmpNewChannelOpenRequest { sender, max_message_size, max_capacity },
        Xcm::HrmpChannelAccepted { recipient } => XcmView::HrmpChannelAccepted { recipient },
        Xcm::HrmpChannelClosing { initiator, sender, recipient } => XcmView::HrmpChannelClosing {
            initiator,
            sender,
            recipient,
        },
        Xcm::RelayedFrom { who, message } => XcmView::RelayedFrom {
            who: views(who@),
            message: Box::new(xcm_view(*message)),
        },
        Xcm::SubscribeVersion { query_id, max_response_weight } => XcmView::SubscribeVersion {
            query_id,
            max_response_weight,
        },
        Xcm::UnsubscribeVersion => XcmView::UnsubscribeVersion,
    }
}

/// The values of the first `n` messages of `xcms`.
pub open spec fn xcms_view<Call>(xcms: Vec<Xcm<Call>>, n: int) -> Seq<XcmView>
    decreases xcms, n,
{
    if 0 < n <= xcms@.len() {
        xcms_view(xcms, n - 1).push(xcm_view(xcms@[n - 1]))
    } else {
        Seq::empty()
    }
}

/// The values of the first `n` orders are those of the orders one by one.
pub proof fn lemma_orders_view<Call>(orders: Vec<Order<Call>>, n: int)
    requires
        0 <= n <= orders@.len(),
    ensures
        orders_view(orders, n).len() == n,
        forall|i: int| 0 <= i < n ==> orders_view(orders, n)[i] == order_view(orders@[i]),
    decreases n,
{
    if n > 0 {
        lemma_orders_view(orders, n - 1);
    }
}

/// The values of the first `n` messages are those of the messages one by
/// one.
pub proof fn lemma_xcms_view<Call>(xcms: Vec<Xcm<Call>>, n: int)
    requires
        0 <= n <= xcms@.len(),
    ensures
        xcms_view(xcms, n).len() == n,
        forall|i: int| 0 <= i < n ==> xcms_view(xcms, n)[i] == xcm_view(xcms@[i]),
    decreases n,
{
    if n > 0 {
        lemma_xcms_view(xcms, n - 1);
    }
}

impl<Call> View for Order<Call> {
    type V = OrderView;

    open spec fn view(&self) -> OrderView {
        order_view(*self)
    }
}

impl<Call> View for Xcm<Call> {
    type V = XcmView;

    open spec fn view(&self) -> XcmView {
        xcm_view(*self)
    }
}

} // verus!
