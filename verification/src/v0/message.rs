//! Messages and the orders they carry.

use crate::double_encoded::DoubleEncoded;
use crate::seqs::views;
use crate::v0::junction::JunctionView;
use crate::v0::multi_asset::{MultiAsset, MultiAssetView};
use crate::v0::multi_location::MultiLocation;
use vstd::prelude::*;

verus! {

/// Basically just the XCM (more general) version of
/// `ParachainDispatchOrigin`.
#[derive(Clone, Copy, Debug, PartialEq, Eq, Structural)]
pub enum OriginKind {
    /// Origin should just be the native dispatch origin representation for
    /// the sender in the local runtime framework.
    Native,
    /// Origin should just be the standard account-based origin with the
    /// sovereign account of the sender.
    SovereignAccount,
    /// Origin should be the super-user.
    Superuser,
    /// Origin should be interpreted as an XCM native origin and the
    /// `MultiLocation` should be encoded directly in the dispatch origin
    /// unchanged.
    Xcm,
}

/// Response data to a query.
#[derive(Debug)]
pub enum Response {
    /// Some assets.
    Assets(Vec<MultiAsset>),
}

/// The mathematical value of a [`Response`].
pub enum ResponseView {
    Assets(Seq<MultiAssetView>),
}

impl View for Response {
    type V = ResponseView;

    open spec fn view(&self) -> ResponseView {
        match self {
            Response::Assets(assets) => ResponseView::Assets(views(assets@)),
        }
    }
}

/// An instruction to be executed on some or all of the assets in holding,
/// used by asset-related XCM messages.
#[derive(Debug)]
pub enum Order<Call> {
    /// Do nothing. Not generally used.
    Null,
    /// Remove the asset(s) (`assets`) from holding and place equivalent
    /// assets under the ownership of `dest` within this consensus system.
    DepositAsset { assets: Vec<MultiAsset>, dest: MultiLocation },
    /// Remove the asset(s) (`assets`) from holding and place equivalent
    /// assets under the ownership of `dest` within this consensus system,
    /// and send an onward message of `ReserveAssetDeposit` with the given
    /// `effects`.
    DepositReserveAsset { assets: Vec<MultiAsset>, dest: MultiLocation, effects: Vec<Order<()>> },
    /// Remove the asset(s) (`give`) from holding and replace them with
    /// alternative assets.
    ExchangeAsset { give: Vec<MultiAsset>, receive: Vec<MultiAsset> },
    /// Remove the asset(s) (`assets`) from holding and send a
    /// `WithdrawAsset` message to a reserve location.
    InitiateReserveWithdraw {
        assets: Vec<MultiAsset>,
        reserve: MultiLocation,
        effects: Vec<Order<()>>,
    },
    /// Remove the asset(s) (`assets`) from holding and send a
    /// `TeleportAsset` message to a destination location.
    InitiateTeleport { assets: Vec<MultiAsset>, dest: MultiLocation, effects: Vec<Order<()>> },
    /// Send a `Balances` message to `dest` with the portion of the
    /// holding that `assets` names.
    QueryHolding { query_id: u64, dest: MultiLocation, assets: Vec<MultiAsset> },
    /// Pay for the execution of some messages with up to `weight` of
    /// `fees`.
    BuyExecution {
        fees: MultiAsset,
        weight: u64,
        debt: u64,
        halt_on_error: bool,
        xcm: Vec<Xcm<Call>>,
    },
}

/// Cross-Consensus Message: A message from one consensus system to
/// another.
#[derive(Debug)]
#[allow(inconsistent_fields)]
pub enum Xcm<Call> {
    /// Withdraw asset(s) (`assets`) from the ownership of `origin` and
    /// place them into `holding`. Execute the orders (`effects`).
    WithdrawAsset { assets: Vec<MultiAsset>, effects: Vec<Order<Call>> },
    /// Asset(s) (`assets`) have been received into the ownership of this
    /// system on the `origin` system.
    ReserveAssetDeposit { assets: Vec<MultiAsset>, effects: Vec<Order<Call>> },
    /// Asset(s) (`assets`) have been destroyed on the `origin` system and
    /// equivalent assets should be created on this system.
    TeleportAsset { assets: Vec<MultiAsset>, effects: Vec<Order<Call>> },
    /// Indication of the contents of the holding account corresponding to
    /// the `QueryHolding` order of `query_id`.
    QueryResponse { query_id: u64, response: Response },
    /// Withdraw asset(s) (`assets`) from the ownership of `origin` and
    /// place equivalent assets under the ownership of `dest` within this
    /// consensus system.
    TransferAsset { assets: Vec<MultiAsset>, dest: MultiLocation },
    /// Withdraw asset(s) (`assets`) from the ownership of `origin`, place
    /// equivalent assets under the ownership of `dest`, and send an onward
    /// message to `dest` of `ReserveAssetDeposit` with the given `effects`.
    TransferReserveAsset { assets: Vec<MultiAsset>, dest: MultiLocation, effects: Vec<Order<()>> },
    /// Apply the encoded transaction `call`, whose dispatch-origin should
    /// be `origin` as expressed by the kind of origin `origin_type`.
    Transact { origin_type: OriginKind, require_weight_at_most: u64, call: DoubleEncoded<Call> },
    /// A message to notify about a new incoming HRMP channel.
    HrmpNewChannelOpenRequest { sender: u32, max_message_size: u32, max_capacity: u32 },
    /// A message to notify about that a previously sent open channel
    /// request has been accepted by the recipient.
    HrmpChannelAccepted { recipient: u32 },
    /// A message to notify that the other party in an open channel decided
    /// to close it.
    HrmpChannelClosing { initiator: u32, sender: u32, recipient: u32 },
    /// A message to indicate that the embedded XCM is actually arriving on
    /// behalf of some consensus location within the origin.
    RelayedFrom { who: MultiLocation, message: Box<Xcm<Call>> },
}

/// The mathematical value of an [`Order`]: what it holds on the wire.
pub enum OrderView {
    Null,
    DepositAsset { assets: Seq<MultiAssetView>, dest: Seq<JunctionView> },
    DepositReserveAsset {
        assets: Seq<MultiAssetView>,
        dest: Seq<JunctionView>,
        effects: Seq<OrderView>,
    },
    ExchangeAsset { give: Seq<MultiAssetView>, receive: Seq<MultiAssetView> },
    InitiateReserveWithdraw {
        assets: Seq<MultiAssetView>,
        reserve: Seq<JunctionView>,
        effects: Seq<OrderView>,
    },
    InitiateTeleport {
        assets: Seq<MultiAssetView>,
        dest: Seq<JunctionView>,
        effects: Seq<OrderView>,
    },
    QueryHolding { query_id: u64, dest: Seq<JunctionView>, assets: Seq<MultiAssetView> },
    BuyExecution {
        fees: MultiAssetView,
        weight: u64,
        debt: u64,
        halt_on_error: bool,
        xcm: Seq<XcmView>,
    },
}

/// The mathematical value of an [`Xcm`]: what it holds on the wire. Of a
/// call it holds the encoded form.
pub enum XcmView {
    WithdrawAsset { assets: Seq<MultiAssetView>, effects: Seq<OrderView> },
    ReserveAssetDeposit { assets: Seq<MultiAssetView>, effects: Seq<OrderView> },
    TeleportAsset { assets: Seq<MultiAssetView>, effects: Seq<OrderView> },
    QueryResponse { query_id: u64, response: ResponseView },
    TransferAsset { assets: Seq<MultiAssetView>, dest: Seq<JunctionView> },
    TransferReserveAsset {
        assets: Seq<MultiAssetView>,
        dest: Seq<JunctionView>,
        effects: Seq<OrderView>,
    },
    Transact { origin_type: OriginKind, require_weight_at_most: u64, call: Seq<u8> },
    HrmpNewChannelOpenRequest { sender: u32, max_message_size: u32, max_capacity: u32 },
    HrmpChannelAccepted { recipient: u32 },
    HrmpChannelClosing { initiator: u32, sender: u32, recipient: u32 },
    RelayedFrom { who: Seq<JunctionView>, message: Box<XcmView> },
}

/// The value of an order.
pub open spec fn order_view<Call>(order: Order<Call>) -> OrderView
    decreases order, 0int,
{
    match order {
        Order::Null => OrderView::Null,
        Order::DepositAsset { assets, dest } => OrderView::DepositAsset {
            assets: views(assets@),
            dest: dest@,
        },
        Order::DepositReserveAsset { assets, dest, effects } => OrderView::DepositReserveAsset {
            assets: views(assets@),
            dest: dest@,
            effects: orders_view(effects, effects@.len() as int),
        },
        Order::ExchangeAsset { give, receive } => OrderView::ExchangeAsset {
            give: views(give@),
            receive: views(receive@),
        },
        Order::InitiateReserveWithdraw {
            assets,
            reserve,
            effects,
        } => OrderView::InitiateReserveWithdraw {
            assets: views(assets@),
            reserve: reserve@,
            effects: orders_view(effects, effects@.len() as int),
        },
        Order::InitiateTeleport { assets, dest, effects } => OrderView::InitiateTeleport {
            assets: views(assets@),
            dest: dest@,
            effects: orders_view(effects, effects@.len() as int),
        },
        Order::QueryHolding { query_id, dest, assets } => OrderView::QueryHolding {
            query_id,
            dest: dest@,
            assets: views(assets@),
        },
        Order::BuyExecution { fees, weight, debt, halt_on_error, xcm } => OrderView::BuyExecution {
            fees: fees@,
            weight,
            debt,
            halt_on_error,
            xcm: xcms_view(xcm, xcm@.len() as int),
        },
    }
}

/// The values of the first `n` orders of `orders`.
pub open spec fn orders_view<Call>(orders: Vec<Order<Call>>, n: int) -> Seq<OrderView>
    decreases orders, n,
{
    if 0 < n <= orders@.len() {
        orders_view(orders, n - 1).push(order_view(orders@[n - 1]))
    } else {
        Seq::empty()
    }
}

/// The value of a message.
pub open spec fn xcm_view<Call>(xcm: Xcm<Call>) -> XcmView
    decreases xcm, 0int,
{
    match xcm {
        Xcm::WithdrawAsset { assets, effects } => XcmView::WithdrawAsset {
            assets: views(assets@),
            effects: orders_view(effects, effects@.len() as int),
        },
        Xcm::ReserveAssetDeposit { assets, effects } => XcmView::ReserveAssetDeposit {
            assets: views(assets@),
            effects: orders_view(effects, effects@.len() as int),
        },
        Xcm::TeleportAsset { assets, effects } => XcmView::TeleportAsset {
            assets: views(assets@),
            effects: orders_view(effects, effects@.len() as int),
        },
        Xcm::QueryResponse { query_id, response } => XcmView::QueryResponse {
            query_id,
            response: response@,
        },
        Xcm::TransferAsset { assets, dest } => XcmView::TransferAsset {
            assets: views(assets@),
            dest: dest@,
        },
        Xcm::TransferReserveAsset { assets, dest, effects } => XcmView::TransferReserveAsset {
            assets: views(assets@),
            dest: dest@,
            effects: orders_view(effects, effects@.len() as int),
        },
        Xcm::Transact { origin_type, require_weight_at_most, call } => XcmView::Transact {
            origin_type,
            require_weight_at_most,
            call: call@,
        },
        Xcm::HrmpNewChannelOpenRequest {
            sender,
            max_message_size,
            max_capacity,
        } => XcmView::HrmpNewChannelOpenRequest { sender, max_message_size, max_capacity },
        Xcm::HrmpChannelAccepted { recipient } => XcmView::HrmpChannelAccepted { recipient },
        Xcm::HrmpChannelClosing { initiator, sender, recipient } => XcmView::HrmpChannelClosing {
            initiator,
            sender,
            recipient,
        },
        Xcm::RelayedFrom { who, message } => XcmView::RelayedFrom {
            who: who@,
            message: Box::new(xcm_view(*message)),
        },
    }
}

/// The values of the first `n` messages of `xcms`.
pub open spec fn xcms_view<Call>(xcms: Vec<Xcm<Call>>, n: int) -> Seq<XcmView>
    decreases xcms, n,
{
    if 0 < n <= xcms@.len() {
        xcms_view(xcms, n - 1).push(xcm_view(xcms@[n - 1]))
    } else {
        Seq::empty()
    }
}

impl<Call> View for Order<Call> {
    type V = OrderView;

    open spec fn view(&self) -> OrderView {
        order_view(*self)
    }
}

impl<Call> View for Xcm<Call> {
    type V = XcmView;

    open spec fn view(&self) -> XcmView {
        xcm_view(*self)
    }
}

/// The values of the first `n` orders are those of the orders one by one.
pub proof fn lemma_orders_view<Call>(orders: Vec<Order<Call>>, n: int)
    requires
        0 <= n <= orders@.len(),
    ensures
        orders_view(orders, n).len() == n,
        forall|i: int| 0 <= i < n ==> orders_view(orders, n)[i] == order_view(orders@[i]),
    decreases n,
{
    if n > 0 {
        lemma_orders_view(orders, n - 1);
    }
}

/// The values of the first `n` messages are those of the messages one by
/// one.
pub proof fn lemma_xcms_view<Call>(xcms: Vec<Xcm<Call>>, n: int)
    requires
        0 <= n <= xcms@.len(),
    ensures
        xcms_view(xcms, n).len() == n,
        forall|i: int| 0 <= i < n ==> xcms_view(xcms, n)[i] == xcm_view(xcms@[i]),
    decreases n,
{
    if n > 0 {
        lemma_xcms_view(xcms, n - 1);
    }
}

/// Whether every call of the type `Call` in the order is held in its
/// encoded form only. The orders that an order hands on to another chain
/// carry calls of the unit type and are not looked into.
pub open spec fn order_calls_encoded<Call>(order: Order<Call>) -> bool
    decreases order, 0int,
{
    match order {
        Order::BuyExecution { xcm, .. } => xcms_calls_encoded(xcm, xcm@.len() as int),
        _ => true,
    }
}

/// Whether every call of the type `Call` in the first `n` orders is held
/// in its encoded form only.
pub open spec fn orders_calls_encoded<Call>(orders: Vec<Order<Call>>, n: int) -> bool
    decreases orders, n,
{
    if 0 < n <= orders@.len() {
        orders_calls_encoded(orders, n - 1) && order_calls_encoded(orders@[n - 1])
    } else {
        true
    }
}

/// Whether every call of the type `Call` in the message is held in its
/// encoded form only. The orders that a message hands on to another chain
/// carry calls of the unit type and are not looked into.
pub open spec fn xcm_calls_encoded<Call>(xcm: Xcm<Call>) -> bool
    decreases xcm, 0int,
{
    match xcm {
        Xcm::WithdrawAsset { effects, .. } => orders_calls_encoded(
            effects,
            effects@.len() as int,
        ),
        Xcm::ReserveAssetDeposit { effects, .. } => orders_calls_encoded(
            effects,
            effects@.len() as int,
        ),
        Xcm::TeleportAsset { effects, .. } => orders_calls_encoded(effects, effects@.len() as int),
        Xcm::Transact { call, .. } => !call.is_decoded(),
        Xcm::RelayedFrom { message, .. } => xcm_calls_encoded(*message),
        _ => true,
    }
}

/// Whether every call of the type `Call` in the first `n` messages is held
/// in its encoded form only.
pub open spec fn xcms_calls_encoded<Call>(xcms: Vec<Xcm<Call>>, n: int) -> bool
    decreases xcms, n,
{
    if 0 < n <= xcms@.len() {
        xcms_calls_encoded(xcms, n - 1) && xcm_calls_encoded(xcms@[n - 1])
    } else {
        true
    }
}

/// The calls of the first `n` orders are encoded exactly if those of each
/// are.
pub proof fn lemma_orders_calls_encoded<Call>(orders: Vec<Order<Call>>, n: int)
    requires
        0 <= n <= orders@.len(),
    ensures
        orders_calls_encoded(orders, n) <==> forall|i: int|
            0 <= i < n ==> order_calls_encoded(#[trigger] orders@[i]),
    decreases n,
{
    if n > 0 {
        lemma_orders_calls_encoded(orders, n - 1);
    }
}

/// The calls of the first `n` messages are encoded exactly if those of
/// each are.
pub proof fn lemma_xcms_calls_encoded<Call>(xcms: Vec<Xcm<Call>>, n: int)
    requires
        0 <= n <= xcms@.len(),
    ensures
        xcms_calls_encoded(xcms, n) <==> forall|i: int|
            0 <= i < n ==> xcm_calls_encoded(#[trigger] xcms@[i]),
    decreases n,
{
    if n > 0 {
        lemma_xcms_calls_encoded(xcms, n - 1);
    }
}

/// The orders of `orders`, each under another type of call.
fn orders_from<C, Call>(orders: Vec<Order<C>>) -> (r: Vec<Order<Call>>)
    ensures
        orders_view(r, r@.len() as int) == orders_view(orders, orders@.len() as int),
        orders_calls_encoded(r, r@.len() as int),
    decreases orders,
{
    let mut rest = orders;
    let mut out: Vec<Order<Call>> = Vec::new();
    while rest.len() > 0
        invariant
            out@.len() + rest@.len() == orders@.len(),
            rest@ == orders@.skip(out@.len() as int),
            forall|j: int| 0 <= j < out@.len() ==> order_view(out@[j]) == order_view(orders@[j]),
            forall|j: int| 0 <= j < out@.len() ==> order_calls_encoded(#[trigger] out@[j]),
        decreases rest@.len(),
    {
        let ghost done = out@.len() as int;
        let order = rest.remove(0);
        assert(order == orders@[done]);
        out.push(Order::from(order));
    }
    proof {
        lemma_orders_view(out, out@.len() as int);
        lemma_orders_view(orders, orders@.len() as int);
        lemma_orders_calls_encoded(out, out@.len() as int);
        assert(orders_view(out, out@.len() as int) =~= orders_view(orders, orders@.len() as int));
    }
    out
}

/// The messages of `xcms`, each under another type of call.
fn xcms_from<C, Call>(xcms: Vec<Xcm<C>>) -> (r: Vec<Xcm<Call>>)
    ensures
        xcms_view(r, r@.len() as int) == xcms_view(xcms, xcms@.len() as int),
        xcms_calls_encoded(r, r@.len() as int),
    decreases xcms,
{
    let mut rest = xcms;
    let mut out: Vec<Xcm<Call>> = Vec::new();
    while rest.len() > 0
        invariant
            out@.len() + rest@.len() == xcms@.len(),
            rest@ == xcms@.skip(out@.len() as int),
            forall|j: int| 0 <= j < out@.len() ==> xcm_view(out@[j]) == xcm_view(xcms@[j]),
            forall|j: int| 0 <= j < out@.len() ==> xcm_calls_encoded(#[trigger] out@[j]),
        decreases rest@.len(),
    {
        let ghost done = out@.len() as int;
        let xcm = rest.remove(0);
        assert(xcm == xcms@[done]);
        out.push(Xcm::from(xcm));
    }
    proof {
        lemma_xcms_view(out, out@.len() as int);
        lemma_xcms_view(xcms, xcms@.len() as int);
        lemma_xcms_calls_encoded(out, out@.len() as int);
        assert(xcms_view(out, out@.len() as int) =~= xcms_view(xcms, xcms@.len() as int));
    }
    out
}

impl<Call> Order<Call> {
    /// The same order under another type of call.
    pub fn into<C>(self) -> (r: Order<C>)
        ensures
            r@ == self@,
            order_calls_encoded(r),
    {
        Order::from(self)
    }

    /// The order `order` under this type of call: it holds the same on the
    /// wire, and of the calls in it only the encoded form.
    pub fn from<C>(order: Order<C>) -> (r: Order<Call>)
        ensures
            r@ == order@,
            order_calls_encoded(r),
        decreases order,
    {
        match order {
            Order::Null => Order::Null,
            Order::DepositAsset { assets, dest } => Order::DepositAsset { assets, dest },
            Order::DepositReserveAsset { assets, dest, effects } => Order::DepositReserveAsset {
                assets,
                dest,
                effects,
            },
            Order::ExchangeAsset { give, receive } => Order::ExchangeAsset { give, receive },
            Order::InitiateReserveWithdraw {
                assets,
                reserve,
                effects,
            } => Order::InitiateReserveWithdraw { assets, reserve, effects },
            Order::InitiateTeleport { assets, dest, effects } => Order::InitiateTeleport {
                assets,
                dest,
                effects,
            },
            Order::QueryHolding { query_id, dest, assets } => Order::QueryHolding {
                query_id,
                dest,
                assets,
            },
            Order::BuyExecution { fees, weight, debt, halt_on_error, xcm } => {
                let xcm = xcms_from(xcm);
                Order::BuyExecution { fees, weight, debt, halt_on_error, xcm }
            },
        }
    }
}

impl<Call> Xcm<Call> {
    /// The same message under another type of call.
    pub fn into<C>(self) -> (r: Xcm<C>)
        ensures
            r@ == self@,
            xcm_calls_encoded(r),
    {
        Xcm::from(self)
    }

    /// The message `xcm` under this type of call: it holds the same on the
    /// wire, and of the calls in it only the encoded form.
    pub fn from<C>(xcm: Xcm<C>) -> (r: Xcm<Call>)
        ensures
            r@ == xcm@,
            xcm_calls_encoded(r),
        decreases xcm,
    {
        match xcm {
            Xcm::WithdrawAsset { assets, effects } => Xcm::WithdrawAsset {
                assets,
                effects: orders_from(effects),
            },
            Xcm::ReserveAssetDeposit { assets, effects } => Xcm::ReserveAssetDeposit {
                assets,
                effects: orders_from(effects),
            },
            Xcm::TeleportAsset { assets, effects } => Xcm::TeleportAsset {
                assets,
                effects: orders_from(effects),
            },
            Xcm::QueryResponse { query_id, response } => Xcm::QueryResponse { query_id, response },
            Xcm::TransferAsset { assets, dest } => Xcm::TransferAsset { assets, dest },
            Xcm::TransferReserveAsset { assets, dest, effects } => Xcm::TransferReserveAsset {
                assets,
                dest,
                effects,
            },
            Xcm::HrmpNewChannelOpenRequest {
                sender,
                max_message_size,
                max_capacity,
            } => Xcm::HrmpNewChannelOpenRequest { sender, max_message_size, max_capacity },
            Xcm::HrmpChannelAccepted { recipient } => Xcm::HrmpChannelAccepted { recipient },
            Xcm::HrmpChannelClosing { initiator, sender, recipient } => Xcm::HrmpChannelClosing {
                initiator,
                sender,
                recipient,
            },
            Xcm::Transact { origin_type, require_weight_at_most, call } => Xcm::Transact {
                origin_type,
                require_weight_at_most,
                call: call.into(),
            },
            Xcm::RelayedFrom { who, message } => {
                let inner = Xcm::from(*message);
                Xcm::RelayedFrom { who, message: Box::new(inner) }
            },
        }
    }
}

} // verus!
