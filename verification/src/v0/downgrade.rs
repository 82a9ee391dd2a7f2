//! Messages of the first generation out of those of the second.

use crate::v0::message::{
    lemma_orders_calls_encoded, lemma_orders_view, lemma_xcms_calls_encoded, lemma_xcms_view,
    order_calls_encoded, order_view, orders_calls_encoded, orders_view, xcm_calls_encoded,
    xcm_view, xcms_calls_encoded, xcms_view, Order, OrderView, Response, ResponseView, Xcm,
    XcmView,
};
use crate::v0::multi_asset::{asset_to_v0, assets_to_v0, filter_to_v0, MultiAsset};
use crate::v0::multi_location::{path_of_location, MultiLocation};
use crate::v1::message::{
    lemma_orders_view as lemma_orders_view1, lemma_xcms_view as lemma_xcms_view1,
    order_view as order_view1, orders_view as orders_view1, xcm_view as xcm_view1,
    xcms_view as xcms_view1, Order as Order1, OrderView as OrderView1, Response as Response1,
    ResponseView as ResponseView1, Xcm as Xcm1, XcmView as XcmView1,
};
use crate::v1::multilocation::{MultiLocation as MultiLocation1, MultiLocationView};
use vstd::prelude::*;

verus! {

/// The response of the first generation that stands for `response`. There
/// is none for a version.
pub open spec fn response_to_v0(response: ResponseView1) -> Option<ResponseView> {
    match response {
        ResponseView1::Assets(assets) => match assets_to_v0(assets) {
            Some(old) => Some(ResponseView::Assets(old)),
            None => None,
        },
        ResponseView1::Version(_) => None,
    }
}

/// The order of the first generation that stands for `order`: every asset,
/// filter, location, order and message in it is replaced by the one that
/// stands for it, and a limit on the number of assets is left out. `None`
/// where one of them has none.
pub open spec fn order_to_v0(order: OrderView1) -> Option<OrderView>
    decreases order, 0int,
{
    match order {
        OrderView1::Noop => Some(OrderView::Null),
        OrderView1::DepositAsset { assets, beneficiary, .. } => match (
            filter_to_v0(assets),
            path_of_location(beneficiary),
        ) {
            (Some(assets), Some(dest)) => Some(OrderView::DepositAsset { assets, dest }),
            _ => None,
        },
        OrderView1::DepositReserveAsset { assets, dest, effects, .. } => match (
            filter_to_v0(assets),
            path_of_location(dest),
            orders_to_v0(effects, effects.len() as int),
        ) {
            (Some(assets), Some(dest), Some(effects)) => Some(
                OrderView::DepositReserveAsset { assets, dest, effects },
            ),
            _ => None,
        },
        OrderView1::ExchangeAsset { give, receive } => match (
            filter_to_v0(give),
            assets_to_v0(receive),
        ) {
            (Some(give), Some(receive)) => Some(OrderView::ExchangeAsset { give, receive }),
            _ => None,
        },
        OrderView1::InitiateReserveWithdraw { assets, reserve, effects } => match (
            filter_to_v0(assets),
            path_of_location(reserve),
            orders_to_v0(effects, effects.len() as int),
        ) {
            (Some(assets), Some(reserve), Some(effects)) => Some(
                OrderView::InitiateReserveWithdraw { assets, reserve, effects },
            ),
            _ => None,
        },
        OrderView1::InitiateTeleport { assets, dest, effects } => match (
            filter_to_v0(assets),
            path_of_location(dest),
            orders_to_v0(effects, effects.len() as int),
        ) {
            (Some(assets), Some(dest), Some(effects)) => Some(
                OrderView::InitiateTeleport { assets, dest, effects },
            ),
            _ => None,
        },
        OrderView1::QueryHolding { query_id, dest, assets } => match (
            path_of_location(dest),
            filter_to_v0(assets),
        ) {
            (Some(dest), Some(assets)) => Some(OrderView::QueryHolding { query_id, dest, assets }),
            _ => None,
        },
        OrderView1::BuyExecution { fees, weight, debt, halt_on_error, instructions } => match (
            xcms_to_v0(instructions, instructions.len() as int),
            asset_to_v0(fees),
        ) {
            (Some(xcm), Some(fees)) => Some(
                OrderView::BuyExecution { fees, weight, debt, halt_on_error, xcm },
            ),
            _ => None,
        },
    }
}

/// The orders of the first generation that stand for the first `n` of
/// `orders`, one for one. `None` where one of them has none.
pub open spec fn orders_to_v0(orders: Seq<OrderView1>, n: int) -> Option<Seq<OrderView>>
    decreases orders, n,
{
    if 0 < n <= orders.len() {
        match (orders_to_v0(orders, n - 1), order_to_v0(orders[n - 1])) {
            (Some(front), Some(last)) => Some(front.push(last)),
            _ => None,
        }
    } else {
        Some(Seq::empty())
    }
}

/// The message of the first generation that stands for `xcm`: every asset,
/// location, order and message in it is replaced by the one that stands
/// for it. `None` where one of them has none, and for the messages on
/// versions, which the first generation does not have.
pub open spec fn xcm_to_v0(xcm: XcmView1) -> Option<XcmView>
    decreases xcm, 0int,
{
    match xcm {
        XcmView1::WithdrawAsset { assets, effects } => match (
            assets_to_v0(assets),
            orders_to_v0(effects, effects.len() as int),
        ) {
            (Some(assets), Some(effects)) => Some(XcmView::WithdrawAsset { assets, effects }),
            _ => None,
        },
        XcmView1::ReserveAssetDeposited { assets, effects } => match (
            assets_to_v0(assets),
            orders_to_v0(effects, effects.len() as int),
        ) {
            (Some(assets), Some(effects)) => Some(XcmView::ReserveAssetDeposit { assets, effects }),
            _ => None,
        },
        XcmView1::ReceiveTeleportedAsset { assets, effects } => match (
            assets_to_v0(assets),
            orders_to_v0(effects, effects.len() as int),
        ) {
            (Some(assets), Some(effects)) => Some(XcmView::TeleportAsset { assets, effects }),
            _ => None,
        },
        XcmView1::QueryResponse { query_id, response } => match response_to_v0(response) {
            Some(response) => Some(XcmView::QueryResponse { query_id, response }),
            None => None,
        },
        XcmView1::TransferAsset { assets, beneficiary } => match (
            assets_to_v0(assets),
            path_of_location(beneficiary),
        ) {
            (Some(assets), Some(dest)) => Some(XcmView::TransferAsset { assets, dest }),
            _ => None,
        },
        XcmView1::TransferReserveAsset { assets, dest, effects } => match (
            assets_to_v0(assets),
            path_of_location(dest),
            orders_to_v0(effects, effects.len() as int),
        ) {
            (Some(assets), Some(dest), Some(effects)) => Some(
                XcmView::TransferReserveAsset { assets, dest, effects },
            ),
            _ => None,
        },
        XcmView1::HrmpNewChannelOpenRequest { sender, max_message_size, max_capacity } => Some(
            XcmView::HrmpNewChannelOpenRequest { sender, max_message_size, max_capacity },
        ),
        XcmView1::HrmpChannelAccepted { recipient } => Some(
            XcmView::HrmpChannelAccepted { recipient },
        ),
        XcmView1::HrmpChannelClosing { initiator, sender, recipient } => Some(
            XcmView::HrmpChannelClosing { initiator, sender, recipient },
        ),
        XcmView1::Transact { origin_type, require_weight_at_most, call } => Some(
            XcmView::Transact { origin_type, require_weight_at_most, call },
        ),
        XcmView1::RelayedFrom { who, message } => match (
            path_of_location(MultiLocationView { parents: 0, interior: who }),
            xcm_to_v0(*message),
        ) {
            (Some(who), Some(message)) => Some(
                XcmView::RelayedFrom { who, message: Box::new(message) },
            ),
            _ => None,
        },
        XcmView1::SubscribeVersion { .. } => None,
        XcmView1::UnsubscribeVersion => None,
    }
}

/// The messages of the first generation that stand for the first `n` of
/// `xcms`, one for one. `None` where one of them has none.
pub open spec fn xcms_to_v0(xcms: Seq<XcmView1>, n: int) -> Option<Seq<XcmView>>
    decreases xcms, n,
{
    if 0 < n <= xcms.len() {
        match (xcms_to_v0(xcms, n - 1), xcm_to_v0(xcms[n - 1])) {
            (Some(front), Some(last)) => Some(front.push(last)),
            _ => None,
        }
    } else {
        Some(Seq::empty())
    }
}

/// `orders_to_v0` succeeds exactly where each of the first `n` has one that
/// stands for it, and then gives those, one for one.
pub proof fn lemma_orders_to_v0(orders: Seq<OrderView1>, n: int)
    requires
        0 <= n <= orders.len(),
    ensures
        orders_to_v0(orders, n) is Some <==> forall|i: int|
            0 <= i < n ==> order_to_v0(#[trigger] orders[i]) is Some,
        orders_to_v0(orders, n) matches Some(old) ==> old.len() == n && forall|i: int|
            0 <= i < n ==> #[trigger] old[i] == order_to_v0(orders[i]).unwrap(),
    decreases n,
{
    if n > 0 {
        lemma_orders_to_v0(orders, n - 1);
        if orders_to_v0(orders, n) is Some {
            assert forall|i: int| 0 <= i < n implies order_to_v0(#[trigger] orders[i]) is Some by {
                if i < n - 1 {
                }
            }
        }
    }
}

/// `xcms_to_v0` succeeds exactly where each of the first `n` has one that
/// stands for it, and then gives those, one for one.
pub proof fn lemma_xcms_to_v0(xcms: Seq<XcmView1>, n: int)
    requires
        0 <= n <= xcms.len(),
    ensures
        xcms_to_v0(xcms, n) is Some <==> forall|i: int|
            0 <= i < n ==> xcm_to_v0(#[trigger] xcms[i]) is Some,
        xcms_to_v0(xcms, n) matches Some(old) ==> old.len() == n && forall|i: int|
            0 <= i < n ==> #[trigger] old[i] == xcm_to_v0(xcms[i]).unwrap(),
    decreases n,
{
    if n > 0 {
        lemma_xcms_to_v0(xcms, n - 1);
        if xcms_to_v0(xcms, n) is Some {
            assert forall|i: int| 0 <= i < n implies xcm_to_v0(#[trigger] xcms[i]) is Some by {
                if i < n - 1 {
                }
            }
        }
    }
}

/// The orders that stand for `orders`, one for one.
fn downgrade_orders<Call>(orders: Vec<Order1<Call>>) -> (r: Result<Vec<Order<Call>>, ()>)
    ensures
        ({
            let new = orders_view1(orders, orders@.len() as int);
            match orders_to_v0(new, new.len() as int) {
                Some(old) => r matches Ok(found) && orders_view(found, found@.len() as int) == old
                    && orders_calls_encoded(found, found@.len() as int),
                None => r is Err,
            }
        }),
    decreases orders,
{
    let ghost whole = orders_view1(orders, orders@.len() as int);
    proof {
        lemma_orders_view1(orders, orders@.len() as int);
        lemma_orders_to_v0(whole, whole.len() as int);
    }
    let mut rest = orders;
    let mut out: Vec<Order<Call>> = Vec::new();
    while rest.len() > 0
        invariant
            out@.len() + rest@.len() == orders@.len(),
            rest@ == orders@.skip(out@.len() as int),
            whole.len() == orders@.len(),
            forall|i: int| 0 <= i < whole.len() ==> whole[i] == order_view1(orders@[i]),
            forall|j: int|
                0 <= j < out@.len() ==> order_to_v0(whole[j]) == Some(order_view(#[trigger] out@[j])),
            forall|j: int| 0 <= j < out@.len() ==> order_calls_encoded(#[trigger] out@[j]),
            orders_to_v0(whole, whole.len() as int) is Some <==> forall|i: int|
                0 <= i < whole.len() ==> order_to_v0(#[trigger] whole[i]) is Some,
            orders_to_v0(whole, whole.len() as int) matches Some(old) ==> old.len() == whole.len()
                && forall|i: int|
                0 <= i < whole.len() ==> #[trigger] old[i] == order_to_v0(whole[i]).unwrap(),
            whole == orders_view1(orders, orders@.len() as int),
        decreases rest@.len(),
    {
        let ghost done = out@.len() as int;
        let order = rest.remove(0);
        assert(order == orders@[done]);
        match downgrade_order(order) {
            Ok(old) => {
                out.push(old);
            },
            Err(()) => {
                assert(order_to_v0(whole[done]) is None);
                return Err(());
            },
        }
    }
    proof {
        lemma_orders_view(out, out@.len() as int);
        lemma_orders_calls_encoded(out, out@.len() as int);
        let found = orders_view(out, out@.len() as int);
        assert forall|i: int| 0 <= i < whole.len() implies order_to_v0(
            #[trigger] whole[i],
        ) is Some by {
            assert(order_to_v0(whole[i]) == Some(order_view(out@[i])));
        }
        let old = orders_to_v0(whole, whole.len() as int).unwrap();
        assert(found =~= old);
    }
    Ok(out)
}

/// The messages that stand for `xcms`, one for one.
fn downgrade_xcms<Call>(xcms: Vec<Xcm1<Call>>) -> (r: Result<Vec<Xcm<Call>>, ()>)
    ensures
        ({
            let new = xcms_view1(xcms, xcms@.len() as int);
            match xcms_to_v0(new, new.len() as int) {
                Some(old) => r matches Ok(found) && xcms_view(found, found@.len() as int) == old
                    && xcms_calls_encoded(found, found@.len() as int),
                None => r is Err,
            }
        }),
    decreases xcms,
{
    let ghost whole = xcms_view1(xcms, xcms@.len() as int);
    proof {
        lemma_xcms_view1(xcms, xcms@.len() as int);
        lemma_xcms_to_v0(whole, whole.len() as int);
    }
    let mut rest = xcms;
    let mut out: Vec<Xcm<Call>> = Vec::new();
    while rest.len() > 0
        invariant
            out@.len() + rest@.len() == xcms@.len(),
            rest@ == xcms@.skip(out@.len() as int),
            whole.len() == xcms@.len(),
            forall|i: int| 0 <= i < whole.len() ==> whole[i] == xcm_view1(xcms@[i]),
            forall|j: int|
                0 <= j < out@.len() ==> xcm_to_v0(whole[j]) == Some(xcm_view(#[trigger] out@[j])),
            forall|j: int| 0 <= j < out@.len() ==> xcm_calls_encoded(#[trigger] out@[j]),
            xcms_to_v0(whole, whole.len() as int) is Some <==> forall|i: int|
                0 <= i < whole.len() ==> xcm_to_v0(#[trigger] whole[i]) is Some,
            xcms_to_v0(whole, whole.len() as int) matches Some(old) ==> old.len() == whole.len()
                && forall|i: int|
                0 <= i < whole.len() ==> #[trigger] old[i] == xcm_to_v0(whole[i]).unwrap(),
            whole == xcms_view1(xcms, xcms@.len() as int),
        decreases rest@.len(),
    {
        let ghost done = out@.len() as int;
        let xcm = rest.remove(0);
        assert(xcm == xcms@[done]);
        match downgrade_xcm(xcm) {
            Ok(old) => {
                out.push(old);
            },
            Err(()) => {
                assert(xcm_to_v0(whole[done]) is None);
                return Err(());
            },
        }
    }
    proof {
        lemma_xcms_view(out, out@.len() as int);
        lemma_xcms_calls_encoded(out, out@.len() as int);
        let found = xcms_view(out, out@.len() as int);
        assert forall|i: int| 0 <= i < whole.len() implies xcm_to_v0(
            #[trigger] whole[i],
        ) is Some by {
            assert(xcm_to_v0(whole[i]) == Some(xcm_view(out@[i])));
        }
        let old = xcms_to_v0(whole, whole.len() as int).unwrap();
        assert(found =~= old);
    }
    Ok(out)
}

/// The order that stands for `old`.
fn downgrade_order<Call>(old: Order1<Call>) -> (r: Result<Order<Call>, ()>)
    ensures
        match order_to_v0(old@) {
            Some(order) => r matches Ok(found) && found@ == order && order_calls_encoded(found),
            None => r is Err,
        },
    decreases old,
{
    Ok(
        match old {
            Order1::Noop => Order::Null,
            Order1::DepositAsset { assets, beneficiary, .. } => Order::DepositAsset {
                assets: Vec::<MultiAsset>::try_from(assets)?,
                dest: MultiLocation::try_from(beneficiary)?,
            },
            Order1::DepositReserveAsset { assets, dest, effects, .. } => {
                Order::DepositReserveAsset {
                    assets: Vec::<MultiAsset>::try_from(assets)?,
                    dest: MultiLocation::try_from(dest)?,
                    effects: downgrade_orders(effects)?,
                }
            },
            Order1::ExchangeAsset { give, receive } => Order::ExchangeAsset {
                give: Vec::<MultiAsset>::try_from(give)?,
                receive: Vec::<MultiAsset>::try_from(receive)?,
            },
            Order1::InitiateReserveWithdraw { assets, reserve, effects } => {
                Order::InitiateReserveWithdraw {
                    assets: Vec::<MultiAsset>::try_from(assets)?,
                    reserve: MultiLocation::try_from(reserve)?,
                    effects: downgrade_orders(effects)?,
                }
            },
            Order1::InitiateTeleport { assets, dest, effects } => Order::InitiateTeleport {
                assets: Vec::<MultiAsset>::try_from(assets)?,
                dest: MultiLocation::try_from(dest)?,
                effects: downgrade_orders(effects)?,
            },
            Order1::QueryHolding { query_id, dest, assets } => Order::QueryHolding {
                query_id,
                dest: MultiLocation::try_from(dest)?,
                assets: Vec::<MultiAsset>::try_from(assets)?,
            },
            Order1::BuyExecution { fees, weight, debt, halt_on_error, instructions } => {
                let xcm = downgrade_xcms(instructions)?;
                Order::BuyExecution {
                    fees: MultiAsset::try_from(fees)?,
                    weight,
                    debt,
                    halt_on_error,
                    xcm,
                }
            },
        },
    )
}

/// The message that stands for `x`.
fn downgrade_xcm<Call>(x: Xcm1<Call>) -> (r: Result<Xcm<Call>, ()>)
    ensures
        match xcm_to_v0(x@) {
            Some(xcm) => r matches Ok(found) && found@ == xcm && xcm_calls_encoded(found),
            None => r is Err,
        },
    decreases x,
{
    Ok(
        match x {
            Xcm1::WithdrawAsset { assets, effects } => Xcm::WithdrawAsset {
                assets: Vec::<MultiAsset>::try_from(assets)?,
                effects: downgrade_orders(effects)?,
            },
            Xcm1::ReserveAssetDeposited { assets, effects } => Xcm::ReserveAssetDeposit {
                assets: Vec::<MultiAsset>::try_from(assets)?,
                effects: downgrade_orders(effects)?,
            },
            Xcm1::ReceiveTeleportedAsset { assets, effects } => Xcm::TeleportAsset {
                assets: Vec::<MultiAsset>::try_from(assets)?,
                effects: downgrade_orders(effects)?,
            },
            Xcm1::QueryResponse { query_id, response } => Xcm::QueryResponse {
                query_id,
                response: Response::try_from(response)?,
            },
            Xcm1::TransferAsset { assets, beneficiary } => Xcm::TransferAsset {
                assets: Vec::<MultiAsset>::try_from(assets)?,
                dest: MultiLocation::try_from(beneficiary)?,
            },
            Xcm1::TransferReserveAsset { assets, dest, effects } => Xcm::TransferReserveAsset {
                assets: Vec::<MultiAsset>::try_from(assets)?,
                dest: MultiLocation::try_from(dest)?,
                effects: downgrade_orders(effects)?,
            },
            Xcm1::HrmpNewChannelOpenRequest {
                sender,
                max_message_size,
                max_capacity,
            } => Xcm::HrmpNewChannelOpenRequest { sender, max_message_size, max_capacity },
            Xcm1::HrmpChannelAccepted { recipient } => Xcm::HrmpChannelAccepted { recipient },
            Xcm1::HrmpChannelClosing { initiator, sender, recipient } => Xcm::HrmpChannelClosing {
                initiator,
                sender,
                recipient,
            },
            Xcm1::Transact { origin_type, require_weight_at_most, call } => Xcm::Transact {
                origin_type,
                require_weight_at_most,
                call: call.into(),
            },
            Xcm1::RelayedFrom { who, message } => {
                let inner = downgrade_xcm(*message)?;
                Xcm::RelayedFrom {
                    who: MultiLocation::try_from(MultiLocation1 { interior: who, parents: 0 })?,
                    message: Box::new(inner),
                }
            },
            Xcm1::SubscribeVersion { .. } | Xcm1::UnsubscribeVersion => {
                return Err(());
            },
        },
    )
}

impl TryFrom<Response1> for Response {
    type Error = ();

    /// The response that stands for `new_response`. Fails for a version,
    /// and where an asset has no equal in the first generation.
    fn try_from(new_response: Response1) -> (r: Result<Response, ()>)
        ensures
            match response_to_v0(new_response@) {
                Some(response) => r matches Ok(found) && found@ == response,
                None => r is Err,
            },
    {
        Ok(
            match new_response {
                Response1::Assets(assets) => Response::Assets(Vec::<MultiAsset>::try_from(assets)?),
                Response1::Version(..) => {
                    return Err(());
                },
            },
        )
    }
}

/// The conversion gives a value made anew, which no `spec` function can
/// name: it is specified by the `ensures` of its own, over views.
impl vstd::std_specs::convert::TryFromSpecImpl<Response1> for Response {
    open spec fn obeys_try_from_spec() -> bool {
        false
    }

    open spec fn try_from_spec(new_response: Response1) -> Result<Response, ()> {
        arbitrary()
    }
}

impl<Call> TryFrom<Order1<Call>> for Order<Call> {
    type Error = ();

    /// The order that stands for `old`: every asset, filter, location,
    /// order and message in it is replaced by the one that stands for it,
    /// and a limit on the number of assets is left out. Fails where one of
    /// them has no equal in the first generation.
    fn try_from(old: Order1<Call>) -> (r: Result<Order<Call>, ()>)
        ensures
            match order_to_v0(old@) {
                Some(order) => r matches Ok(found) && found@ == order && order_calls_encoded(
                    found,
                ),
                None => r is Err,
            },
    {
        downgrade_order(old)
    }
}

/// The conversion gives a value made anew, which no `spec` function can
/// name: it is specified by the `ensures` of its own, over views.
impl<Call> vstd::std_specs::convert::TryFromSpecImpl<Order1<Call>> for Order<Call> {
    open spec fn obeys_try_from_spec() -> bool {
        false
    }

    open spec fn try_from_spec(old: Order1<Call>) -> Result<Order<Call>, ()> {
        arbitrary()
    }
}

impl<Call> TryFrom<Xcm1<Call>> for Xcm<Call> {
    type Error = ();

    /// The message that stands for `x`: every asset, location, order and
    /// message in it is replaced by the one that stands for it. Fails where
    /// one of them has no equal in the first generation, and for the
    /// messages on versions, which the first generation does not have.
    fn try_from(x: Xcm1<Call>) -> (r: Result<Xcm<Call>, ()>)
        ensures
            match xcm_to_v0(x@) {
                Some(xcm) => r matches Ok(found) && found@ == xcm && xcm_calls_encoded(found),
                None => r is Err,
            },
    {
        downgrade_xcm(x)
    }
}

/// The conversion gives a value made anew, which no `spec` function can
/// name: it is specified by the `ensures` of its own, over views.
impl<Call> vstd::std_specs::convert::TryFromSpecImpl<Xcm1<Call>> for Xcm<Call> {
    open spec fn obeys_try_from_spec() -> bool {
        false
    }

    open spec fn try_from_spec(x: Xcm1<Call>) -> Result<Xcm<Call>, ()> {
        arbitrary()
    }
}

} // verus!
