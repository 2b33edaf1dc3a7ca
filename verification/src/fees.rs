//! Fees of a channel and the split of its value between the two parties.
use vstd::prelude::*;

verus! {

/// The weight of the transaction that closes a channel collaboratively: one input, which spends
/// the funding transaction, and two outputs, one for each party.
///
/// If either party were to get nothing the transaction would weigh less, and the fee for this
/// weight would overpay.
pub const COLLABORATIVE_REVERT_TX_WEIGHT: usize = 672;

/// The part of the channel's value that could not be taken off while looking for the fees.
#[derive(Clone, Copy, Debug, PartialEq, Eq, Structural)]
pub enum FeeError {
    InboundCapacity,
    OutboundCapacity,
    Reserve,
    TraderMargin,
    CoordinatorMargin,
}

impl FeeError {
    /// What the error says.
    pub open spec fn text(self) -> Seq<char> {
        match self {
            FeeError::InboundCapacity => "could not subtract inbound capacity"@,
            FeeError::OutboundCapacity => "could not subtract outbound capacity"@,
            FeeError::Reserve => "could not substract the reserve"@,
            FeeError::TraderMargin => "could not subtract trader margin"@,
            FeeError::CoordinatorMargin => "could not subtract coordinator margin"@,
        }
    }

    /// The text that a caller shows for this error.
    pub fn message(&self) -> (text: String)
        ensures
            text@ == self.text(),
            *self is InboundCapacity ==> text@ == "could not subtract inbound capacity"@,
            *self is OutboundCapacity ==> text@ == "could not subtract outbound capacity"@,
            *self is Reserve ==> text@ == "could not substract the reserve"@,
            *self is TraderMargin ==> text@ == "could not subtract trader margin"@,
            *self is CoordinatorMargin ==> text@ == "could not subtract coordinator margin"@,
    {
        match self {
            FeeError::InboundCapacity => "could not subtract inbound capacity".to_owned(),
            FeeError::OutboundCapacity => "could not subtract outbound capacity".to_owned(),
            FeeError::Reserve => "could not substract the reserve".to_owned(),
            FeeError::TraderMargin => "could not subtract trader margin".to_owned(),
            FeeError::CoordinatorMargin => "could not subtract coordinator margin".to_owned(),
        }
    }
}

/// What the parties' own shares of a channel come to. Until a trade is settled the margins are
/// still locked up outside the lightning channel, so they count as well.
pub open spec fn owned_value(
    trade_settled: bool,
    inbound_capacity: int,
    outbound_capacity: int,
    trader_margin: int,
    coordinator_margin: int,
    reserve: int,
) -> int {
    inbound_capacity + outbound_capacity + 2 * reserve + if trade_settled {
        0
    } else {
        trader_margin + coordinator_margin
    }
}

/// The fees that the transactions of a channel have taken: whatever is left of the channel's value
/// beside the parties' own shares. If a share exceeds what is left, the error names the first such
/// share, in the order inbound, outbound, reserve, trader margin, coordinator margin.
pub open spec fn dlc_channel_tx_fees(
    trade_settled: bool,
    sub_channel_sats: int,
    inbound_capacity: int,
    outbound_capacity: int,
    trader_margin: int,
    coordinator_margin: int,
    reserve: int,
) -> Result<int, FeeError> {
    let after_reserve = sub_channel_sats - inbound_capacity - outbound_capacity - 2 * reserve;
    if sub_channel_sats < inbound_capacity {
        Err(FeeError::InboundCapacity)
    } else if sub_channel_sats < inbound_capacity + outbound_capacity {
        Err(FeeError::OutboundCapacity)
    } else if after_reserve < 0 {
        Err(FeeError::Reserve)
    } else if !trade_settled && after_reserve < trader_margin {
        Err(FeeError::TraderMargin)
    } else if !trade_settled && after_reserve < trader_margin + coordinator_margin {
        Err(FeeError::CoordinatorMargin)
    } else {
        Ok(
            sub_channel_sats - owned_value(
                trade_settled,
                inbound_capacity,
                outbound_capacity,
                trader_margin,
                coordinator_margin,
                reserve,
            ),
        )
    }
}

/// The fees that the transactions of a channel have taken, found as the difference between the
/// channel's value and what the parties own. There is no easier way to the fees of all
/// transactions of a channel.
///
/// The reserve is set aside once for each party; where both shares fit into the channel's value,
/// twice the reserve has to be a machine integer.
pub fn calculate_dlc_channel_tx_fees(
    trade_settled: bool,
    sub_channel_sats: u64,
    inbound_capacity: u64,
    outbound_capacity: u64,
    trader_margin: u64,
    coordinator_margin: u64,
    reserve: u64,
) -> (fees: Result<u64, FeeError>)
    requires
        inbound_capacity + outbound_capacity <= sub_channel_sats ==> 2 * reserve <= u64::MAX,
    ensures
        match dlc_channel_tx_fees(
            trade_settled,
            sub_channel_sats as int,
            inbound_capacity as int,
            outbound_capacity as int,
            trader_margin as int,
            coordinator_margin as int,
            reserve as int,
        ) {
            Ok(sats) => fees matches Ok(found) && found == sats,
            Err(error) => fees == Err::<u64, FeeError>(error),
        },
        fees matches Ok(found) ==> found + inbound_capacity + outbound_capacity + 2 * reserve + (
        if trade_settled {
            0
        } else {
            trader_margin + coordinator_margin
        }) == sub_channel_sats,
{
    let after_inbound: u64 = match sub_channel_sats.checked_sub(inbound_capacity) {
        Some(rest) => rest,
        None => return Err(FeeError::InboundCapacity),
    };
    let after_outbound: u64 = match after_inbound.checked_sub(outbound_capacity) {
        Some(rest) => rest,
        None => return Err(FeeError::OutboundCapacity),
    };
    let after_reserve: u64 = match after_outbound.checked_sub(reserve * 2) {
        Some(rest) => rest,
        None => return Err(FeeError::Reserve),
    };
    if trade_settled {
        return Ok(after_reserve);
    }
    // The lightning channel has not been updated yet, so the margins count as well.
    let after_trader: u64 = match after_reserve.checked_sub(trader_margin) {
        Some(rest) => rest,
        None => return Err(FeeError::TraderMargin),
    };
    match after_trader.checked_sub(coordinator_margin) {
        Some(rest) => Ok(rest),
        None => Err(FeeError::CoordinatorMargin),
    }
}

/// Law: what the parties own and the fees found make up the channel's value exactly, and the fees
/// are found whenever the parties own no more than that.
pub proof fn law_fees_and_shares_make_up_the_channel(
    trade_settled: bool,
    sub_channel_sats: nat,
    inbound_capacity: nat,
    outbound_capacity: nat,
    trader_margin: nat,
    coordinator_margin: nat,
    reserve: nat,
)
    ensures
        ({
            let fees = dlc_channel_tx_fees(
                trade_settled,
                sub_channel_sats as int,
                inbound_capacity as int,
                outbound_capacity as int,
                trader_margin as int,
                coordinator_margin as int,
                reserve as int,
            );
            let owned = owned_value(
                trade_settled,
                inbound_capacity as int,
                outbound_capacity as int,
                trader_margin as int,
                coordinator_margin as int,
                reserve as int,
            );
            &&& fees is Ok <==> owned <= sub_channel_sats
            &&& fees matches Ok(sats) ==> 0 <= sats && sats + owned == sub_channel_sats
        }),
{
}

/// Law: the fees found, both capacities, the reserve of each party and, as long as the trade is open,
/// both margins add up to the channel's value. If they are not found, the error names the first of
/// these, in this order, with which the sum exceeds the channel's value.
pub proof fn law_fees_are_what_is_left(
    trade_settled: bool,
    sub_channel_sats: nat,
    inbound_capacity: nat,
    outbound_capacity: nat,
    trader_margin: nat,
    coordinator_margin: nat,
    reserve: nat,
)
    ensures
        ({
            let fees = dlc_channel_tx_fees(
                trade_settled,
                sub_channel_sats as int,
                inbound_capacity as int,
                outbound_capacity as int,
                trader_margin as int,
                coordinator_margin as int,
                reserve as int,
            );
            let with_outbound = inbound_capacity + outbound_capacity;
            let with_reserve = inbound_capacity + outbound_capacity + reserve + reserve;
            &&& fees matches Ok(sats) ==> 0 <= sats && sats + inbound_capacity + outbound_capacity + 2
                * reserve + (if trade_settled {
                0
            } else {
                trader_margin + coordinator_margin
            }) == sub_channel_sats
            &&& fees == Err::<int, FeeError>(FeeError::InboundCapacity) <==> sub_channel_sats
                < inbound_capacity
            &&& fees == Err::<int, FeeError>(FeeError::OutboundCapacity) <==> inbound_capacity
                <= sub_channel_sats < with_outbound
            &&& fees == Err::<int, FeeError>(FeeError::Reserve) <==> with_outbound
                <= sub_channel_sats < with_reserve
            &&& fees == Err::<int, FeeError>(FeeError::TraderMargin) <==> !trade_settled
                && with_reserve <= sub_channel_sats < with_reserve + trader_margin
            &&& fees == Err::<int, FeeError>(FeeError::CoordinatorMargin) <==> !trade_settled
                && with_reserve + trader_margin <= sub_channel_sats < with_reserve + trader_margin
                + coordinator_margin
        }),
{
}

/// Law: settling a trade moves each margin back into its owner's side of the lightning channel,
/// and the fees found before and after that are the same.
pub proof fn law_settling_leaves_the_fees(
    sub_channel_sats: nat,
    inbound_capacity: nat,
    outbound_capacity: nat,
    trader_margin: nat,
    coordinator_margin: nat,
    reserve: nat,
)
    ensures
        ({
            let open = dlc_channel_tx_fees(
                false,
                sub_channel_sats as int,
                inbound_capacity as int,
                outbound_capacity as int,
                trader_margin as int,
                coordinator_margin as int,
                reserve as int,
            );
            let settled = dlc_channel_tx_fees(
                true,
                sub_channel_sats as int,
                (inbound_capacity + trader_margin) as int,
                (outbound_capacity + coordinator_margin) as int,
                trader_margin as int,
                coordinator_margin as int,
                reserve as int,
            );
            &&& open is Ok <==> settled is Ok
            &&& open is Ok ==> open == settled
        }),
{
}

} // verus!
