//! Proposing to a trader that their channel be reverted collaboratively.
//!
//! The flow decides what is to be done next and takes back what came of it; whoever drives it talks
//! to the database, the node and the trader. `P` is the type of a price, and `E` is whatever the
//! driver reports a failure with.
use crate::amounts::as_unsigned;
use crate::amounts::law_both_are_paid_if_their_shares_cover_the_fee;
use crate::amounts::law_fee_is_shared_fairly;
use crate::amounts::law_shares_of_a_reverted_channel;
use crate::amounts::to_unsigned;
use crate::amounts::RevertAmounts;
use crate::amounts::Terms;
use crate::channel::find_channel;
use crate::channel::first_with_id;
use crate::channel::law_found_channel_has_the_id;
use crate::channel::law_found_channel_is_the_first;
use crate::channel::ChannelDetails;
use crate::channel::ChannelId;
use crate::channel::PublicKey;
use crate::channel::SubChannel;
use crate::fees::calculate_dlc_channel_tx_fees;
use crate::fees::dlc_channel_tx_fees;
use crate::fees::FeeError;
use vstd::prelude::*;

verus! {

/// A trader's position with the coordinator.
#[derive(Clone, Copy, Debug)]
pub struct Position {
    pub trader: PublicKey,
    pub trader_margin: i64,
    pub coordinator_margin: i64,
}

/// A channel and the position that it backs.
#[derive(Clone, Copy, Debug)]
pub struct Deal {
    pub details: ChannelDetails,
    pub fund_value_satoshis: u64,
    pub position: Position,
}

/// What the operator asks for when a channel is to be reverted. `P` is the type of a price.
#[derive(Debug)]
pub struct RevertParams<P> {
    /// The price at which the position is settled.
    pub price: P,
    /// The fee rate of the transaction that reverts the channel.
    pub fee_rate_sats_vb: u64,
    /// The transaction that funded the channel.
    pub txid: [u8; 32],
    /// Which of its outputs did.
    pub vout: u32,
}

/// A proposal to revert a channel, as it is recorded.
#[derive(Debug)]
pub struct CollaborativeRevert<P> {
    pub channel_id: ChannelId,
    pub trader_pubkey: PublicKey,
    /// The price at which the position is settled.
    pub price: P,
    pub coordinator_address: String,
    pub coordinator_amount_sats: u64,
    pub trader_amount_sats: u64,
    pub txid: [u8; 32],
    pub vout: u32,
}

/// What a trader's device is notified of beside the message itself.
#[derive(Clone, Copy, Debug, PartialEq, Eq, Structural)]
pub enum NotificationKind {
    /// A channel is to be reverted.
    CollaborativeRevert,
}

/// A proposal to revert a channel, as the trader is told of it.
#[derive(Debug)]
pub struct TraderMessage<P> {
    pub trader_id: PublicKey,
    pub channel_id: ChannelId,
    pub coordinator_address: String,
    pub coordinator_amount_sats: u64,
    pub trader_amount_sats: u64,
    /// The price at which the position is settled.
    pub execution_price: P,
    pub notification: Option<NotificationKind>,
}

impl<P: Copy> CollaborativeRevert<P> {
    /// What the trader is told of a recorded proposal.
    pub open spec fn message(self) -> TraderMessage<P> {
        TraderMessage {
            trader_id: self.trader_pubkey,
            channel_id: self.channel_id,
            coordinator_address: self.coordinator_address,
            coordinator_amount_sats: self.coordinator_amount_sats,
            trader_amount_sats: self.trader_amount_sats,
            execution_price: self.price,
            notification: Some(NotificationKind::CollaborativeRevert),
        }
    }

    /// Writes what the trader is told of a recorded proposal.
    fn to_message(&self) -> (message: TraderMessage<P>)
        ensures
            message == self.message(),
    {
        TraderMessage {
            trader_id: self.trader_pubkey,
            channel_id: self.channel_id,
            coordinator_address: self.coordinator_address.clone(),
            coordinator_amount_sats: self.coordinator_amount_sats,
            trader_amount_sats: self.trader_amount_sats,
            execution_price: self.price,
            notification: Some(NotificationKind::CollaborativeRevert),
        }
    }
}

/// Why a proposal did not come about.
#[derive(Clone, Copy, Debug, PartialEq, Eq, Structural)]
pub enum NotifyError {
    /// The database could not be reached.
    Connection,
    /// The node does not know the channel.
    NoChannelDetails,
    /// The node could not list its channels.
    ListChannels,
    /// None of the listed channels is the one to revert.
    NoChannel,
    /// The position could not be looked up.
    LoadPosition,
    /// The trader has no position.
    NoPosition,
    /// The settlement amount could not be calculated.
    Settlement,
    /// The fees of the channel could not be found.
    Fees(FeeError),
    /// The proposal could not be recorded.
    Insert,
    /// The trader could not be told.
    Notify,
}

impl NotifyError {
    /// What the error says beside its cause. A failed look-up of the position says nothing of its
    /// own, and a failed message puts its cause behind the text.
    pub open spec fn text(self) -> Option<Seq<char>> {
        match self {
            NotifyError::Connection => Some("Could not acquire db lock"@),
            NotifyError::NoChannelDetails => Some("Could not get channel"@),
            NotifyError::ListChannels => Some("Could not list dlc channels"@),
            NotifyError::NoChannel => Some("Could not find provided channel"@),
            NotifyError::LoadPosition => None,
            NotifyError::NoPosition => Some("Could not load position for channel_id"@),
            NotifyError::Settlement => Some("Could not calculate settlement amount"@),
            NotifyError::Fees(error) => Some(error.text()),
            NotifyError::Insert => Some("Could not insert new collaborative revert"@),
            NotifyError::Notify => Some("Could send message to notify user "@),
        }
    }

    /// The text that a caller shows for this error, if it has one of its own.
    pub fn message(&self) -> (text: Option<String>)
        ensures
            match text {
                Some(shown) => self.text() == Some(shown@),
                None => self.text() is None,
            },
    {
        Some(
            match self {
                NotifyError::Connection => "Could not acquire db lock".to_owned(),
                NotifyError::NoChannelDetails => "Could not get channel".to_owned(),
                NotifyError::ListChannels => "Could not list dlc channels".to_owned(),
                NotifyError::NoChannel => "Could not find provided channel".to_owned(),
                NotifyError::LoadPosition => return None,
                NotifyError::NoPosition => "Could not load position for channel_id".to_owned(),
                NotifyError::Settlement => "Could not calculate settlement amount".to_owned(),
                NotifyError::Fees(error) => error.message(),
                NotifyError::Insert => "Could not insert new collaborative revert".to_owned(),
                NotifyError::Notify => "Could send message to notify user ".to_owned(),
            },
        )
    }
}

/// What is to be done next, with what is known by then.
#[derive(Debug)]
pub enum NotifyStep<P, E> {
    /// Take a connection to the database.
    AcquireConnection,
    /// Ask the node for the lightning side of the channel.
    GetChannelDetails,
    /// Ask the node for all channels that carry a contract.
    ListDlcChannels { details: ChannelDetails },
    /// Look up the position of the trader at the other end of the channel.
    LoadPosition { details: ChannelDetails, fund_value_satoshis: u64 },
    /// Calculate what the trader is owed for the position at the given price.
    CalculateSettlement { deal: Deal, price: P },
    /// Ask the wallet for an address that has not been used.
    GetUnusedAddress { trader: PublicKey, terms: Terms, amounts: RevertAmounts },
    /// Record the proposal.
    InsertRevert { terms: Terms, revert: CollaborativeRevert<P> },
    /// Tell the trader of the proposal.
    NotifyTrader { terms: Terms, revert: CollaborativeRevert<P>, message: TraderMessage<P> },
    /// Nothing: the proposal is recorded and the trader has been told.
    Done { terms: Terms, revert: CollaborativeRevert<P> },
    /// Nothing: the flow ended early.
    Failed { reason: NotifyError, cause: Option<E> },
}

/// What came of a step.
#[derive(Debug)]
pub enum NotifyEvent<E> {
    Connection(Result<(), E>),
    ChannelDetails(Option<ChannelDetails>),
    Channels(Result<Vec<SubChannel>, E>),
    Position(Result<Option<Position>, E>),
    Settlement(Result<u64, E>),
    UnusedAddress(String),
    Inserted(Result<(), E>),
    Notified(Result<(), E>),
}

/// The flow that proposes to revert one channel.
#[derive(Debug)]
pub struct Notification<P, E> {
    pub channel_id: ChannelId,
    pub params: RevertParams<P>,
    pub step: NotifyStep<P, E>,
}

impl Deal {
    /// A trade is settled once the lightning channel has the whole value of the funding output.
    pub open spec fn trade_settled(self) -> bool {
        self.fund_value_satoshis == self.details.channel_value_satoshis
    }

    /// The reserve in satoshis.
    pub open spec fn reserve(self) -> u64 {
        match self.details.unspendable_punishment_reserve {
            Some(reserve) => reserve,
            None => 0,
        }
    }

    /// The fees that the channel's transactions have taken.
    pub open spec fn fees(self) -> Result<int, FeeError> {
        dlc_channel_tx_fees(
            self.trade_settled(),
            self.fund_value_satoshis as int,
            (self.details.inbound_capacity_msat / 1000) as int,
            (self.details.outbound_capacity_msat / 1000) as int,
            as_unsigned(self.position.trader_margin as int),
            as_unsigned(self.position.coordinator_margin as int),
            self.reserve() as int,
        )
    }

    /// Whether the fees can be looked for in machine integers.
    pub open spec fn fees_in_range(self) -> bool {
        self.details.inbound_capacity_msat / 1000 + self.details.outbound_capacity_msat / 1000
            <= self.fund_value_satoshis ==> 2 * self.reserve() <= u64::MAX
    }

    /// The terms on which the channel is reverted.
    pub open spec fn terms(self, settlement_amount: u64, fee: int, fee_rate_sats_vb: u64) -> Terms {
        Terms {
            trade_settled: self.trade_settled(),
            fund_value: self.fund_value_satoshis,
            inbound_capacity: self.details.inbound_capacity_msat / 1000,
            settlement_amount,
            dlc_channel_fee: fee as u64,
            reserve: self.reserve(),
            fee_rate_sats_vb,
        }
    }

    /// Whether the deal can be worked out: the fees can be looked for and, if they are found, both
    /// parties can be paid.
    pub open spec fn computable(self, settlement_amount: u64, fee_rate_sats_vb: u64) -> bool {
        &&& self.fees_in_range()
        &&& self.fees() matches Ok(fee) ==> self.terms(
            settlement_amount,
            fee,
            fee_rate_sats_vb,
        ).payable()
    }

    /// The terms on which the channel is reverted and what each party gets, or why the fees are not
    /// found. There is no answer for a deal that cannot be worked out.
    fn work_out(&self, settlement_amount: u64, fee_rate_sats_vb: u64) -> (outcome: Option<
        Result<(Terms, RevertAmounts), FeeError>,
    >)
        ensures
            self.computable(settlement_amount, fee_rate_sats_vb) <==> outcome is Some,
            outcome matches Some(found) ==> match self.fees() {
                Ok(fee) => found matches Ok((terms, amounts)) && terms == self.terms(
                    settlement_amount,
                    fee,
                    fee_rate_sats_vb,
                ) && (amounts.coordinator as int, amounts.trader as int) == terms.amounts(),
                Err(error) => found == Err::<(Terms, RevertAmounts), FeeError>(error),
            },
    {
        let trade_settled = self.fund_value_satoshis == self.details.channel_value_satoshis;
        let inbound_capacity: u64 = self.details.inbound_capacity_msat / 1000;
        let outbound_capacity: u64 = self.details.outbound_capacity_msat / 1000;
        let reserve: u64 = match self.details.unspendable_punishment_reserve {
            Some(reserve) => reserve,
            None => 0,
        };
        if inbound_capacity + outbound_capacity <= self.fund_value_satoshis && reserve > u64::MAX / 2 {
            return None;
        }
        let fee: u64 = match calculate_dlc_channel_tx_fees(
            trade_settled,
            self.fund_value_satoshis,
            inbound_capacity,
            outbound_capacity,
            to_unsigned(self.position.trader_margin),
            to_unsigned(self.position.coordinator_margin),
            reserve,
        ) {
            Ok(fee) => fee,
            Err(error) => return Some(Err(error)),
        };
        let terms = Terms {
            trade_settled,
            fund_value: self.fund_value_satoshis,
            inbound_capacity,
            settlement_amount,
            dlc_channel_fee: fee,
            reserve,
            fee_rate_sats_vb,
        };
        match terms.checked_amounts() {
            Some(amounts) => Some(Ok((terms, amounts))),
            None => None,
        }
    }
}

impl<P: Copy, E> Notification<P, E> {
    /// The flow with another step.
    pub open spec fn at(self, step: NotifyStep<P, E>) -> Notification<P, E> {
        Notification { step, ..self }
    }

    /// The flow after it has ended early.
    pub open spec fn failed(self, reason: NotifyError, cause: Option<E>) -> Notification<P, E> {
        self.at(NotifyStep::Failed { reason, cause })
    }

    /// Whether the event is what came of the current step. A settlement amount is only taken if the
    /// deal can be worked out with it.
    pub open spec fn takes(self, event: NotifyEvent<E>) -> bool {
        match (self.step, event) {
            (NotifyStep::AcquireConnection, NotifyEvent::Connection(_)) => true,
            (NotifyStep::GetChannelDetails, NotifyEvent::ChannelDetails(_)) => true,
            (NotifyStep::ListDlcChannels { .. }, NotifyEvent::Channels(_)) => true,
            (NotifyStep::LoadPosition { .. }, NotifyEvent::Position(_)) => true,
            (NotifyStep::CalculateSettlement { deal, .. }, NotifyEvent::Settlement(settled)) => {
                settled matches Ok(amount) ==> deal.computable(amount, self.params.fee_rate_sats_vb)
            },
            (NotifyStep::GetUnusedAddress { .. }, NotifyEvent::UnusedAddress(_)) => true,
            (NotifyStep::InsertRevert { .. }, NotifyEvent::Inserted(_)) => true,
            (NotifyStep::NotifyTrader { .. }, NotifyEvent::Notified(_)) => true,
            _ => false,
        }
    }

    /// The flow after an event that it takes.
    pub open spec fn next(self, event: NotifyEvent<E>) -> Notification<P, E> {
        match (self.step, event) {
            (NotifyStep::AcquireConnection, NotifyEvent::Connection(acquired)) => match acquired {
                Ok(_) => self.at(NotifyStep::GetChannelDetails),
                Err(cause) => self.failed(NotifyError::Connection, Some(cause)),
            },
            (NotifyStep::GetChannelDetails, NotifyEvent::ChannelDetails(known)) => match known {
                Some(details) => self.at(NotifyStep::ListDlcChannels { details }),
                None => self.failed(NotifyError::NoChannelDetails, None),
            },
            (NotifyStep::ListDlcChannels { details }, NotifyEvent::Channels(listed)) => match listed {
                Ok(channels) => match first_with_id(channels@, self.channel_id@) {
                    Some(channel) => self.at(
                        NotifyStep::LoadPosition {
                            details,
                            fund_value_satoshis: channel.fund_value_satoshis,
                        },
                    ),
                    None => self.failed(NotifyError::NoChannel, None),
                },
                Err(cause) => self.failed(NotifyError::ListChannels, Some(cause)),
            },
            (
                NotifyStep::LoadPosition { details, fund_value_satoshis },
                NotifyEvent::Position(loaded),
            ) => match loaded {
                Ok(Some(position)) => self.at(
                    NotifyStep::CalculateSettlement {
                        deal: Deal { details, fund_value_satoshis, position },
                        price: self.params.price,
                    },
                ),
                Ok(None) => self.failed(NotifyError::NoPosition, None),
                Err(cause) => self.failed(NotifyError::LoadPosition, Some(cause)),
            },
            (NotifyStep::CalculateSettlement { deal, .. }, NotifyEvent::Settlement(settled)) => {
                match settled {
                    Ok(amount) => match deal.fees() {
                        Ok(fee) => {
                            let terms = deal.terms(amount, fee, self.params.fee_rate_sats_vb);
                            self.at(
                                NotifyStep::GetUnusedAddress {
                                    trader: deal.position.trader,
                                    terms,
                                    amounts: RevertAmounts {
                                        coordinator: terms.amounts().0 as u64,
                                        trader: terms.amounts().1 as u64,
                                    },
                                },
                            )
                        },
                        Err(error) => self.failed(NotifyError::Fees(error), None),
                    },
                    Err(cause) => self.failed(NotifyError::Settlement, Some(cause)),
                }
            },
            (
                NotifyStep::GetUnusedAddress { trader, terms, amounts },
                NotifyEvent::UnusedAddress(address),
            ) => self.at(
                NotifyStep::InsertRevert {
                    terms,
                    revert: CollaborativeRevert {
                        channel_id: self.channel_id,
                        trader_pubkey: trader,
                        price: self.params.price,
                        coordinator_address: address,
                        coordinator_amount_sats: amounts.coordinator,
                        trader_amount_sats: amounts.trader,
                        txid: self.params.txid,
                        vout: self.params.vout,
                    },
                },
            ),
            (NotifyStep::InsertRevert { terms, revert }, NotifyEvent::Inserted(inserted)) => {
                match inserted {
                    Ok(_) => self.at(
                        NotifyStep::NotifyTrader { terms, revert, message: revert.message() },
                    ),
                    Err(cause) => self.failed(NotifyError::Insert, Some(cause)),
                }
            },
            (NotifyStep::NotifyTrader { terms, revert, .. }, NotifyEvent::Notified(notified)) => {
                match notified {
                    Ok(_) => self.at(NotifyStep::Done { terms, revert }),
                    Err(cause) => self.failed(NotifyError::Notify, Some(cause)),
                }
            },
            _ => self,
        }
    }

    /// Whether the flow takes the event as what came of the current step.
    pub fn accepts(&self, event: &NotifyEvent<E>) -> (accepted: bool)
        ensures
            accepted == self.takes(*event),
    {
        match (&self.step, event) {
            (NotifyStep::AcquireConnection, NotifyEvent::Connection(_)) => true,
            (NotifyStep::GetChannelDetails, NotifyEvent::ChannelDetails(_)) => true,
            (NotifyStep::ListDlcChannels { .. }, NotifyEvent::Channels(_)) => true,
            (NotifyStep::LoadPosition { .. }, NotifyEvent::Position(_)) => true,
            (NotifyStep::CalculateSettlement { deal, .. }, NotifyEvent::Settlement(settled)) => {
                match settled {
                    Ok(amount) => deal.work_out(*amount, self.params.fee_rate_sats_vb).is_some(),
                    Err(_) => true,
                }
            },
            (NotifyStep::GetUnusedAddress { .. }, NotifyEvent::UnusedAddress(_)) => true,
            (NotifyStep::InsertRevert { .. }, NotifyEvent::Inserted(_)) => true,
            (NotifyStep::NotifyTrader { .. }, NotifyEvent::Notified(_)) => true,
            _ => false,
        }
    }

    /// Takes what came of the current step and decides on the next one.
    pub fn advance(self, event: NotifyEvent<E>) -> (flow: Notification<P, E>)
        requires
            self.takes(event),
        ensures
            flow == self.next(event),
    {
        let Notification { channel_id, params, step } = self;
        let step = match (step, event) {
            (NotifyStep::AcquireConnection, NotifyEvent::Connection(acquired)) => match acquired {
                Ok(_) => NotifyStep::GetChannelDetails,
                Err(cause) => NotifyStep::Failed {
                    reason: NotifyError::Connection,
                    cause: Some(cause),
                },
            },
            (NotifyStep::GetChannelDetails, NotifyEvent::ChannelDetails(known)) => match known {
                Some(details) => NotifyStep::ListDlcChannels { details },
                None => NotifyStep::Failed { reason: NotifyError::NoChannelDetails, cause: None },
            },
            (NotifyStep::ListDlcChannels { details }, NotifyEvent::Channels(listed)) => match listed {
                Ok(channels) => match find_channel(channels, &channel_id) {
                    Some(channel) => NotifyStep::LoadPosition {
                        details,
                        fund_value_satoshis: channel.fund_value_satoshis,
                    },
                    None => NotifyStep::Failed { reason: NotifyError::NoChannel, cause: None },
                },
                Err(cause) => NotifyStep::Failed {
                    reason: NotifyError::ListChannels,
                    cause: Some(cause),
                },
            },
            (
                NotifyStep::LoadPosition { details, fund_value_satoshis },
                NotifyEvent::Position(loaded),
            ) => match loaded {
                Ok(Some(position)) => NotifyStep::CalculateSettlement {
                    deal: Deal { details, fund_value_satoshis, position },
                    price: params.price,
                },
                Ok(None) => NotifyStep::Failed { reason: NotifyError::NoPosition, cause: None },
                Err(cause) => NotifyStep::Failed {
                    reason: NotifyError::LoadPosition,
                    cause: Some(cause),
                },
            },
            (NotifyStep::CalculateSettlement { deal, price }, NotifyEvent::Settlement(settled)) => {
                match settled {
                    Ok(amount) => match deal.work_out(amount, params.fee_rate_sats_vb) {
                        Some(Ok((terms, amounts))) => NotifyStep::GetUnusedAddress {
                            trader: deal.position.trader,
                            terms,
                            amounts,
                        },
                        Some(Err(error)) => NotifyStep::Failed {
                            reason: NotifyError::Fees(error),
                            cause: None,
                        },
                        None => NotifyStep::CalculateSettlement { deal, price },
                    },
                    Err(cause) => NotifyStep::Failed {
                        reason: NotifyError::Settlement,
                        cause: Some(cause),
                    },
                }
            },
            (
                NotifyStep::GetUnusedAddress { trader, terms, amounts },
                NotifyEvent::UnusedAddress(address),
            ) => NotifyStep::InsertRevert {
                terms,
                revert: CollaborativeRevert {
                    channel_id,
                    trader_pubkey: trader,
                    price: params.price,
                    coordinator_address: address,
                    coordinator_amount_sats: amounts.coordinator,
                    trader_amount_sats: amounts.trader,
                    txid: params.txid,
                    vout: params.vout,
                },
            },
            (NotifyStep::InsertRevert { terms, revert }, NotifyEvent::Inserted(inserted)) => {
                match inserted {
                    Ok(_) => {
                        let message = revert.to_message();
                        NotifyStep::NotifyTrader { terms, revert, message }
                    },
                    Err(cause) => NotifyStep::Failed {
                        reason: NotifyError::Insert,
                        cause: Some(cause),
                    },
                }
            },
            (NotifyStep::NotifyTrader { terms, revert, .. }, NotifyEvent::Notified(notified)) => {
                match notified {
                    Ok(_) => NotifyStep::Done { terms, revert },
                    Err(cause) => NotifyStep::Failed {
                        reason: NotifyError::Notify,
                        cause: Some(cause),
                    },
                }
            },
            (step, _) => step,
        };
        Notification { channel_id, params, step }
    }
}

/// Starts the flow that proposes to the trader at the other end of a channel that the channel be
/// reverted as the parameters say.
pub fn notify_user_to_collaboratively_revert<P: Copy, E>(
    channel_id: ChannelId,
    params: RevertParams<P>,
) -> (flow: Notification<P, E>)
    ensures
        flow == notification_start::<P, E>(channel_id, params),
{
    Notification { channel_id, params, step: NotifyStep::AcquireConnection }
}

/// The flow before anything has been done.
pub open spec fn notification_start<P: Copy, E>(
    channel_id: ChannelId,
    params: RevertParams<P>,
) -> Notification<P, E> {
    Notification { channel_id, params, step: NotifyStep::AcquireConnection }
}

/// The flow after a number of events.
pub open spec fn after<P: Copy, E>(
    flow: Notification<P, E>,
    events: Seq<NotifyEvent<E>>,
) -> Notification<P, E>
    decreases events.len(),
{
    if events.len() == 0 {
        flow
    } else {
        after(flow, events.drop_last()).next(events.last())
    }
}

/// Whether each of the events is what came of the step that the flow had reached.
pub open spec fn plays_out<P: Copy, E>(
    flow: Notification<P, E>,
    events: Seq<NotifyEvent<E>>,
) -> bool
    decreases events.len(),
{
    events.len() == 0 || {
        &&& plays_out(flow, events.drop_last())
        &&& after(flow, events.drop_last()).takes(events.last())
    }
}

/// What a proposal has to do with the events before it: the channel found under the identifier asked
/// for, the position found behind it, what that position settles at, and the address handed out.
pub open spec fn proposal_follows<P: Copy, E>(
    flow: Notification<P, E>,
    events: Seq<NotifyEvent<E>>,
    trader: PublicKey,
    terms: Terms,
    coordinator_amount: u64,
    trader_amount: u64,
) -> bool {
    &&& events.len() >= 5
    &&& events[0] matches NotifyEvent::Connection(Ok(_))
    &&& events[1] matches NotifyEvent::ChannelDetails(Some(details))
    &&& events[2] matches NotifyEvent::Channels(Ok(channels))
    &&& first_with_id(channels@, flow.channel_id@) matches Some(channel)
    &&& events[3] matches NotifyEvent::Position(Ok(Some(position)))
    &&& events[4] matches NotifyEvent::Settlement(Ok(settlement_amount))
    &&& ({
        let deal = Deal {
            details,
            fund_value_satoshis: channel.fund_value_satoshis,
            position,
        };
        &&& trader == position.trader
        &&& deal.fees() matches Ok(fee)
        &&& terms == deal.terms(settlement_amount, fee, flow.params.fee_rate_sats_vb)
        &&& terms.payable()
        &&& (coordinator_amount as int, trader_amount as int) == terms.amounts()
    })
}

/// What the record of a proposal has to do with the events before it.
pub open spec fn record_follows<P: Copy, E>(
    flow: Notification<P, E>,
    events: Seq<NotifyEvent<E>>,
    terms: Terms,
    revert: CollaborativeRevert<P>,
) -> bool {
    &&& proposal_follows(
        flow,
        events,
        revert.trader_pubkey,
        terms,
        revert.coordinator_amount_sats,
        revert.trader_amount_sats,
    )
    &&& revert.channel_id == flow.channel_id
    &&& revert.price == flow.params.price
    &&& revert.txid == flow.params.txid
    &&& revert.vout == flow.params.vout
    &&& events.len() >= 6
    &&& events[5] == NotifyEvent::<E>::UnusedAddress(revert.coordinator_address)
}

/// Whether the event says that a proposal has been recorded.
pub open spec fn is_recorded<E>(event: NotifyEvent<E>) -> bool {
    event matches NotifyEvent::Inserted(Ok(_))
}

/// Whether the event says that the trader has been told of a proposal.
pub open spec fn is_told<E>(event: NotifyEvent<E>) -> bool {
    event matches NotifyEvent::Notified(Ok(_))
}

/// What the step that a flow has reached has to do with the events before it.
pub open spec fn step_follows<P: Copy, E>(
    flow: Notification<P, E>,
    events: Seq<NotifyEvent<E>>,
    step: NotifyStep<P, E>,
) -> bool {
    match step {
        NotifyStep::AcquireConnection => events.len() == 0,
        NotifyStep::GetChannelDetails => {
            &&& events.len() == 1
            &&& events[0] matches NotifyEvent::Connection(Ok(_))
        },
        NotifyStep::ListDlcChannels { details } => {
            &&& events.len() == 2
            &&& events[0] matches NotifyEvent::Connection(Ok(_))
            &&& events[1] == NotifyEvent::<E>::ChannelDetails(Some(details))
        },
        NotifyStep::LoadPosition { details, fund_value_satoshis } => {
            &&& events.len() == 3
            &&& events[0] matches NotifyEvent::Connection(Ok(_))
            &&& events[1] == NotifyEvent::<E>::ChannelDetails(Some(details))
            &&& events[2] matches NotifyEvent::Channels(Ok(channels))
            &&& first_with_id(channels@, flow.channel_id@) matches Some(channel)
            &&& fund_value_satoshis == channel.fund_value_satoshis
        },
        NotifyStep::CalculateSettlement { deal, price } => {
            &&& events.len() == 4
            &&& price == flow.params.price
            &&& events[0] matches NotifyEvent::Connection(Ok(_))
            &&& events[1] == NotifyEvent::<E>::ChannelDetails(Some(deal.details))
            &&& events[2] matches NotifyEvent::Channels(Ok(channels))
            &&& first_with_id(channels@, flow.channel_id@) matches Some(channel)
            &&& deal.fund_value_satoshis == channel.fund_value_satoshis
            &&& events[3] == NotifyEvent::<E>::Position(Ok(Some(deal.position)))
        },
        NotifyStep::GetUnusedAddress { trader, terms, amounts } => {
            &&& events.len() == 5
            &&& proposal_follows(flow, events, trader, terms, amounts.coordinator, amounts.trader)
        },
        NotifyStep::InsertRevert { terms, revert } => {
            &&& events.len() == 6
            &&& record_follows(flow, events, terms, revert)
        },
        NotifyStep::NotifyTrader { terms, revert, message } => {
            &&& events.len() == 7
            &&& message == revert.message()
            &&& record_follows(flow, events, terms, revert)
            &&& events[6] matches NotifyEvent::Inserted(Ok(_))
        },
        NotifyStep::Done { terms, revert } => {
            &&& events.len() == 8
            &&& record_follows(flow, events, terms, revert)
            &&& events[6] matches NotifyEvent::Inserted(Ok(_))
            &&& events[7] matches NotifyEvent::Notified(Ok(_))
        },
        NotifyStep::Failed { reason, .. } => {
            &&& 1 <= events.len() <= 8
            &&& reason is Notify <==> exists|i: int|
                0 <= i < events.len() && is_recorded(#[trigger] events[i])
        },
    }
}

proof fn lemma_step_follows<P: Copy, E>(
    channel_id: ChannelId,
    params: RevertParams<P>,
    events: Seq<NotifyEvent<E>>,
)
    requires
        plays_out(notification_start::<P, E>(channel_id, params), events),
    ensures
        ({
            let start = notification_start::<P, E>(channel_id, params);
            let flow = after(start, events);
            &&& flow.channel_id == channel_id
            &&& flow.params == params
            &&& step_follows(start, events, flow.step)
        }),
    decreases events.len(),
{
    if events.len() > 0 {
        let earlier = events.drop_last();
        lemma_step_follows(channel_id, params, earlier);
        assert(events[events.len() - 1] == events.last());
        assert forall|i: int| 0 <= i < earlier.len() implies earlier[i] == events[i] by {}
    }
}

/// Law: however a flow plays out, the trader is told of a proposal only after that very proposal has
/// been recorded, and is told what was recorded. The proposal is about the channel and the funding
/// output asked for, it is made to the trader whose position the channel backs, it pays the
/// coordinator at the address that the wallet handed out, and it pays out the channel's whole value
/// but for the two halves of the reverting transaction's fee.
pub proof fn law_trader_is_told_of_a_recorded_proposal<P: Copy, E>(
    channel_id: ChannelId,
    params: RevertParams<P>,
    events: Seq<NotifyEvent<E>>,
)
    requires
        plays_out(notification_start::<P, E>(channel_id, params), events),
    ensures
        after(notification_start::<P, E>(channel_id, params), events).step matches
            NotifyStep::NotifyTrader { terms, revert, message } ==> {
            &&& message == revert.message()
            &&& record_follows(
                notification_start::<P, E>(channel_id, params),
                events,
                terms,
                revert,
            )
            &&& events.last() matches NotifyEvent::Inserted(Ok(_))
            &&& after(
                notification_start::<P, E>(channel_id, params),
                events.drop_last(),
            ).step == NotifyStep::<P, E>::InsertRevert { terms, revert }
            &&& revert.coordinator_amount_sats + revert.trader_amount_sats + 2 * (terms.revert_fee()
                / 2) == terms.fund_value
        },
{
    lemma_step_follows(channel_id, params, events);
    if events.len() > 0 {
        lemma_step_follows(channel_id, params, events.drop_last());
    }
}

/// Law: the fees of a deal, what each party has in the lightning channel in whole satoshis, the
/// reserve of each party and, unless the lightning channel has the whole value of the funding output,
/// both margins add up to that value. If the fees are not found, the error names the first of these
/// with which the sum exceeds it. Margins count as unsigned numbers of 64 bits.
pub proof fn law_fees_of_a_deal(deal: Deal)
    ensures
        ({
            let fund = deal.fund_value_satoshis as int;
            let settled = deal.fund_value_satoshis == deal.details.channel_value_satoshis;
            let inbound = deal.details.inbound_capacity_msat as int / 1000;
            let outbound = deal.details.outbound_capacity_msat as int / 1000;
            let reserve = match deal.details.unspendable_punishment_reserve {
                Some(sats) => sats as int,
                None => 0,
            };
            let trader = deal.position.trader_margin as int % 0x1_0000_0000_0000_0000;
            let coordinator = deal.position.coordinator_margin as int % 0x1_0000_0000_0000_0000;
            let kept = inbound + outbound + 2 * reserve;
            &&& deal.fees() matches Ok(fee) ==> 0 <= fee && fee + kept + (if settled {
                0
            } else {
                trader + coordinator
            }) == fund
            &&& deal.fees() == Err::<int, FeeError>(FeeError::InboundCapacity) <==> fund < inbound
            &&& deal.fees() == Err::<int, FeeError>(FeeError::OutboundCapacity) <==> inbound <= fund
                < inbound + outbound
            &&& deal.fees() == Err::<int, FeeError>(FeeError::Reserve) <==> inbound + outbound <= fund
                < kept
            &&& deal.fees() == Err::<int, FeeError>(FeeError::TraderMargin) <==> !settled && kept
                <= fund < kept + trader
            &&& deal.fees() == Err::<int, FeeError>(FeeError::CoordinatorMargin) <==> !settled && kept
                + trader <= fund < kept + trader + coordinator
        }),
{
}

/// Law: the proposal that is recorded pays the trader what the trader has in the lightning channel, the
/// reserve and, unless the trade is settled, what the position settles at and half of the channel's
/// fees; it pays the coordinator the rest of the channel's value; and each pays half of what 168
/// virtual bytes cost at the fee rate asked for. `i` is the first channel listed with the identifier
/// asked for. This is about channels worth less than two to the power of 53, which is more than all
/// the money there is, and settlement amounts up to `i64::MAX`.
pub proof fn law_recorded_proposal_pays_what_is_owed<P: Copy, E>(
    channel_id: ChannelId,
    params: RevertParams<P>,
    events: Seq<NotifyEvent<E>>,
    details: ChannelDetails,
    channels: Vec<SubChannel>,
    i: int,
    position: Position,
    settlement_amount: u64,
    address: String,
)
    requires
        plays_out(notification_start::<P, E>(channel_id, params), events),
        after(notification_start::<P, E>(channel_id, params), events).step is InsertRevert,
        events[1] == NotifyEvent::<E>::ChannelDetails(Some(details)),
        events[2] == NotifyEvent::<E>::Channels(Ok(channels)),
        events[3] == NotifyEvent::<E>::Position(Ok(Some(position))),
        events[4] == NotifyEvent::<E>::Settlement(Ok(settlement_amount)),
        events[5] == NotifyEvent::<E>::UnusedAddress(address),
        0 <= i < channels@.len(),
        channels@[i].channel_id@ == channel_id@,
        forall|j: int| 0 <= j < i ==> (#[trigger] channels@[j]).channel_id@ != channel_id@,
        channels@[i].fund_value_satoshis < 0x20_0000_0000_0000,
        settlement_amount <= i64::MAX,
    ensures
        ({
            let revert = after(
                notification_start::<P, E>(channel_id, params),
                events,
            ).step->InsertRevert_revert;
            let fund = channels@[i].fund_value_satoshis as int;
            let settled = channels@[i].fund_value_satoshis == details.channel_value_satoshis;
            let inbound = details.inbound_capacity_msat as int / 1000;
            let outbound = details.outbound_capacity_msat as int / 1000;
            let reserve = match details.unspendable_punishment_reserve {
                Some(sats) => sats as int,
                None => 0,
            };
            let fees = fund - inbound - outbound - 2 * reserve - if settled {
                0
            } else {
                position.trader_margin + position.coordinator_margin
            };
            let owed = inbound + reserve + if settled {
                0
            } else {
                settlement_amount + fees / 2
            };
            let half_of_revert_fee = (168 * params.fee_rate_sats_vb) / 2;
            &&& fees >= 0
            &&& revert.trader_amount_sats == owed - half_of_revert_fee
            &&& revert.coordinator_amount_sats == fund - owed - half_of_revert_fee
            &&& revert.channel_id == channel_id
            &&& revert.trader_pubkey == position.trader
            &&& revert.price == params.price
            &&& revert.coordinator_address == address
            &&& revert.txid == params.txid
            &&& revert.vout == params.vout
        }),
{
    let start = notification_start::<P, E>(channel_id, params);
    lemma_step_follows(channel_id, params, events);
    law_found_channel_is_the_first(channels@, channel_id@, i);
    let deal = Deal { details, fund_value_satoshis: channels@[i].fund_value_satoshis, position };
    let fee = deal.fees()->Ok_0;
    let terms = deal.terms(settlement_amount, fee, params.fee_rate_sats_vb);
    assert(record_follows(
        start,
        events,
        after(start, events).step->InsertRevert_terms,
        after(start, events).step->InsertRevert_revert,
    ));
    assert(0 <= fee <= channels@[i].fund_value_satoshis);
    law_shares_of_a_reverted_channel(terms);
    law_fee_is_shared_fairly(terms.dlc_channel_fee);
}

/// Law: what a position settles at is taken exactly if the fees of the channel cannot be found, which
/// ends the flow, or each party's share covers half of what 168 virtual bytes cost at the fee rate
/// asked for. This is about channels worth less than two to the power of 53, which is more than all
/// the money there is, and amounts up to `i64::MAX`.
pub proof fn law_settlement_is_taken_if_both_can_pay<P: Copy, E>(
    flow: Notification<P, E>,
    settlement_amount: u64,
)
    requires
        flow.step is CalculateSettlement,
        flow.step->deal.fund_value_satoshis < 0x20_0000_0000_0000,
        flow.step->deal.position.trader_margin >= 0,
        flow.step->deal.position.coordinator_margin >= 0,
        flow.step->deal.details.unspendable_punishment_reserve matches Some(sats) ==> sats <= i64::MAX,
        settlement_amount <= i64::MAX,
    ensures
        ({
            let deal = flow.step->deal;
            let fund = deal.fund_value_satoshis as int;
            let settled = deal.fund_value_satoshis == deal.details.channel_value_satoshis;
            let inbound = deal.details.inbound_capacity_msat as int / 1000;
            let outbound = deal.details.outbound_capacity_msat as int / 1000;
            let reserve = match deal.details.unspendable_punishment_reserve {
                Some(sats) => sats as int,
                None => 0,
            };
            let fees = fund - inbound - outbound - 2 * reserve - if settled {
                0
            } else {
                deal.position.trader_margin + deal.position.coordinator_margin
            };
            let owed = inbound + reserve + if settled {
                0
            } else {
                settlement_amount + fees / 2
            };
            let half_of_revert_fee = (168 * flow.params.fee_rate_sats_vb) / 2;
            flow.takes(NotifyEvent::Settlement(Ok(settlement_amount))) <==> fees < 0 || {
                &&& 168 * flow.params.fee_rate_sats_vb <= u64::MAX
                &&& half_of_revert_fee <= owed
                &&& owed + half_of_revert_fee <= fund
            }
        }),
{
    let deal = flow.step->deal;
    law_fees_of_a_deal(deal);
    if let Ok(fee) = deal.fees() {
        let terms = deal.terms(settlement_amount, fee, flow.params.fee_rate_sats_vb);
        law_both_are_paid_if_their_shares_cover_the_fee(terms);
    }
}

/// Law: each step takes whatever can come of it, good or bad, and nothing else. The one exception is a
/// settlement amount with which the deal cannot be worked out.
pub proof fn law_each_step_takes_what_comes_of_it<P: Copy, E>(
    flow: Notification<P, E>,
    event: NotifyEvent<E>,
)
    ensures
        match event {
            NotifyEvent::Connection(_) => flow.takes(event) <==> flow.step is AcquireConnection,
            NotifyEvent::ChannelDetails(_) => flow.takes(event) <==> flow.step is GetChannelDetails,
            NotifyEvent::Channels(_) => flow.takes(event) <==> flow.step is ListDlcChannels,
            NotifyEvent::Position(_) => flow.takes(event) <==> flow.step is LoadPosition,
            NotifyEvent::Settlement(Err(_)) => flow.takes(event) <==> flow.step
                is CalculateSettlement,
            NotifyEvent::Settlement(Ok(_)) => flow.takes(event) ==> flow.step is CalculateSettlement,
            NotifyEvent::UnusedAddress(_) => flow.takes(event) <==> flow.step is GetUnusedAddress,
            NotifyEvent::Inserted(_) => flow.takes(event) <==> flow.step is InsertRevert,
            NotifyEvent::Notified(_) => flow.takes(event) <==> flow.step is NotifyTrader,
        },
{
}

/// Law: a flow ends early only for the outcome that the reason names, and hands on its cause.
pub proof fn law_reason_names_what_failed<P: Copy, E>(
    flow: Notification<P, E>,
    event: NotifyEvent<E>,
    reason: NotifyError,
    cause: Option<E>,
)
    requires
        flow.takes(event),
        flow.next(event).step == (NotifyStep::<P, E>::Failed { reason, cause }),
    ensures
        match reason {
            NotifyError::Connection => {
                &&& event matches NotifyEvent::Connection(Err(error))
                &&& cause == Some(error)
            },
            NotifyError::NoChannelDetails => {
                &&& event matches NotifyEvent::ChannelDetails(None)
                &&& cause is None
            },
            NotifyError::ListChannels => {
                &&& event matches NotifyEvent::Channels(Err(error))
                &&& cause == Some(error)
            },
            NotifyError::NoChannel => {
                &&& event matches NotifyEvent::Channels(Ok(channels))
                &&& forall|n: int|
                    0 <= n < channels@.len() ==> (#[trigger] channels@[n]).channel_id@
                        != flow.channel_id@
                &&& cause is None
            },
            NotifyError::LoadPosition => {
                &&& event matches NotifyEvent::Position(Err(error))
                &&& cause == Some(error)
            },
            NotifyError::NoPosition => {
                &&& event matches NotifyEvent::Position(Ok(None))
                &&& cause is None
            },
            NotifyError::Settlement => {
                &&& event matches NotifyEvent::Settlement(Err(error))
                &&& cause == Some(error)
            },
            NotifyError::Fees(error) => {
                &&& event matches NotifyEvent::Settlement(Ok(_))
                &&& flow.step->deal.fees() == Err::<int, FeeError>(error)
                &&& cause is None
            },
            NotifyError::Insert => {
                &&& event matches NotifyEvent::Inserted(Err(error))
                &&& cause == Some(error)
            },
            NotifyError::Notify => {
                &&& event matches NotifyEvent::Notified(Err(error))
                &&& cause == Some(error)
            },
        },
{
    if let NotifyEvent::Channels(Ok(channels)) = event {
        law_found_channel_has_the_id(channels@, flow.channel_id@);
    }
}

/// Law: a step that came off leads to the next one, and each carries on what is known by then. What
/// did not come off ends the flow.
pub proof fn law_success_leads_on<P: Copy, E>(flow: Notification<P, E>, event: NotifyEvent<E>)
    requires
        flow.takes(event),
    ensures
        flow.next(event).channel_id == flow.channel_id,
        flow.next(event).params == flow.params,
        ({
            let step = flow.next(event).step;
            match event {
                NotifyEvent::Connection(Ok(_)) => step is GetChannelDetails,
                NotifyEvent::ChannelDetails(Some(details)) => step is ListDlcChannels
                    && step->ListDlcChannels_details == details,
                NotifyEvent::Channels(Ok(channels)) => forall|n: int|
                    {
                        &&& 0 <= n < channels@.len()
                        &&& (#[trigger] channels@[n]).channel_id@ == flow.channel_id@
                        &&& forall|m: int|
                            0 <= m < n ==> (#[trigger] channels@[m]).channel_id@ != flow.channel_id@
                    } ==> {
                        &&& step is LoadPosition
                        &&& step->LoadPosition_details == flow.step->ListDlcChannels_details
                        &&& step->fund_value_satoshis == channels@[n].fund_value_satoshis
                    },
                NotifyEvent::Position(Ok(Some(position))) => {
                    &&& step is CalculateSettlement
                    &&& step->deal.position == position
                    &&& step->deal.details == flow.step->LoadPosition_details
                    &&& step->deal.fund_value_satoshis == flow.step->fund_value_satoshis
                    &&& step->price == flow.params.price
                },
                NotifyEvent::Settlement(Ok(settlement_amount)) => flow.step->deal.fees() is Ok ==> {
                    &&& step is GetUnusedAddress
                    &&& step->trader == flow.step->deal.position.trader
                },
                NotifyEvent::UnusedAddress(address) => {
                    let revert = step->InsertRevert_revert;
                    &&& step is InsertRevert
                    &&& revert.channel_id == flow.channel_id
                    &&& revert.trader_pubkey == flow.step->trader
                    &&& revert.price == flow.params.price
                    &&& revert.coordinator_address == address
                    &&& revert.coordinator_amount_sats == flow.step->amounts.coordinator
                    &&& revert.trader_amount_sats == flow.step->amounts.trader
                    &&& revert.txid == flow.params.txid
                    &&& revert.vout == flow.params.vout
                },
                NotifyEvent::Inserted(Ok(_)) => {
                    let revert = flow.step->InsertRevert_revert;
                    &&& step is NotifyTrader
                    &&& step->message.trader_id == revert.trader_pubkey
                    &&& step->message.channel_id == revert.channel_id
                    &&& step->message.coordinator_address == revert.coordinator_address
                    &&& step->message.coordinator_amount_sats == revert.coordinator_amount_sats
                    &&& step->message.trader_amount_sats == revert.trader_amount_sats
                    &&& step->message.execution_price == revert.price
                    &&& step->message.notification == Some(NotificationKind::CollaborativeRevert)
                },
                NotifyEvent::Notified(Ok(_)) => step is Done,
                _ => step is Failed,
            }
        }),
{
    if let NotifyEvent::Channels(Ok(channels)) = event {
        let step = flow.next(event).step;
        assert forall|n: int|
            {
                &&& 0 <= n < channels@.len()
                &&& (#[trigger] channels@[n]).channel_id@ == flow.channel_id@
                &&& forall|m: int|
                    0 <= m < n ==> (#[trigger] channels@[m]).channel_id@ != flow.channel_id@
            } implies {
            &&& step is LoadPosition
            &&& step->LoadPosition_details == flow.step->ListDlcChannels_details
            &&& step->fund_value_satoshis == channels@[n].fund_value_satoshis
        } by {
            law_found_channel_is_the_first(channels@, flow.channel_id@, n);
        }
    }
}

/// Law: the price that the operator asked for is the one at which the position is settled, the one
/// that is recorded and the one that the trader is told.
pub proof fn law_price_is_the_one_asked_for<P: Copy, E>(
    channel_id: ChannelId,
    params: RevertParams<P>,
    events: Seq<NotifyEvent<E>>,
)
    requires
        plays_out(notification_start::<P, E>(channel_id, params), events),
    ensures
        match after(notification_start::<P, E>(channel_id, params), events).step {
            NotifyStep::CalculateSettlement { price, .. } => price == params.price,
            NotifyStep::InsertRevert { revert, .. } => revert.price == params.price,
            NotifyStep::NotifyTrader { message, .. } => message.execution_price == params.price,
            NotifyStep::Done { revert, .. } => revert.price == params.price,
            _ => true,
        },
{
    lemma_step_follows(channel_id, params, events);
}

/// Law: a flow that is done has recorded exactly one proposal and sent exactly one message, in this
/// order. The message goes to the trader whose position the channel backs, agrees with the record on
/// the channel, the address, the amounts and the price, and notifies of a collaborative revert.
pub proof fn law_done_flow_has_recorded_and_told_once<P: Copy, E>(
    channel_id: ChannelId,
    params: RevertParams<P>,
    events: Seq<NotifyEvent<E>>,
)
    requires
        plays_out(notification_start::<P, E>(channel_id, params), events),
    ensures
        after(notification_start::<P, E>(channel_id, params), events).step matches NotifyStep::Done {
            terms,
            revert,
        } ==> {
            let start = notification_start::<P, E>(channel_id, params);
            &&& events.len() == 8
            &&& record_follows(start, events, terms, revert)
            &&& after(start, events.take(6)).step == NotifyStep::<P, E>::InsertRevert {
                terms,
                revert,
            }
            &&& after(start, events.take(7)).step matches NotifyStep::NotifyTrader { message, .. }
            &&& message.trader_id == revert.trader_pubkey
            &&& message.channel_id == channel_id
            &&& revert.channel_id == channel_id
            &&& message.coordinator_address == revert.coordinator_address
            &&& message.coordinator_amount_sats == revert.coordinator_amount_sats
            &&& message.trader_amount_sats == revert.trader_amount_sats
            &&& message.execution_price == params.price
            &&& revert.price == params.price
            &&& message.notification == Some(NotificationKind::CollaborativeRevert)
            &&& forall|i: int|
                0 <= i < events.len() ==> (is_recorded(#[trigger] events[i]) <==> i == 6)
            &&& forall|i: int| 0 <= i < events.len() ==> (is_told(#[trigger] events[i]) <==> i == 7)
        },
{
    lemma_step_follows(channel_id, params, events);
    if after(notification_start::<P, E>(channel_id, params), events).step is Done {
        let start = notification_start::<P, E>(channel_id, params);
        let told = events.drop_last();
        assert(plays_out(start, told) && after(start, told).takes(events.last()));
        assert(plays_out(start, told.drop_last()) && after(start, told.drop_last()).takes(told.last()));
        assert(events.take(7) =~= told);
        assert(events.take(6) =~= told.drop_last());
        lemma_step_follows(channel_id, params, told);
        lemma_step_follows(channel_id, params, told.drop_last());
    }
}

/// Law: a flow is done only if every step came off, and it is over after at most eight events: by
/// then it takes no more.
pub proof fn law_notification_ends<P: Copy, E>(
    channel_id: ChannelId,
    params: RevertParams<P>,
    events: Seq<NotifyEvent<E>>,
)
    requires
        plays_out(notification_start::<P, E>(channel_id, params), events),
    ensures
        ({
            let start = notification_start::<P, E>(channel_id, params);
            let flow = after(start, events);
            &&& events.len() <= 8
            &&& events.len() == 8 ==> flow.step is Done || flow.step is Failed
            &&& flow.step is Done ==> events.len() == 8
            &&& flow.step is Done ==> (events[6] matches NotifyEvent::Inserted(Ok(_)))
            &&& flow.step is Done ==> (events[7] matches NotifyEvent::Notified(Ok(_)))
            &&& flow.step is Done || flow.step is Failed ==> forall|event: NotifyEvent<E>|
                !flow.takes(event)
        }),
{
    lemma_step_follows(channel_id, params, events);
}

/// Law: a flow that ended early has recorded a proposal only if telling the trader is what failed.
pub proof fn law_early_end_leaves_no_record<P: Copy, E>(
    channel_id: ChannelId,
    params: RevertParams<P>,
    events: Seq<NotifyEvent<E>>,
)
    requires
        plays_out(notification_start::<P, E>(channel_id, params), events),
    ensures
        after(notification_start::<P, E>(channel_id, params), events).step matches
            NotifyStep::Failed { reason, .. } ==> (reason is Notify <==> exists|i: int|
            0 <= i < events.len() && is_recorded(#[trigger] events[i])),
{
    lemma_step_follows(channel_id, params, events);
}

} // verus!
