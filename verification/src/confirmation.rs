//! Confirming that a channel is reverted with a transaction that the trader has signed.
//!
//! The flow decides what is to be done next and takes back what came of it; whoever drives it talks
//! to the wallet, the node and the database. `E` is whatever the driver reports a failure with.
use crate::chain::finalize_multi_sig_input_transaction;
use crate::chain::law_signatures_stand_in_the_order_of_their_keys;
use crate::chain::multi_sig_witness;
use crate::chain::witness_view;
use crate::chain::Transaction;
use crate::chain::TransactionView;
use crate::channel::find_channel;
use crate::channel::first_with_id;
use crate::channel::law_found_channel_has_the_id;
use crate::channel::law_found_channel_is_the_first;
use crate::channel::ChannelId;
use crate::channel::SubChannel;
use crate::channel::SubChannelState;
use crate::text::hex_text;
use crate::text::join;
use crate::text::to_hex;
use vstd::prelude::*;

verus! {

/// Why a revert was not confirmed.
#[derive(Clone, Copy, Debug, PartialEq, Eq, Structural)]
pub enum ConfirmError {
    /// No output of the transaction is the coordinator's.
    NotPaid,
    /// The node could not list its channels.
    ListSubChannels,
    /// None of the listed channels is the one to revert.
    NoSubChannel,
    /// The position could not be looked up.
    LoadPosition,
    /// The trader has no position.
    NoPosition,
    /// It is not known which keys the channel has.
    NoChannelKeys,
    /// The coordinator's signature could not be made.
    Sign,
    /// The transaction could not be broadcast.
    Broadcast,
    /// The position could not be closed.
    ClosePosition,
    /// The channel could not be stored.
    UpsertSubChannel,
    /// The proposal could not be deleted.
    DeleteRevert,
}

impl ConfirmError {
    /// What the error says beside its cause. Where the position cannot be looked up, the channel
    /// cannot be stored or the proposal cannot be deleted there is only the cause.
    pub open spec fn text(self, channel_id: Seq<u8>) -> Option<Seq<char>> {
        match self {
            ConfirmError::NotPaid => Some(
                "Proposed collaborative revert transaction doesn't pay the coordinator"@,
            ),
            ConfirmError::ListSubChannels => Some("Failed to list subchannels"@),
            ConfirmError::NoSubChannel => Some("Could not find subchannel "@ + hex_text(channel_id)),
            ConfirmError::LoadPosition => None,
            ConfirmError::NoPosition => Some(
                "Could not load position for subchannel "@ + hex_text(channel_id),
            ),
            ConfirmError::NoChannelKeys => Some(
                "Could not get channel keys ID for subchannel "@ + hex_text(channel_id),
            ),
            ConfirmError::Sign => Some(
                "Could not get own signature for collaborative revert transaction"@,
            ),
            ConfirmError::Broadcast => Some("Could not broadcast transaction"@),
            ConfirmError::ClosePosition => Some("Could not set position to closed"@),
            ConfirmError::UpsertSubChannel => None,
            ConfirmError::DeleteRevert => None,
        }
    }

    /// The text that a caller shows for this error, if it has one of its own.
    pub fn message(&self, channel_id: &ChannelId) -> (text: Option<String>)
        ensures
            match text {
                Some(shown) => self.text(channel_id@) == Some(shown@),
                None => self.text(channel_id@) is None,
            },
    {
        Some(
            match self {
                ConfirmError::NotPaid =>
                    "Proposed collaborative revert transaction doesn't pay the coordinator".to_owned(),
                ConfirmError::ListSubChannels => "Failed to list subchannels".to_owned(),
                ConfirmError::NoSubChannel => join(
                    "Could not find subchannel ",
                    to_hex(channel_id).as_str(),
                ),
                ConfirmError::LoadPosition => return None,
                ConfirmError::NoPosition => join(
                    "Could not load position for subchannel ",
                    to_hex(channel_id).as_str(),
                ),
                ConfirmError::NoChannelKeys => join(
                    "Could not get channel keys ID for subchannel ",
                    to_hex(channel_id).as_str(),
                ),
                ConfirmError::Sign =>
                    "Could not get own signature for collaborative revert transaction".to_owned(),
                ConfirmError::Broadcast => "Could not broadcast transaction".to_owned(),
                ConfirmError::ClosePosition => "Could not set position to closed".to_owned(),
                ConfirmError::UpsertSubChannel => return None,
                ConfirmError::DeleteRevert => return None,
            },
        )
    }
}

/// What is to be done next, with what is known by then.
#[derive(Debug)]
pub enum ConfirmStep<E> {
    /// Ask the wallet whether an output of the transaction is its own.
    IsMine { transaction: Transaction, output: usize },
    /// Ask the node for all channels that carry a contract.
    ListSubChannels { transaction: Transaction },
    /// Look up the position of the trader at the other end of the channel.
    LoadPosition { transaction: Transaction, sub_channel: SubChannel },
    /// Ask the node which keys the lightning side of the channel has.
    GetChannelDetails { transaction: Transaction, sub_channel: SubChannel, position_id: i32 },
    /// Sign the transaction with the given keys of the channel.
    Sign {
        transaction: Transaction,
        sub_channel: SubChannel,
        position_id: i32,
        channel_keys_id: [u8; 32],
    },
    /// Broadcast the transaction, which both parties have signed.
    Broadcast { transaction: Transaction, sub_channel: SubChannel, position_id: i32 },
    /// Close the position.
    ClosePosition { transaction: Transaction, sub_channel: SubChannel, position_id: i32 },
    /// Store the channel, which is closed on chain.
    UpsertSubChannel { transaction: Transaction, sub_channel: SubChannel },
    /// Delete the proposal.
    DeleteRevert { transaction: Transaction },
    /// Nothing: the revert is confirmed.
    Done { transaction: Transaction },
    /// Nothing: the flow ended early.
    Failed { reason: ConfirmError, cause: Option<E> },
}

/// What came of a step.
#[derive(Debug)]
pub enum ConfirmEvent<E> {
    IsMine(Result<bool, E>),
    SubChannels(Result<Vec<SubChannel>, E>),
    Position(Result<Option<i32>, E>),
    /// The keys of the channel, if the node knows the channel.
    ChannelDetails(Option<[u8; 32]>),
    /// The coordinator's signature in its distinguished encoding.
    Signed(Result<Vec<u8>, E>),
    Broadcast(Result<(), E>),
    PositionClosed(Result<(), E>),
    SubChannelUpserted(Result<(), E>),
    RevertDeleted(Result<(), E>),
}

/// The flow that confirms the revert of one channel.
#[derive(Debug)]
pub struct Confirmation<E> {
    pub channel_id: ChannelId,
    /// The trader's signature in its distinguished encoding.
    pub signature: Vec<u8>,
    pub step: ConfirmStep<E>,
}

/// The transaction once both parties have signed it: the same but for the witness of its first
/// input, which spends the funding output of the channel.
pub open spec fn signed_by_both(
    transaction: TransactionView,
    sub_channel: SubChannel,
    own_signature: Seq<u8>,
    counter_signature: Seq<u8>,
) -> TransactionView {
    transaction.with_witness(
        0,
        multi_sig_witness(
            sub_channel.own_fund_pk@,
            own_signature,
            sub_channel.counter_fund_pk@,
            counter_signature,
            sub_channel.original_funding_redeemscript@,
        ),
    )
}

/// The keys of a channel: those recorded with it or else those that the node knows.
pub open spec fn channel_keys(sub_channel: SubChannel, known: Option<[u8; 32]>) -> Option<[u8; 32]> {
    match sub_channel.channel_keys_id {
        Some(recorded) => Some(recorded),
        None => known,
    }
}

/// The channel once it is closed on chain.
pub open spec fn closed_on_chain(sub_channel: SubChannel) -> SubChannel {
    SubChannel { state: SubChannelState::OnChainClosed, ..sub_channel }
}

/// The first thing to do about a transaction: ask about its first output. A transaction without
/// outputs pays nobody.
pub open spec fn first_step<E>(transaction: Transaction) -> ConfirmStep<E> {
    if transaction.output@.len() == 0 {
        ConfirmStep::Failed { reason: ConfirmError::NotPaid, cause: None }
    } else {
        ConfirmStep::IsMine { transaction, output: 0 }
    }
}

impl<E> Confirmation<E> {
    /// Whether the event is what came of the current step. A signature is only taken for a
    /// transaction that has an input to sign.
    pub open spec fn takes(self, event: ConfirmEvent<E>) -> bool {
        match (self.step, event) {
            (ConfirmStep::IsMine { .. }, ConfirmEvent::IsMine(_)) => true,
            (ConfirmStep::ListSubChannels { .. }, ConfirmEvent::SubChannels(_)) => true,
            (ConfirmStep::LoadPosition { .. }, ConfirmEvent::Position(_)) => true,
            (ConfirmStep::GetChannelDetails { .. }, ConfirmEvent::ChannelDetails(_)) => true,
            (ConfirmStep::Sign { transaction, .. }, ConfirmEvent::Signed(signed)) => {
                signed is Ok ==> transaction.input@.len() > 0
            },
            (ConfirmStep::Broadcast { .. }, ConfirmEvent::Broadcast(_)) => true,
            (ConfirmStep::ClosePosition { .. }, ConfirmEvent::PositionClosed(_)) => true,
            (ConfirmStep::UpsertSubChannel { .. }, ConfirmEvent::SubChannelUpserted(_)) => true,
            (ConfirmStep::DeleteRevert { .. }, ConfirmEvent::RevertDeleted(_)) => true,
            _ => false,
        }
    }

    /// Whether `step` is the step to which the flow goes on from an event that it takes.
    ///
    /// One of the outputs has to be the coordinator's; they are asked about one after the other until
    /// the wallet says so. An output about which the wallet has no answer does not count.
    pub open spec fn goes_on_to(self, event: ConfirmEvent<E>, step: ConfirmStep<E>) -> bool {
        match (self.step, event) {
            (ConfirmStep::IsMine { transaction, output }, ConfirmEvent::IsMine(answer)) => {
                step == if answer == Ok::<bool, E>(true) {
                    ConfirmStep::ListSubChannels { transaction }
                } else if output + 1 < transaction.output@.len() {
                    ConfirmStep::IsMine { transaction, output: (output + 1) as usize }
                } else {
                    ConfirmStep::<E>::Failed { reason: ConfirmError::NotPaid, cause: None }
                }
            },
            (ConfirmStep::ListSubChannels { transaction }, ConfirmEvent::SubChannels(listed)) => {
                step == match listed {
                    Ok(channels) => match first_with_id(channels@, self.channel_id@) {
                        Some(sub_channel) => ConfirmStep::LoadPosition { transaction, sub_channel },
                        None => ConfirmStep::Failed {
                            reason: ConfirmError::NoSubChannel,
                            cause: None,
                        },
                    },
                    Err(cause) => ConfirmStep::Failed {
                        reason: ConfirmError::ListSubChannels,
                        cause: Some(cause),
                    },
                }
            },
            (
                ConfirmStep::LoadPosition { transaction, sub_channel },
                ConfirmEvent::Position(loaded),
            ) => {
                step == match loaded {
                    Ok(Some(position_id)) => ConfirmStep::GetChannelDetails {
                        transaction,
                        sub_channel,
                        position_id,
                    },
                    Ok(None) => ConfirmStep::Failed {
                        reason: ConfirmError::NoPosition,
                        cause: None,
                    },
                    Err(cause) => ConfirmStep::Failed {
                        reason: ConfirmError::LoadPosition,
                        cause: Some(cause),
                    },
                }
            },
            (
                ConfirmStep::GetChannelDetails { transaction, sub_channel, position_id },
                ConfirmEvent::ChannelDetails(known),
            ) => {
                step == match channel_keys(sub_channel, known) {
                    Some(channel_keys_id) => ConfirmStep::Sign {
                        transaction,
                        sub_channel,
                        position_id,
                        channel_keys_id,
                    },
                    None => ConfirmStep::<E>::Failed {
                        reason: ConfirmError::NoChannelKeys,
                        cause: None,
                    },
                }
            },
            (
                ConfirmStep::Sign { transaction, sub_channel, position_id, .. },
                ConfirmEvent::Signed(signed),
            ) => match signed {
                Ok(own_signature) => {
                    &&& step matches ConfirmStep::Broadcast {
                        transaction: final_transaction,
                        sub_channel: kept_sub_channel,
                        position_id: kept_position_id,
                    }
                    &&& final_transaction@ == signed_by_both(
                        transaction@,
                        sub_channel,
                        own_signature@,
                        self.signature@,
                    )
                    &&& kept_sub_channel == sub_channel
                    &&& kept_position_id == position_id
                },
                Err(cause) => step == ConfirmStep::Failed {
                    reason: ConfirmError::Sign,
                    cause: Some(cause),
                },
            },
            (
                ConfirmStep::Broadcast { transaction, sub_channel, position_id },
                ConfirmEvent::Broadcast(sent),
            ) => {
                step == match sent {
                    Ok(_) => ConfirmStep::ClosePosition { transaction, sub_channel, position_id },
                    Err(cause) => ConfirmStep::Failed {
                        reason: ConfirmError::Broadcast,
                        cause: Some(cause),
                    },
                }
            },
            (
                ConfirmStep::ClosePosition { transaction, sub_channel, .. },
                ConfirmEvent::PositionClosed(closed),
            ) => {
                step == match closed {
                    Ok(_) => ConfirmStep::UpsertSubChannel {
                        transaction,
                        sub_channel: closed_on_chain(sub_channel),
                    },
                    Err(cause) => ConfirmStep::Failed {
                        reason: ConfirmError::ClosePosition,
                        cause: Some(cause),
                    },
                }
            },
            (
                ConfirmStep::UpsertSubChannel { transaction, .. },
                ConfirmEvent::SubChannelUpserted(stored),
            ) => {
                step == match stored {
                    Ok(_) => ConfirmStep::DeleteRevert { transaction },
                    Err(cause) => ConfirmStep::Failed {
                        reason: ConfirmError::UpsertSubChannel,
                        cause: Some(cause),
                    },
                }
            },
            (ConfirmStep::DeleteRevert { transaction }, ConfirmEvent::RevertDeleted(deleted)) => {
                step == match deleted {
                    Ok(_) => ConfirmStep::Done { transaction },
                    Err(cause) => ConfirmStep::Failed {
                        reason: ConfirmError::DeleteRevert,
                        cause: Some(cause),
                    },
                }
            },
            _ => step == self.step,
        }
    }

    /// Whether the flow takes the event as what came of the current step.
    pub fn accepts(&self, event: &ConfirmEvent<E>) -> (accepted: bool)
        ensures
            accepted == self.takes(*event),
    {
        match (&self.step, event) {
            (ConfirmStep::IsMine { .. }, ConfirmEvent::IsMine(_)) => true,
            (ConfirmStep::ListSubChannels { .. }, ConfirmEvent::SubChannels(_)) => true,
            (ConfirmStep::LoadPosition { .. }, ConfirmEvent::Position(_)) => true,
            (ConfirmStep::GetChannelDetails { .. }, ConfirmEvent::ChannelDetails(_)) => true,
            (ConfirmStep::Sign { transaction, .. }, ConfirmEvent::Signed(signed)) => {
                signed.is_err() || transaction.input.len() > 0
            },
            (ConfirmStep::Broadcast { .. }, ConfirmEvent::Broadcast(_)) => true,
            (ConfirmStep::ClosePosition { .. }, ConfirmEvent::PositionClosed(_)) => true,
            (ConfirmStep::UpsertSubChannel { .. }, ConfirmEvent::SubChannelUpserted(_)) => true,
            (ConfirmStep::DeleteRevert { .. }, ConfirmEvent::RevertDeleted(_)) => true,
            _ => false,
        }
    }

    /// Takes what came of the current step and decides on the next one.
    pub fn advance(self, event: ConfirmEvent<E>) -> (flow: Confirmation<E>)
        requires
            self.takes(event),
        ensures
            flow.channel_id == self.channel_id,
            flow.signature == self.signature,
            self.goes_on_to(event, flow.step),
    {
        let Confirmation { channel_id, signature, step } = self;
        let step = match (step, event) {
            (ConfirmStep::IsMine { transaction, output }, ConfirmEvent::IsMine(answer)) => {
                let mine = match answer {
                    Ok(mine) => mine,
                    Err(_) => false,
                };
                if mine {
                    ConfirmStep::ListSubChannels { transaction }
                } else if output < transaction.output.len() && output + 1 < transaction.output.len() {
                    ConfirmStep::IsMine { transaction, output: output + 1 }
                } else {
                    ConfirmStep::Failed { reason: ConfirmError::NotPaid, cause: None }
                }
            },
            (ConfirmStep::ListSubChannels { transaction }, ConfirmEvent::SubChannels(listed)) => {
                match listed {
                    Ok(channels) => match find_channel(channels, &channel_id) {
                        Some(sub_channel) => ConfirmStep::LoadPosition { transaction, sub_channel },
                        None => ConfirmStep::Failed {
                            reason: ConfirmError::NoSubChannel,
                            cause: None,
                        },
                    },
                    Err(cause) => ConfirmStep::Failed {
                        reason: ConfirmError::ListSubChannels,
                        cause: Some(cause),
                    },
                }
            },
            (
                ConfirmStep::LoadPosition { transaction, sub_channel },
                ConfirmEvent::Position(loaded),
            ) => match loaded {
                Ok(Some(position_id)) => ConfirmStep::GetChannelDetails {
                    transaction,
                    sub_channel,
                    position_id,
                },
                Ok(None) => ConfirmStep::Failed { reason: ConfirmError::NoPosition, cause: None },
                Err(cause) => ConfirmStep::Failed {
                    reason: ConfirmError::LoadPosition,
                    cause: Some(cause),
                },
            },
            (
                ConfirmStep::GetChannelDetails { transaction, sub_channel, position_id },
                ConfirmEvent::ChannelDetails(known),
            ) => {
                let keys = match sub_channel.channel_keys_id {
                    Some(recorded) => Some(recorded),
                    None => known,
                };
                match keys {
                    Some(channel_keys_id) => ConfirmStep::Sign {
                        transaction,
                        sub_channel,
                        position_id,
                        channel_keys_id,
                    },
                    None => ConfirmStep::Failed {
                        reason: ConfirmError::NoChannelKeys,
                        cause: None,
                    },
                }
            },
            (
                ConfirmStep::Sign { transaction, sub_channel, position_id, .. },
                ConfirmEvent::Signed(signed),
            ) => match signed {
                Ok(own_signature) => {
                    let mut transaction = transaction;
                    finalize_multi_sig_input_transaction(
                        &mut transaction,
                        &sub_channel.own_fund_pk,
                        &own_signature,
                        &sub_channel.counter_fund_pk,
                        &signature,
                        &sub_channel.original_funding_redeemscript,
                        0,
                    );
                    ConfirmStep::Broadcast { transaction, sub_channel, position_id }
                },
                Err(cause) => ConfirmStep::Failed {
                    reason: ConfirmError::Sign,
                    cause: Some(cause),
                },
            },
            (
                ConfirmStep::Broadcast { transaction, sub_channel, position_id },
                ConfirmEvent::Broadcast(sent),
            ) => match sent {
                Ok(_) => ConfirmStep::ClosePosition { transaction, sub_channel, position_id },
                Err(cause) => ConfirmStep::Failed {
                    reason: ConfirmError::Broadcast,
                    cause: Some(cause),
                },
            },
            (
                ConfirmStep::ClosePosition { transaction, sub_channel, .. },
                ConfirmEvent::PositionClosed(closed),
            ) => match closed {
                Ok(_) => {
                    let mut sub_channel = sub_channel;
                    sub_channel.state = SubChannelState::OnChainClosed;
                    ConfirmStep::UpsertSubChannel { transaction, sub_channel }
                },
                Err(cause) => ConfirmStep::Failed {
                    reason: ConfirmError::ClosePosition,
                    cause: Some(cause),
                },
            },
            (
                ConfirmStep::UpsertSubChannel { transaction, .. },
                ConfirmEvent::SubChannelUpserted(stored),
            ) => match stored {
                Ok(_) => ConfirmStep::DeleteRevert { transaction },
                Err(cause) => ConfirmStep::Failed {
                    reason: ConfirmError::UpsertSubChannel,
                    cause: Some(cause),
                },
            },
            (ConfirmStep::DeleteRevert { transaction }, ConfirmEvent::RevertDeleted(deleted)) => {
                match deleted {
                    Ok(_) => ConfirmStep::Done { transaction },
                    Err(cause) => ConfirmStep::Failed {
                        reason: ConfirmError::DeleteRevert,
                        cause: Some(cause),
                    },
                }
            },
            (step, _) => step,
        };
        Confirmation { channel_id, signature, step }
    }
}

/// Starts the flow that confirms the revert of a channel with the given transaction, which the
/// trader has signed. `signature` is the trader's.
pub fn confirm_collaborative_revert<E>(
    transaction: Transaction,
    signature: Vec<u8>,
    channel_id: ChannelId,
) -> (flow: Confirmation<E>)
    ensures
        flow == (Confirmation { channel_id, signature, step: first_step::<E>(transaction) }),
        transaction.output@.len() > 0 ==> flow.step == (ConfirmStep::<E>::IsMine {
            transaction,
            output: 0,
        }),
        transaction.output@.len() == 0 ==> flow.step == (ConfirmStep::<E>::Failed {
            reason: ConfirmError::NotPaid,
            cause: None,
        }),
{
    let step = if transaction.output.len() == 0 {
        ConfirmStep::Failed { reason: ConfirmError::NotPaid, cause: None }
    } else {
        ConfirmStep::IsMine { transaction, output: 0 }
    };
    Confirmation { channel_id, signature, step }
}

/// Whether the event says that the transaction has been broadcast.
pub open spec fn is_broadcast<E>(event: ConfirmEvent<E>) -> bool {
    event matches ConfirmEvent::Broadcast(Ok(_))
}

/// Whether the event says that the position has been closed.
pub open spec fn is_position_closed<E>(event: ConfirmEvent<E>) -> bool {
    event matches ConfirmEvent::PositionClosed(Ok(_))
}

/// Whether the event says that the closed channel has been stored.
pub open spec fn is_channel_stored<E>(event: ConfirmEvent<E>) -> bool {
    event matches ConfirmEvent::SubChannelUpserted(Ok(_))
}

/// Whether the event says that the proposal has been deleted.
pub open spec fn is_revert_deleted<E>(event: ConfirmEvent<E>) -> bool {
    event matches ConfirmEvent::RevertDeleted(Ok(_))
}

/// Whether the flow at `flows[i]` goes on to the one at `flows[i + 1]` from the event at `events[i]`.
pub open spec fn step_plays_out<E>(
    flows: Seq<Confirmation<E>>,
    events: Seq<ConfirmEvent<E>>,
    i: int,
) -> bool {
    &&& flows[i].takes(events[i])
    &&& flows[i].goes_on_to(events[i], flows[i + 1].step)
    &&& flows[i + 1].channel_id == flows[i].channel_id
    &&& flows[i + 1].signature == flows[i].signature
}

/// Whether `flows` are the flows that a confirmation of the given transaction goes through with
/// `events`.
pub open spec fn plays_out<E>(
    transaction: Transaction,
    flows: Seq<Confirmation<E>>,
    events: Seq<ConfirmEvent<E>>,
) -> bool {
    &&& flows.len() == events.len() + 1
    &&& flows[0].step == first_step::<E>(transaction)
    &&& forall|i: int| 0 <= i < events.len() ==> #[trigger] step_plays_out(flows, events, i)
}

/// Whether the event says that an output is the coordinator's.
pub open spec fn is_own_output<E>(event: ConfirmEvent<E>) -> bool {
    event == ConfirmEvent::<E>::IsMine(Ok(true))
}

/// Whether the event says that an output is not the coordinator's, or that there is no telling.
pub open spec fn is_no_own_output<E>(event: ConfirmEvent<E>) -> bool {
    event is IsMine && !is_own_output(event)
}

/// Whether the wallet said of an output that it is its own for the first time in the last of `n`
/// events.
pub open spec fn paid_at<E>(events: Seq<ConfirmEvent<E>>, n: int) -> bool {
    &&& 1 <= n <= events.len()
    &&& is_own_output(events[n - 1])
    &&& forall|i: int| 0 <= i < n - 1 ==> is_no_own_output(#[trigger] events[i])
}

/// Whether the wallet was asked about every output of the transaction and said of none that it is
/// its own.
pub open spec fn none_paid<E>(transaction: Transaction, events: Seq<ConfirmEvent<E>>) -> bool {
    &&& events.len() == transaction.output@.len()
    &&& forall|i: int| 0 <= i < events.len() ==> is_no_own_output(#[trigger] events[i])
}

/// Whether the channel was found behind the first `n` events, in which the wallet was asked.
pub open spec fn found_at<E>(
    flow: Confirmation<E>,
    events: Seq<ConfirmEvent<E>>,
    n: int,
    sub_channel: SubChannel,
) -> bool {
    &&& paid_at(events, n)
    &&& n < events.len()
    &&& events[n] matches ConfirmEvent::SubChannels(Ok(channels))
    &&& first_with_id(channels@, flow.channel_id@) == Some(sub_channel)
}

/// Whether, behind the first `n` events, the channel, its position and its keys were found and the
/// coordinator signed, and `signed` is the transaction with both signatures.
pub open spec fn signed_at<E>(
    transaction: Transaction,
    flow: Confirmation<E>,
    events: Seq<ConfirmEvent<E>>,
    n: int,
    sub_channel: SubChannel,
    signed: Transaction,
) -> bool {
    &&& n + 4 <= events.len()
    &&& found_at(flow, events, n, sub_channel)
    &&& events[n + 1] matches ConfirmEvent::Position(Ok(Some(_)))
    &&& events[n + 2] matches ConfirmEvent::ChannelDetails(known)
    &&& channel_keys(sub_channel, known) is Some
    &&& events[n + 3] matches ConfirmEvent::Signed(Ok(own_signature))
    &&& transaction.input@.len() > 0
    &&& signed@ == signed_by_both(transaction@, sub_channel, own_signature@, flow.signature@)
}

/// What the step that a flow has reached has to do with the events before it.
pub open spec fn step_follows<E>(
    transaction: Transaction,
    flow: Confirmation<E>,
    events: Seq<ConfirmEvent<E>>,
) -> bool {
    let k = events.len() as int;
    match flow.step {
        ConfirmStep::IsMine { transaction: kept, output } => {
            &&& kept == transaction
            &&& output == k < transaction.output@.len()
            &&& forall|i: int| 0 <= i < k ==> is_no_own_output(#[trigger] events[i])
        },
        ConfirmStep::ListSubChannels { transaction: kept } => {
            &&& kept == transaction
            &&& paid_at(events, k)
            &&& k <= transaction.output@.len()
        },
        ConfirmStep::LoadPosition { transaction: kept, sub_channel } => {
            &&& kept == transaction
            &&& found_at(flow, events, k - 1, sub_channel)
            &&& k <= transaction.output@.len() + 1
        },
        ConfirmStep::GetChannelDetails { transaction: kept, sub_channel, position_id } => {
            &&& kept == transaction
            &&& found_at(flow, events, k - 2, sub_channel)
            &&& events[k - 1] == ConfirmEvent::<E>::Position(Ok(Some(position_id)))
            &&& k <= transaction.output@.len() + 2
        },
        ConfirmStep::Sign { transaction: kept, sub_channel, position_id, channel_keys_id } => {
            &&& kept == transaction
            &&& found_at(flow, events, k - 3, sub_channel)
            &&& events[k - 2] == ConfirmEvent::<E>::Position(Ok(Some(position_id)))
            &&& events[k - 1] matches ConfirmEvent::ChannelDetails(known)
            &&& channel_keys(sub_channel, known) == Some(channel_keys_id)
            &&& k <= transaction.output@.len() + 3
        },
        ConfirmStep::Broadcast { transaction: signed, sub_channel, position_id } => {
            &&& signed_at(transaction, flow, events, k - 4, sub_channel, signed)
            &&& events[k - 3] == ConfirmEvent::<E>::Position(Ok(Some(position_id)))
            &&& k <= transaction.output@.len() + 4
        },
        ConfirmStep::ClosePosition { transaction: signed, sub_channel, position_id } => {
            &&& signed_at(transaction, flow, events, k - 5, sub_channel, signed)
            &&& events[k - 4] == ConfirmEvent::<E>::Position(Ok(Some(position_id)))
            &&& is_broadcast(events[k - 1])
            &&& k <= transaction.output@.len() + 5
        },
        ConfirmStep::UpsertSubChannel { transaction: signed, sub_channel: closed } => {
            &&& exists|sub_channel: SubChannel|
                closed == closed_on_chain(sub_channel) && #[trigger] signed_at(
                    transaction,
                    flow,
                    events,
                    k - 6,
                    sub_channel,
                    signed,
                )
            &&& is_broadcast(events[k - 2])
            &&& is_position_closed(events[k - 1])
            &&& k <= transaction.output@.len() + 6
        },
        ConfirmStep::DeleteRevert { transaction: signed } => {
            &&& exists|sub_channel: SubChannel| #[trigger]
                signed_at(transaction, flow, events, k - 7, sub_channel, signed)
            &&& is_broadcast(events[k - 3])
            &&& is_position_closed(events[k - 2])
            &&& is_channel_stored(events[k - 1])
            &&& k <= transaction.output@.len() + 7
        },
        ConfirmStep::Done { transaction: signed } => {
            &&& exists|sub_channel: SubChannel| #[trigger]
                signed_at(transaction, flow, events, k - 8, sub_channel, signed)
            &&& is_broadcast(events[k - 4])
            &&& is_position_closed(events[k - 3])
            &&& is_channel_stored(events[k - 2])
            &&& is_revert_deleted(events[k - 1])
            &&& k <= transaction.output@.len() + 8
        },
        ConfirmStep::Failed { reason, .. } => {
            &&& k <= transaction.output@.len() + 8
            &&& early_end_follows(reason, events)
            &&& reason is NotPaid <==> none_paid(transaction, events)
        },
    }
}

/// What a flow that ended early has changed by then: the transaction is out, the position is closed
/// or the closed channel is stored only if the flow ended at a later step.
pub open spec fn early_end_follows<E>(reason: ConfirmError, events: Seq<ConfirmEvent<E>>) -> bool {
    let after_store = reason is DeleteRevert;
    let after_close = after_store || reason is UpsertSubChannel;
    let after_broadcast = after_close || reason is ClosePosition;
    &&& after_broadcast <==> exists|i: int| 0 <= i < events.len() && is_broadcast(#[trigger] events[i])
    &&& after_close <==> exists|i: int|
        0 <= i < events.len() && is_position_closed(#[trigger] events[i])
    &&& after_store <==> exists|i: int|
        0 <= i < events.len() && is_channel_stored(#[trigger] events[i])
    &&& forall|i: int| 0 <= i < events.len() ==> !is_revert_deleted(#[trigger] events[i])
}

proof fn lemma_step_follows<E>(
    transaction: Transaction,
    flows: Seq<Confirmation<E>>,
    events: Seq<ConfirmEvent<E>>,
)
    requires
        plays_out(transaction, flows, events),
    ensures
        step_follows(transaction, flows.last(), events),
        flows.last().channel_id == flows[0].channel_id,
        flows.last().signature == flows[0].signature,
    decreases events.len(),
{
    if events.len() > 0 {
        let earlier = events.drop_last();
        let before = flows.drop_last();
        let k = earlier.len() as int;
        assert forall|i: int| 0 <= i < earlier.len() implies #[trigger] step_plays_out(
            before,
            earlier,
            i,
        ) by {
            assert(step_plays_out(flows, events, i));
        }
        lemma_step_follows(transaction, before, earlier);
        assert(step_plays_out(flows, events, k));
        assert(before.last() == flows[k]);
        assert forall|i: int| 0 <= i < k implies #[trigger] events[i] == earlier[i] by {}
        let now = flows.last();
        let n = events.len() as int;
        assert(now == flows[k + 1]);
        match flows[k].step {
            ConfirmStep::IsMine { .. } => {
                assert(transaction.output.len() == transaction.output@.len());
            },
            ConfirmStep::ClosePosition { transaction: signed, sub_channel, .. } => {
                if let ConfirmStep::UpsertSubChannel { transaction: kept, .. } = now.step {
                    assert(signed_at(transaction, now, events, n - 6, sub_channel, kept));
                }
                assert(is_broadcast(events[n - 2]));
            },
            ConfirmStep::UpsertSubChannel { transaction: signed, sub_channel: closed } => {
                let sub_channel = choose|sub_channel: SubChannel|
                    closed == closed_on_chain(sub_channel) && #[trigger] signed_at(
                        transaction,
                        flows[k],
                        earlier,
                        k - 6,
                        sub_channel,
                        signed,
                    );
                if let ConfirmStep::DeleteRevert { transaction: kept } = now.step {
                    assert(signed_at(transaction, now, events, n - 7, sub_channel, kept));
                }
                assert(is_broadcast(events[n - 3]));
                assert(is_position_closed(events[n - 2]));
            },
            ConfirmStep::DeleteRevert { transaction: signed } => {
                let sub_channel = choose|sub_channel: SubChannel| #[trigger]
                    signed_at(transaction, flows[k], earlier, k - 7, sub_channel, signed);
                if let ConfirmStep::Done { transaction: kept } = now.step {
                    assert(signed_at(transaction, now, events, n - 8, sub_channel, kept));
                }
                assert(is_broadcast(events[n - 4]));
                assert(is_position_closed(events[n - 3]));
                assert(is_channel_stored(events[n - 2]));
            },
            _ => {},
        }
    }
}

/// Law: a transaction is broadcast only after the wallet said of one of its outputs that it is the
/// coordinator's, the channel with the identifier asked for, its position and its keys were found,
/// and the coordinator signed.
/// It is the transaction that the trader proposed in everything but the witness of its first input,
/// which holds both parties' signatures.
pub proof fn law_broadcast_transaction_is_the_proposed_one<E>(
    transaction: Transaction,
    flows: Seq<Confirmation<E>>,
    events: Seq<ConfirmEvent<E>>,
)
    requires
        plays_out(transaction, flows, events),
    ensures
        flows.last().step matches ConfirmStep::Broadcast {
            transaction: signed,
            sub_channel,
            position_id,
        } ==> {
            &&& signed_at(transaction, flows[0], events, events.len() - 4, sub_channel, signed)
            &&& events[events.len() - 3] == ConfirmEvent::<E>::Position(Ok(Some(position_id)))
            &&& sub_channel.channel_id@ == flows[0].channel_id@
            &&& signed@.output == transaction@.output
            &&& signed@.version == transaction@.version
            &&& signed@.lock_time == transaction@.lock_time
            &&& signed@.input.len() == transaction@.input.len()
            &&& forall|i: int|
                1 <= i < signed@.input.len() ==> signed@.input[i] == transaction@.input[i]
        },
{
    lemma_step_follows(transaction, flows, events);
    match flows.last().step {
        ConfirmStep::Broadcast { sub_channel, .. } => {
            match events[events.len() - 4] {
                ConfirmEvent::SubChannels(Ok(channels)) => {
                    law_found_channel_has_the_id(
                        channels@,
                        flows[0].channel_id@,
                    );
                },
                _ => {},
            }
        },
        _ => {},
    }
}

/// Law: a transaction of which no output is the coordinator's is never signed or broadcast, and no
/// position, channel or proposal changes on its account: the flow ends, and says that it does not pay
/// the coordinator.
pub proof fn law_unpaid_coordinator_does_nothing<E>(
    transaction: Transaction,
    flows: Seq<Confirmation<E>>,
    events: Seq<ConfirmEvent<E>>,
)
    requires
        plays_out(transaction, flows, events),
        forall|i: int| 0 <= i < events.len() ==> !is_own_output(#[trigger] events[i]),
    ensures
        flows.last().step is IsMine || (flows.last().step matches ConfirmStep::Failed {
            reason,
            ..
        } && reason is NotPaid),
        events.len() <= transaction.output@.len(),
        events.len() == transaction.output@.len() ==> flows.last().step is Failed,
        forall|i: int| 0 <= i < events.len() ==> (#[trigger] events[i]) is IsMine,
    decreases events.len(),
{
    lemma_step_follows(transaction, flows, events);
    if events.len() > 0 {
        let earlier = events.drop_last();
        let before = flows.drop_last();
        let k = earlier.len() as int;
        assert forall|i: int| 0 <= i < k implies #[trigger] step_plays_out(before, earlier, i) by {
            assert(step_plays_out(flows, events, i));
        }
        assert forall|i: int| 0 <= i < k implies #[trigger] earlier[i] == events[i] by {}
        law_unpaid_coordinator_does_nothing(transaction, before, earlier);
        assert(step_plays_out(flows, events, k));
        assert(before.last() == flows[k] && flows.last() == flows[k + 1]);
        assert(!is_own_output(events[k]));
        assert forall|i: int| 0 <= i < events.len() implies (#[trigger] events[i]) is IsMine by {
            assert(i < k ==> earlier[i] is IsMine);
        }
    }
}

/// Law: a revert is confirmed only after the transaction was broadcast, the position closed, the
/// closed channel stored and the proposal deleted, in this order, and the transaction handed back is
/// the very one that was broadcast.
pub proof fn law_confirmed_revert_is_complete<E>(
    transaction: Transaction,
    flows: Seq<Confirmation<E>>,
    events: Seq<ConfirmEvent<E>>,
)
    requires
        plays_out(transaction, flows, events),
    ensures
        flows.last().step matches ConfirmStep::Done { transaction: confirmed } ==> {
            let k = events.len() as int;
            &&& k >= 4
            &&& is_broadcast(events[k - 4])
            &&& is_position_closed(events[k - 3])
            &&& is_channel_stored(events[k - 2])
            &&& is_revert_deleted(events[k - 1])
            &&& flows[k - 4].step matches ConfirmStep::Broadcast {
                transaction: sent,
                sub_channel,
                position_id,
            }
            &&& sent == confirmed
            &&& flows[k - 3].step matches ConfirmStep::ClosePosition { position_id: closed_id, .. }
            &&& closed_id == position_id
            &&& flows[k - 2].step matches ConfirmStep::UpsertSubChannel { sub_channel: stored, .. }
            &&& stored == closed_on_chain(sub_channel)
            &&& stored.state == SubChannelState::OnChainClosed
        },
{
    lemma_step_follows(transaction, flows, events);
    if flows.last().step is Done {
        let k = events.len() as int;
        assert(step_plays_out(flows, events, k - 1));
        assert(step_plays_out(flows, events, k - 2));
        assert(step_plays_out(flows, events, k - 3));
        assert(step_plays_out(flows, events, k - 4));
    }
}

/// Law: a flow that ended early has broadcast the transaction, closed the position or stored the
/// closed channel only if a later step is what failed, and it has not deleted the proposal. It ends
/// for want of a paying output exactly if the wallet said of none of the outputs that it is the
/// coordinator's.
pub proof fn law_early_end_keeps_the_rest<E>(
    transaction: Transaction,
    flows: Seq<Confirmation<E>>,
    events: Seq<ConfirmEvent<E>>,
)
    requires
        plays_out(transaction, flows, events),
    ensures
        flows.last().step matches ConfirmStep::Failed { reason, .. } ==> early_end_follows(
            reason,
            events,
        ) && (reason is NotPaid <==> none_paid(transaction, events)),
{
    lemma_step_follows(transaction, flows, events);
}

/// Law: once the coordinator has signed, the transaction is broadcast with four items on the witness
/// stack of its first input: an empty one, both parties' signatures, each followed by a byte of one,
/// and the script of the channel's funding output. The coordinator's signature comes first if the
/// coordinator's key is less than the trader's in lexicographic order, and the trader's if it is
/// greater. Everything else about the transaction is as the trader proposed it. `i` is where the keys
/// first differ.
pub proof fn law_each_signature_stands_in_the_place_of_its_key<E>(
    flow: Confirmation<E>,
    own_signature: Vec<u8>,
    step: ConfirmStep<E>,
    i: int,
)
    requires
        flow.step is Sign,
        flow.takes(ConfirmEvent::Signed(Ok(own_signature))),
        flow.goes_on_to(ConfirmEvent::Signed(Ok(own_signature)), step),
        0 <= i < 33,
        flow.step->Sign_sub_channel.own_fund_pk@[i] != flow.step->Sign_sub_channel.counter_fund_pk@[i],
        forall|j: int|
            0 <= j < i ==> flow.step->Sign_sub_channel.own_fund_pk@[j]
                == flow.step->Sign_sub_channel.counter_fund_pk@[j],
    ensures
        step is Broadcast,
        ({
            let sub_channel = flow.step->Sign_sub_channel;
            let proposed = flow.step->Sign_transaction;
            let signed = step->Broadcast_transaction;
            let witness = signed.input@[0].witness@;
            &&& witness.len() == 4
            &&& witness[0]@ == Seq::<u8>::empty()
            &&& witness[3]@ == sub_channel.original_funding_redeemscript@
            &&& sub_channel.own_fund_pk@[i] < sub_channel.counter_fund_pk@[i] ==> {
                &&& witness[1]@ == own_signature@.push(1)
                &&& witness[2]@ == flow.signature@.push(1)
            }
            &&& sub_channel.own_fund_pk@[i] > sub_channel.counter_fund_pk@[i] ==> {
                &&& witness[1]@ == flow.signature@.push(1)
                &&& witness[2]@ == own_signature@.push(1)
            }
            &&& is_same_but_for_first_witness(signed, proposed)
            &&& step->Broadcast_sub_channel == sub_channel
            &&& step->Broadcast_position_id == flow.step->Sign_position_id
        }),
{
    let sub_channel = flow.step->Sign_sub_channel;
    let proposed = flow.step->Sign_transaction;
    let signed = step->Broadcast_transaction;
    let own_key = sub_channel.own_fund_pk@;
    let counter_key = sub_channel.counter_fund_pk@;
    let script = sub_channel.original_funding_redeemscript@;
    if own_key[i] < counter_key[i] {
        law_signatures_stand_in_the_order_of_their_keys(
            own_key,
            own_signature@,
            counter_key,
            flow.signature@,
            script,
            i,
        );
    } else {
        law_signatures_stand_in_the_order_of_their_keys(
            counter_key,
            flow.signature@,
            own_key,
            own_signature@,
            script,
            i,
        );
    }
    assert(signed@.input.len() == proposed@.input.len());
    let stack = signed@.input[0].witness;
    assert(signed@.input[0] == signed.input@[0]@);
    assert(stack == witness_view(signed.input@[0].witness@));
    assert(stack == multi_sig_witness(
        own_key,
        own_signature@,
        counter_key,
        flow.signature@,
        script,
    ));
    assert(stack.len() == signed.input@[0].witness@.len());
    assert(stack[0] == signed.input@[0].witness@[0]@);
    assert(stack[1] == signed.input@[0].witness@[1]@);
    assert(stack[2] == signed.input@[0].witness@[2]@);
    assert(stack[3] == signed.input@[0].witness@[3]@);
    lemma_same_but_for_first_witness(signed, proposed, stack);
}

/// Whether two transactions agree in everything but the witness of the first input.
pub open spec fn is_same_but_for_first_witness(left: Transaction, right: Transaction) -> bool {
    &&& left.version == right.version
    &&& left.lock_time == right.lock_time
    &&& left.output@.len() == right.output@.len()
    &&& forall|n: int|
        0 <= n < left.output@.len() ==> (#[trigger] left.output@[n]).value == right.output@[n].value
            && left.output@[n].script_pubkey@ == right.output@[n].script_pubkey@
    &&& left.input@.len() == right.input@.len()
    &&& forall|n: int|
        0 <= n < left.input@.len() ==> {
            let input = #[trigger] left.input@[n];
            &&& input.txid@ == right.input@[n].txid@
            &&& input.vout == right.input@[n].vout
            &&& input.script_sig@ == right.input@[n].script_sig@
            &&& input.sequence == right.input@[n].sequence
            &&& n > 0 ==> witness_view(input.witness@) == witness_view(right.input@[n].witness@)
        }
}

proof fn lemma_same_but_for_first_witness(
    signed: Transaction,
    proposed: Transaction,
    witness: Seq<Seq<u8>>,
)
    requires
        proposed.input@.len() > 0,
        signed@ == proposed@.with_witness(0, witness),
    ensures
        is_same_but_for_first_witness(signed, proposed),
{
    assert(signed@.output.len() == signed.output@.len());
    assert(proposed@.output.len() == proposed.output@.len());
    assert(signed@.input.len() == signed.input@.len());
    assert(proposed@.input.len() == proposed.input@.len());
    assert forall|n: int| 0 <= n < signed.output@.len() implies (#[trigger] signed.output@[n]).value
        == proposed.output@[n].value && signed.output@[n].script_pubkey@
        == proposed.output@[n].script_pubkey@ by {
        assert(signed@.output[n] == signed.output@[n]@);
        assert(proposed@.output[n] == proposed.output@[n]@);
    }
    assert forall|n: int| 0 <= n < signed.input@.len() implies {
        let input = #[trigger] signed.input@[n];
        &&& input.txid@ == proposed.input@[n].txid@
        &&& input.vout == proposed.input@[n].vout
        &&& input.script_sig@ == proposed.input@[n].script_sig@
        &&& input.sequence == proposed.input@[n].sequence
        &&& n > 0 ==> witness_view(input.witness@) == witness_view(proposed.input@[n].witness@)
    } by {
        assert(signed@.input[n] == signed.input@[n]@);
        assert(proposed@.input[n] == proposed.input@[n]@);
    }
}

/// Law: each step takes whatever can come of it, good or bad, and nothing else. The one exception is a
/// signature for a transaction that has no input.
pub proof fn law_each_step_takes_what_comes_of_it<E>(flow: Confirmation<E>, event: ConfirmEvent<E>)
    ensures
        flow.takes(event) <==> match event {
            ConfirmEvent::IsMine(_) => flow.step is IsMine,
            ConfirmEvent::SubChannels(_) => flow.step is ListSubChannels,
            ConfirmEvent::Position(_) => flow.step is LoadPosition,
            ConfirmEvent::ChannelDetails(_) => flow.step is GetChannelDetails,
            ConfirmEvent::Signed(signed) => flow.step is Sign && (signed is Err
                || flow.step->Sign_transaction.input@.len() > 0),
            ConfirmEvent::Broadcast(_) => flow.step is Broadcast,
            ConfirmEvent::PositionClosed(_) => flow.step is ClosePosition,
            ConfirmEvent::SubChannelUpserted(_) => flow.step is UpsertSubChannel,
            ConfirmEvent::RevertDeleted(_) => flow.step is DeleteRevert,
        },
{
}

/// Law: a flow ends early only for the outcome that the reason names, and hands on its cause.
pub proof fn law_reason_names_what_failed<E>(
    flow: Confirmation<E>,
    event: ConfirmEvent<E>,
    reason: ConfirmError,
    cause: Option<E>,
)
    requires
        flow.takes(event),
        flow.goes_on_to(event, ConfirmStep::Failed { reason, cause }),
    ensures
        match reason {
            ConfirmError::NotPaid => {
                &&& event matches ConfirmEvent::IsMine(answer)
                &&& answer != Ok::<bool, E>(true)
                &&& flow.step->IsMine_output + 1 >= flow.step->IsMine_transaction.output@.len()
                &&& cause is None
            },
            ConfirmError::ListSubChannels => {
                &&& event matches ConfirmEvent::SubChannels(Err(error))
                &&& cause == Some(error)
            },
            ConfirmError::NoSubChannel => {
                &&& event matches ConfirmEvent::SubChannels(Ok(channels))
                &&& forall|n: int|
                    0 <= n < channels@.len() ==> (#[trigger] channels@[n]).channel_id@
                        != flow.channel_id@
                &&& cause is None
            },
            ConfirmError::LoadPosition => {
                &&& event matches ConfirmEvent::Position(Err(error))
                &&& cause == Some(error)
            },
            ConfirmError::NoPosition => {
                &&& event matches ConfirmEvent::Position(Ok(None))
                &&& cause is None
            },
            ConfirmError::NoChannelKeys => {
                &&& event matches ConfirmEvent::ChannelDetails(None)
                &&& flow.step->GetChannelDetails_sub_channel.channel_keys_id is None
                &&& cause is None
            },
            ConfirmError::Sign => {
                &&& event matches ConfirmEvent::Signed(Err(error))
                &&& cause == Some(error)
            },
            ConfirmError::Broadcast => {
                &&& event matches ConfirmEvent::Broadcast(Err(error))
                &&& cause == Some(error)
            },
            ConfirmError::ClosePosition => {
                &&& event matches ConfirmEvent::PositionClosed(Err(error))
                &&& cause == Some(error)
            },
            ConfirmError::UpsertSubChannel => {
                &&& event matches ConfirmEvent::SubChannelUpserted(Err(error))
                &&& cause == Some(error)
            },
            ConfirmError::DeleteRevert => {
                &&& event matches ConfirmEvent::RevertDeleted(Err(error))
                &&& cause == Some(error)
            },
        },
{
    if let ConfirmEvent::SubChannels(Ok(channels)) = event {
        law_found_channel_has_the_id(channels@, flow.channel_id@);
    }
}

/// Law: a step that came off leads to the next one, with the same transaction, channel and position.
/// The keys recorded with the channel come before those that the node knows, and a channel is stored
/// as closed on chain with everything else about it as it was.
pub proof fn law_success_leads_on<E>(
    flow: Confirmation<E>,
    event: ConfirmEvent<E>,
    step: ConfirmStep<E>,
)
    requires
        flow.takes(event),
        flow.goes_on_to(event, step),
    ensures
        match event {
            ConfirmEvent::IsMine(answer) => {
                let transaction = flow.step->IsMine_transaction;
                let output = flow.step->IsMine_output;
                &&& answer == Ok::<bool, E>(true) ==> step is ListSubChannels
                    && step->ListSubChannels_transaction == transaction
                &&& answer != Ok::<bool, E>(true) && output + 1 < transaction.output@.len() ==> step
                    is IsMine && step->IsMine_transaction == transaction && step->IsMine_output
                    == output + 1
            },
            ConfirmEvent::SubChannels(Ok(channels)) => forall|n: int|
                {
                    &&& 0 <= n < channels@.len()
                    &&& (#[trigger] channels@[n]).channel_id@ == flow.channel_id@
                    &&& forall|m: int|
                        0 <= m < n ==> (#[trigger] channels@[m]).channel_id@ != flow.channel_id@
                } ==> {
                    &&& step is LoadPosition
                    &&& step->LoadPosition_transaction == flow.step->ListSubChannels_transaction
                    &&& step->LoadPosition_sub_channel == channels@[n]
                },
            ConfirmEvent::Position(Ok(Some(position_id))) => {
                &&& step is GetChannelDetails
                &&& step->GetChannelDetails_transaction == flow.step->LoadPosition_transaction
                &&& step->GetChannelDetails_sub_channel == flow.step->LoadPosition_sub_channel
                &&& step->GetChannelDetails_position_id == position_id
            },
            ConfirmEvent::ChannelDetails(known) => {
                let recorded = flow.step->GetChannelDetails_sub_channel.channel_keys_id;
                recorded is Some || known is Some ==> {
                    &&& step is Sign
                    &&& step->Sign_transaction == flow.step->GetChannelDetails_transaction
                    &&& step->Sign_sub_channel == flow.step->GetChannelDetails_sub_channel
                    &&& step->Sign_position_id == flow.step->GetChannelDetails_position_id
                    &&& recorded is Some ==> step->channel_keys_id == recorded->0
                    &&& recorded is None ==> step->channel_keys_id == known->0
                }
            },
            ConfirmEvent::Signed(Ok(_)) => step is Broadcast,
            ConfirmEvent::Broadcast(Ok(_)) => {
                &&& step is ClosePosition
                &&& step->ClosePosition_transaction == flow.step->Broadcast_transaction
                &&& step->ClosePosition_sub_channel == flow.step->Broadcast_sub_channel
                &&& step->ClosePosition_position_id == flow.step->Broadcast_position_id
            },
            ConfirmEvent::PositionClosed(Ok(_)) => {
                let before = flow.step->ClosePosition_sub_channel;
                let stored = step->UpsertSubChannel_sub_channel;
                &&& step is UpsertSubChannel
                &&& step->UpsertSubChannel_transaction == flow.step->ClosePosition_transaction
                &&& stored.state is OnChainClosed
                &&& stored.channel_id == before.channel_id
                &&& stored.counter_party == before.counter_party
                &&& stored.fund_value_satoshis == before.fund_value_satoshis
                &&& stored.channel_keys_id == before.channel_keys_id
                &&& stored.own_fund_pk == before.own_fund_pk
                &&& stored.counter_fund_pk == before.counter_fund_pk
                &&& stored.original_funding_redeemscript == before.original_funding_redeemscript
            },
            ConfirmEvent::SubChannelUpserted(Ok(_)) => {
                &&& step is DeleteRevert
                &&& step->DeleteRevert_transaction == flow.step->UpsertSubChannel_transaction
            },
            ConfirmEvent::RevertDeleted(Ok(_)) => {
                &&& step is Done
                &&& step->Done_transaction == flow.step->DeleteRevert_transaction
            },
            _ => step is Failed,
        },
{
    if let ConfirmStep::IsMine { transaction, .. } = flow.step {
        assert(transaction.output.len() == transaction.output@.len());
    }
    if let ConfirmEvent::SubChannels(Ok(channels)) = event {
        assert forall|n: int|
            {
                &&& 0 <= n < channels@.len()
                &&& (#[trigger] channels@[n]).channel_id@ == flow.channel_id@
                &&& forall|m: int|
                    0 <= m < n ==> (#[trigger] channels@[m]).channel_id@ != flow.channel_id@
            } implies {
            &&& step is LoadPosition
            &&& step->LoadPosition_transaction == flow.step->ListSubChannels_transaction
            &&& step->LoadPosition_sub_channel == channels@[n]
        } by {
            law_found_channel_is_the_first(channels@, flow.channel_id@, n);
        }
    }
}

/// Law: a flow is over after at most eight events more than the transaction has outputs, and a flow
/// that is over takes no more.
pub proof fn law_confirmation_ends<E>(
    transaction: Transaction,
    flows: Seq<Confirmation<E>>,
    events: Seq<ConfirmEvent<E>>,
)
    requires
        plays_out(transaction, flows, events),
    ensures
        events.len() <= transaction.output@.len() + 8,
        events.len() == transaction.output@.len() + 8 ==> flows.last().step is Done
            || flows.last().step is Failed,
        flows.last().step is Done || flows.last().step is Failed ==> forall|event: ConfirmEvent<E>|
            !flows.last().takes(event),
{
    lemma_step_follows(transaction, flows, events);
}

} // verus!
