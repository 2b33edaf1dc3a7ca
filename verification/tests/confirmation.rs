use ln_dlc::chain::Transaction;
use ln_dlc::chain::TxIn;
use ln_dlc::chain::TxOut;
use ln_dlc::channel::SubChannel;
use ln_dlc::channel::SubChannelState;
use ln_dlc::confirmation::confirm_collaborative_revert;
use ln_dlc::confirmation::ConfirmError;
use ln_dlc::confirmation::ConfirmEvent;
use ln_dlc::confirmation::ConfirmStep;
use ln_dlc::confirmation::Confirmation;

type Event = ConfirmEvent<&'static str>;

fn transaction(outputs: usize, inputs: usize) -> Transaction {
    Transaction {
        version: 2,
        lock_time: 17,
        input: (0..inputs)
            .map(|i| TxIn {
                txid: [i as u8; 32],
                vout: 0,
                script_sig: vec![],
                sequence: 0xffff_ffff,
                witness: vec![],
            })
            .collect(),
        output: (0..outputs)
            .map(|i| TxOut {
                value: 1_000 + i as u64,
                script_pubkey: vec![0x51, i as u8],
            })
            .collect(),
    }
}

fn channel(id: u8, channel_keys_id: Option<[u8; 32]>) -> SubChannel {
    SubChannel {
        channel_id: [id; 32],
        counter_party: [2; 33],
        fund_value_satoshis: 200_000,
        channel_keys_id,
        own_fund_pk: [3; 33],
        counter_fund_pk: [2; 33],
        original_funding_redeemscript: vec![0xae],
        state: SubChannelState::Other,
    }
}

fn start(outputs: usize, inputs: usize) -> Confirmation<&'static str> {
    confirm_collaborative_revert(transaction(outputs, inputs), vec![0x22], [7; 32])
}

fn events() -> Vec<Event> {
    vec![
        ConfirmEvent::IsMine(Err("unknown")),
        ConfirmEvent::IsMine(Ok(true)),
        ConfirmEvent::SubChannels(Ok(vec![channel(1, None), channel(7, Some([5; 32]))])),
        ConfirmEvent::Position(Ok(Some(11))),
        ConfirmEvent::ChannelDetails(Some([6; 32])),
        ConfirmEvent::Signed(Ok(vec![0x11])),
        ConfirmEvent::Broadcast(Ok(())),
        ConfirmEvent::PositionClosed(Ok(())),
        ConfirmEvent::SubChannelUpserted(Ok(())),
        ConfirmEvent::RevertDeleted(Ok(())),
    ]
}

fn play(events: Vec<Event>) -> Confirmation<&'static str> {
    events.into_iter().fold(start(2, 1), |flow, event| {
        assert!(flow.accepts(&event));
        flow.advance(event)
    })
}

/// Plays the first steps as they should go.
fn play_first(steps: usize) -> Confirmation<&'static str> {
    let mut played = events();
    played.truncate(steps);
    play(played)
}

fn failure(flow: Confirmation<&'static str>) -> (ConfirmError, Option<&'static str>) {
    match flow.step {
        ConfirmStep::Failed { reason, cause } => (reason, cause),
        other => panic!("{other:?}"),
    }
}

#[test]
fn a_revert_is_confirmed() {
    let ConfirmStep::Done { transaction } = play(events()).step else {
        panic!("the flow should be done");
    };
    assert_eq!(transaction.version, 2);
    assert_eq!(transaction.lock_time, 17);
    assert_eq!(transaction.output.len(), 2);
    assert_eq!(transaction.output[1].value, 1_001);
    // The trader's key comes first.
    assert_eq!(
        transaction.input[0].witness,
        vec![vec![], vec![0x22, 1], vec![0x11, 1], vec![0xae]]
    );
}

#[test]
fn the_signed_transaction_is_the_one_broadcast() {
    let ConfirmStep::Broadcast {
        transaction,
        sub_channel,
        position_id,
    } = play_first(6).step
    else {
        panic!("the transaction should be broadcast");
    };
    assert_eq!(transaction.input[0].witness.len(), 4);
    assert_eq!(transaction.output.len(), 2);
    assert_eq!(sub_channel.channel_id, [7; 32]);
    assert_eq!(position_id, 11);
}

#[test]
fn the_channel_is_stored_as_closed() {
    let ConfirmStep::ClosePosition { position_id, .. } = play_first(7).step else {
        panic!("the position should be closed");
    };
    assert_eq!(position_id, 11);
    let ConfirmStep::UpsertSubChannel { sub_channel, .. } = play_first(8).step else {
        panic!("the channel should be stored");
    };
    assert_eq!(sub_channel.state, SubChannelState::OnChainClosed);
    assert_eq!(sub_channel.fund_value_satoshis, 200_000);
}

#[test]
fn outputs_are_asked_about_until_one_is_the_coordinators() {
    let flow = start(2, 1);
    assert!(matches!(flow.step, ConfirmStep::IsMine { output: 0, .. }));
    let flow = flow.advance(ConfirmEvent::IsMine(Err("unknown")));
    assert!(matches!(flow.step, ConfirmStep::IsMine { output: 1, .. }));
    let flow = flow.advance(ConfirmEvent::IsMine(Ok(true)));
    assert!(matches!(flow.step, ConfirmStep::ListSubChannels { .. }));
}

#[test]
fn a_transaction_that_does_not_pay_the_coordinator_is_refused() {
    let flow = start(1, 1).advance(ConfirmEvent::IsMine(Ok(false)));
    assert_eq!(failure(flow), (ConfirmError::NotPaid, None));

    let flow = start(3, 1).advance(ConfirmEvent::IsMine(Ok(false)));
    assert!(matches!(flow.step, ConfirmStep::IsMine { output: 1, .. }));
    let flow = flow.advance(ConfirmEvent::IsMine(Err("unknown")));
    assert!(matches!(flow.step, ConfirmStep::IsMine { output: 2, .. }));
    let flow = flow.advance(ConfirmEvent::IsMine(Ok(false)));
    assert!(!flow.accepts(&ConfirmEvent::SubChannels(Ok(vec![]))));
    assert_eq!(failure(flow), (ConfirmError::NotPaid, None));
}

#[test]
fn a_transaction_without_outputs_pays_nobody() {
    assert_eq!(failure(start(0, 1)), (ConfirmError::NotPaid, None));
}

#[test]
fn recorded_keys_come_before_those_of_the_node() {
    let ConfirmStep::Sign {
        channel_keys_id, ..
    } = play_first(5).step
    else {
        panic!("the transaction should be signed");
    };
    assert_eq!(channel_keys_id, [5; 32]);

    let without_record = || {
        let mut played = events();
        played[2] = ConfirmEvent::SubChannels(Ok(vec![channel(7, None)]));
        played.truncate(4);
        play(played)
    };
    let known = without_record().advance(ConfirmEvent::ChannelDetails(Some([6; 32])));
    assert!(matches!(
        known.step,
        ConfirmStep::Sign { channel_keys_id, .. } if channel_keys_id == [6; 32]
    ));
    let unknown = without_record().advance(ConfirmEvent::ChannelDetails(None));
    assert_eq!(failure(unknown), (ConfirmError::NoChannelKeys, None));
}

#[test]
fn every_failure_ends_the_confirmation_with_its_reason() {
    let cases: Vec<(usize, Event, ConfirmError, Option<&str>)> = vec![
        (
            2,
            ConfirmEvent::SubChannels(Err("list")),
            ConfirmError::ListSubChannels,
            Some("list"),
        ),
        (
            2,
            ConfirmEvent::SubChannels(Ok(vec![channel(1, None)])),
            ConfirmError::NoSubChannel,
            None,
        ),
        (
            3,
            ConfirmEvent::Position(Err("load")),
            ConfirmError::LoadPosition,
            Some("load"),
        ),
        (
            3,
            ConfirmEvent::Position(Ok(None)),
            ConfirmError::NoPosition,
            None,
        ),
        (
            5,
            ConfirmEvent::Signed(Err("sign")),
            ConfirmError::Sign,
            Some("sign"),
        ),
        (
            6,
            ConfirmEvent::Broadcast(Err("send")),
            ConfirmError::Broadcast,
            Some("send"),
        ),
        (
            7,
            ConfirmEvent::PositionClosed(Err("close")),
            ConfirmError::ClosePosition,
            Some("close"),
        ),
        (
            8,
            ConfirmEvent::SubChannelUpserted(Err("store")),
            ConfirmError::UpsertSubChannel,
            Some("store"),
        ),
        (
            9,
            ConfirmEvent::RevertDeleted(Err("delete")),
            ConfirmError::DeleteRevert,
            Some("delete"),
        ),
    ];
    for (steps, event, reason, cause) in cases {
        let flow = play_first(steps);
        assert!(flow.accepts(&event));
        let flow = flow.advance(event);
        assert!(!flow.accepts(&ConfirmEvent::Broadcast(Ok(()))));
        assert_eq!(failure(flow), (reason, cause));
    }
}

#[test]
fn a_transaction_without_inputs_cannot_be_signed() {
    let mut flow = start(1, 0);
    for event in [
        ConfirmEvent::IsMine(Ok(true)),
        ConfirmEvent::SubChannels(Ok(vec![channel(7, Some([5; 32]))])),
        ConfirmEvent::Position(Ok(Some(11))),
        ConfirmEvent::ChannelDetails(None),
    ] {
        flow = flow.advance(event);
    }
    assert!(!flow.accepts(&ConfirmEvent::Signed(Ok(vec![]))));
    assert!(flow.accepts(&ConfirmEvent::Signed(Err("sign"))));
}

#[test]
fn confirm_errors_name_the_channel_in_hexadecimal() {
    let mut id = [0u8; 32];
    id[0] = 0xab;
    id[31] = 0x1f;
    let hex = format!("ab{}1f", "00".repeat(30));
    let text = |error: ConfirmError| error.message(&id).unwrap();
    assert_eq!(
        text(ConfirmError::NoSubChannel),
        format!("Could not find subchannel {hex}")
    );
    assert_eq!(
        text(ConfirmError::NoPosition),
        format!("Could not load position for subchannel {hex}")
    );
    assert_eq!(
        text(ConfirmError::NoChannelKeys),
        format!("Could not get channel keys ID for subchannel {hex}")
    );
    assert_eq!(
        text(ConfirmError::NotPaid),
        "Proposed collaborative revert transaction doesn't pay the coordinator"
    );
    assert_eq!(
        text(ConfirmError::ListSubChannels),
        "Failed to list subchannels"
    );
    assert_eq!(
        text(ConfirmError::Sign),
        "Could not get own signature for collaborative revert transaction"
    );
    assert_eq!(
        text(ConfirmError::Broadcast),
        "Could not broadcast transaction"
    );
    assert_eq!(
        text(ConfirmError::ClosePosition),
        "Could not set position to closed"
    );
    assert_eq!(ConfirmError::LoadPosition.message(&id), None);
    assert_eq!(ConfirmError::UpsertSubChannel.message(&id), None);
    assert_eq!(ConfirmError::DeleteRevert.message(&id), None);
}
