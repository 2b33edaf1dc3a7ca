use ln_dlc::channel::ChannelDetails;
use ln_dlc::channel::SubChannel;
use ln_dlc::channel::SubChannelState;
use ln_dlc::fees::FeeError;
use ln_dlc::notification::notify_user_to_collaboratively_revert;
use ln_dlc::notification::Notification;
use ln_dlc::notification::NotificationKind;
use ln_dlc::notification::NotifyError;
use ln_dlc::notification::NotifyEvent;
use ln_dlc::notification::NotifyStep;
use ln_dlc::notification::Position;
use ln_dlc::notification::RevertParams;

type Event = NotifyEvent<&'static str>;

const TRADER: [u8; 33] = [2; 33];

const PRICE: u32 = 30_500;

fn details() -> ChannelDetails {
    ChannelDetails {
        counterparty: TRADER,
        channel_value_satoshis: 150_000,
        inbound_capacity_msat: 65_450_999,
        outbound_capacity_msat: 85_673_000,
        unspendable_punishment_reserve: Some(1_000),
    }
}

fn channel(id: u8, fund_value_satoshis: u64) -> SubChannel {
    SubChannel {
        channel_id: [id; 32],
        counter_party: TRADER,
        fund_value_satoshis,
        channel_keys_id: None,
        own_fund_pk: [3; 33],
        counter_fund_pk: [4; 33],
        original_funding_redeemscript: vec![],
        state: SubChannelState::Other,
    }
}

fn position() -> Position {
    Position {
        trader: TRADER,
        trader_margin: 18_690,
        coordinator_margin: 18_690,
    }
}

fn start() -> Notification<u32, &'static str> {
    notify_user_to_collaboratively_revert(
        [7; 32],
        RevertParams {
            price: PRICE,
            fee_rate_sats_vb: 1,
            txid: [9; 32],
            vout: 3,
        },
    )
}

fn events() -> Vec<Event> {
    vec![
        NotifyEvent::Connection(Ok(())),
        NotifyEvent::ChannelDetails(Some(details())),
        NotifyEvent::Channels(Ok(vec![channel(1, 5), channel(7, 200_000)])),
        NotifyEvent::Position(Ok(Some(position()))),
        NotifyEvent::Settlement(Ok(20_000)),
        NotifyEvent::UnusedAddress("address".to_string()),
        NotifyEvent::Inserted(Ok(())),
        NotifyEvent::Notified(Ok(())),
    ]
}

fn play(events: Vec<Event>) -> Notification<u32, &'static str> {
    events.into_iter().fold(start(), |flow, event| {
        assert!(flow.accepts(&event));
        flow.advance(event)
    })
}

/// Plays the first steps as they should go and then the given one.
fn play_then(steps: usize, event: Event) -> Notification<u32, &'static str> {
    let mut played = events();
    played.truncate(steps);
    played.push(event);
    play(played)
}

fn failure(flow: Notification<u32, &'static str>) -> (NotifyError, Option<&'static str>) {
    match flow.step {
        NotifyStep::Failed { reason, cause } => (reason, cause),
        other => panic!("{other:?}"),
    }
}

#[test]
fn a_revert_is_proposed() {
    let NotifyStep::Done { terms, revert } = play(events()).step else {
        panic!("the flow should be done");
    };
    // 200_000 - 65_450 - 85_673 - 2 * 1_000 - 18_690 - 18_690
    assert_eq!(terms.dlc_channel_fee, 9_497);
    assert!(!terms.trade_settled);
    assert_eq!(revert.channel_id, [7; 32]);
    assert_eq!(revert.trader_pubkey, TRADER);
    assert_eq!(revert.price, PRICE);
    assert_eq!(revert.coordinator_address, "address");
    assert_eq!(revert.coordinator_amount_sats, 108_718);
    assert_eq!(revert.trader_amount_sats, 91_114);
    assert_eq!(revert.txid, [9; 32]);
    assert_eq!(revert.vout, 3);
}

#[test]
fn the_trader_is_told_only_after_the_proposal_is_recorded() {
    let mut so_far = events();
    so_far.truncate(6);
    assert!(matches!(play(so_far).step, NotifyStep::InsertRevert { .. }));
    let mut so_far = events();
    so_far.truncate(7);
    assert!(matches!(play(so_far).step, NotifyStep::NotifyTrader { .. }));
}

#[test]
fn the_position_is_settled_at_the_price_asked_for() {
    let mut so_far = events();
    so_far.truncate(4);
    let NotifyStep::CalculateSettlement { deal, price } = play(so_far).step else {
        panic!("the settlement should be calculated");
    };
    assert_eq!(price, PRICE);
    assert_eq!(deal.fund_value_satoshis, 200_000);
}

#[test]
fn the_trader_is_told_what_was_recorded() {
    let mut so_far = events();
    so_far.truncate(6);
    let NotifyStep::InsertRevert { revert, .. } = play(so_far).step else {
        panic!("the proposal should be recorded");
    };
    assert_eq!(revert.price, PRICE);
    let mut so_far = events();
    so_far.truncate(7);
    let NotifyStep::NotifyTrader { message, .. } = play(so_far).step else {
        panic!("the trader should be told");
    };
    assert_eq!(message.trader_id, TRADER);
    assert_eq!(message.channel_id, [7; 32]);
    assert_eq!(message.coordinator_address, "address");
    assert_eq!(message.coordinator_amount_sats, 108_718);
    assert_eq!(message.trader_amount_sats, 91_114);
    assert_eq!(message.execution_price, PRICE);
    assert_eq!(
        message.notification,
        Some(NotificationKind::CollaborativeRevert)
    );
}

#[test]
fn a_settled_trade_counts_no_margins() {
    let mut played = events();
    played[1] = NotifyEvent::ChannelDetails(Some(ChannelDetails {
        channel_value_satoshis: 200_000,
        unspendable_punishment_reserve: None,
        ..details()
    }));
    let NotifyStep::Done { terms, revert } = play(played).step else {
        panic!("the flow should be done");
    };
    assert!(terms.trade_settled);
    assert_eq!(terms.reserve, 0);
    assert_eq!(terms.dlc_channel_fee, 48_877);
    assert_eq!(revert.coordinator_amount_sats, 134_550 - 84);
    assert_eq!(revert.trader_amount_sats, 65_450 - 84);
}

#[test]
fn every_failure_ends_the_flow_with_its_reason() {
    let cases: Vec<(usize, Event, NotifyError, Option<&str>)> = vec![
        (
            0,
            NotifyEvent::Connection(Err("pool")),
            NotifyError::Connection,
            Some("pool"),
        ),
        (
            1,
            NotifyEvent::ChannelDetails(None),
            NotifyError::NoChannelDetails,
            None,
        ),
        (
            2,
            NotifyEvent::Channels(Err("list")),
            NotifyError::ListChannels,
            Some("list"),
        ),
        (
            2,
            NotifyEvent::Channels(Ok(vec![channel(1, 5)])),
            NotifyError::NoChannel,
            None,
        ),
        (
            3,
            NotifyEvent::Position(Err("load")),
            NotifyError::LoadPosition,
            Some("load"),
        ),
        (
            3,
            NotifyEvent::Position(Ok(None)),
            NotifyError::NoPosition,
            None,
        ),
        (
            4,
            NotifyEvent::Settlement(Err("settle")),
            NotifyError::Settlement,
            Some("settle"),
        ),
        (
            6,
            NotifyEvent::Inserted(Err("insert")),
            NotifyError::Insert,
            Some("insert"),
        ),
        (
            7,
            NotifyEvent::Notified(Err("send")),
            NotifyError::Notify,
            Some("send"),
        ),
    ];
    for (steps, event, reason, cause) in cases {
        let flow = play_then(steps, event);
        assert!(!flow.accepts(&NotifyEvent::Connection(Ok(()))));
        assert!(!flow.accepts(&NotifyEvent::Notified(Ok(()))));
        assert_eq!(failure(flow), (reason, cause));
    }
}

#[test]
fn fees_that_cannot_be_found_end_the_flow() {
    let mut played = events();
    played[1] = NotifyEvent::ChannelDetails(Some(ChannelDetails {
        inbound_capacity_msat: 84_140_000,
        outbound_capacity_msat: 104_363_000,
        ..details()
    }));
    played.truncate(5);
    assert_eq!(
        failure(play(played)),
        (NotifyError::Fees(FeeError::TraderMargin), None)
    );
}

#[test]
fn a_deal_that_cannot_be_worked_out_is_not_taken() {
    let mut so_far = events();
    so_far.truncate(4);
    let flow = play(so_far);
    // More than the coordinator has.
    assert!(!flow.accepts(&NotifyEvent::Settlement(Ok(190_000))));
    assert!(flow.accepts(&NotifyEvent::Settlement(Ok(20_000))));
    assert!(flow.accepts(&NotifyEvent::Settlement(Err("settle"))));
}

#[test]
fn a_step_takes_no_other_event() {
    assert!(!start().accepts(&NotifyEvent::Inserted(Ok(()))));
    assert!(!start().accepts(&NotifyEvent::ChannelDetails(None)));
}

#[test]
fn notify_errors_have_their_texts() {
    let text = |error: NotifyError| error.message().unwrap();
    assert_eq!(text(NotifyError::Connection), "Could not acquire db lock");
    assert_eq!(text(NotifyError::NoChannelDetails), "Could not get channel");
    assert_eq!(
        text(NotifyError::ListChannels),
        "Could not list dlc channels"
    );
    assert_eq!(
        text(NotifyError::NoChannel),
        "Could not find provided channel"
    );
    assert_eq!(NotifyError::LoadPosition.message(), None);
    assert_eq!(
        text(NotifyError::NoPosition),
        "Could not load position for channel_id"
    );
    assert_eq!(
        text(NotifyError::Settlement),
        "Could not calculate settlement amount"
    );
    assert_eq!(
        text(NotifyError::Fees(FeeError::Reserve)),
        "could not substract the reserve"
    );
    assert_eq!(
        text(NotifyError::Insert),
        "Could not insert new collaborative revert"
    );
    assert_eq!(
        text(NotifyError::Notify),
        "Could send message to notify user "
    );
}
