use ln_dlc::channel::find_channel;
use ln_dlc::channel::same_bytes;
use ln_dlc::channel::SubChannel;
use ln_dlc::channel::SubChannelState;

fn channel(id: u8, fund_value_satoshis: u64) -> SubChannel {
    SubChannel {
        channel_id: [id; 32],
        counter_party: [2; 33],
        fund_value_satoshis,
        channel_keys_id: None,
        own_fund_pk: [3; 33],
        counter_fund_pk: [4; 33],
        original_funding_redeemscript: vec![],
        state: SubChannelState::Other,
    }
}

#[test]
fn the_first_channel_with_the_identifier_is_found() {
    let channels = vec![channel(1, 10), channel(2, 20), channel(2, 30), channel(3, 40)];
    let found = find_channel(channels, &[2; 32]).unwrap();
    assert_eq!(found.channel_id, [2; 32]);
    assert_eq!(found.fund_value_satoshis, 20);
}

#[test]
fn no_channel_is_found_under_another_identifier() {
    assert!(find_channel(vec![channel(1, 10), channel(2, 20)], &[5; 32]).is_none());
    assert!(find_channel(vec![], &[5; 32]).is_none());
}

#[test]
fn bytes_are_compared_to_the_end() {
    let mut other = [7u8; 32];
    assert!(same_bytes(&[7; 32], &other));
    other[31] = 8;
    assert!(!same_bytes(&[7; 32], &other));
}
