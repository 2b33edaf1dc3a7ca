use ln_dlc::fees::calculate_dlc_channel_tx_fees;
use ln_dlc::fees::FeeError;

#[test]
fn calculate_transaction_fee_for_dlc_channel_transactions_with_smaller_ln_channel() {
    let total_fee =
        calculate_dlc_channel_tx_fees(false, 200_000, 65_450, 85_673, 18_690, 18_690, 1_000)
            .unwrap();
    assert_eq!(total_fee, 9_497);
}

#[test]
fn calculate_transaction_fee_for_dlc_channel_transactions_with_equal_ln_channel() {
    let total_fee =
        calculate_dlc_channel_tx_fees(true, 200_000, 84_140, 104_363, 18_690, 18_690, 1_000)
            .unwrap();
    assert_eq!(total_fee, 9_497);
}

#[test]
fn ensure_overflow_being_caught() {
    assert!(calculate_dlc_channel_tx_fees(
        false, 200_000, 84_140, 104_363, 18_690, 18_690, 1_000
    )
    .is_err());
}

#[test]
fn fees_name_the_share_that_does_not_fit() {
    let fees = |settled, inbound, outbound, trader, coordinator, reserve| {
        calculate_dlc_channel_tx_fees(settled, 100, inbound, outbound, trader, coordinator, reserve)
    };
    assert_eq!(fees(false, 101, 0, 0, 0, 0), Err(FeeError::InboundCapacity));
    assert_eq!(fees(false, 60, 41, 0, 0, 0), Err(FeeError::OutboundCapacity));
    assert_eq!(fees(false, 60, 30, 0, 0, 6), Err(FeeError::Reserve));
    assert_eq!(fees(false, 60, 30, 1, 0, 5), Err(FeeError::TraderMargin));
    assert_eq!(fees(false, 60, 30, 2, 5, 2), Err(FeeError::CoordinatorMargin));
    assert_eq!(fees(false, 60, 30, 2, 4, 2), Ok(0));
    assert_eq!(fees(true, 60, 30, 2, 5, 2), Ok(6));
}

#[test]
fn a_reserve_is_not_looked_at_before_the_capacities_fit() {
    let fees = calculate_dlc_channel_tx_fees(true, 100, 101, 0, 0, 0, u64::MAX);
    assert_eq!(fees, Err(FeeError::InboundCapacity));
}

#[test]
fn fee_errors_say_which_share_it_was() {
    assert_eq!(
        FeeError::InboundCapacity.message(),
        "could not subtract inbound capacity"
    );
    assert_eq!(
        FeeError::OutboundCapacity.message(),
        "could not subtract outbound capacity"
    );
    assert_eq!(
        FeeError::Reserve.message(),
        "could not substract the reserve"
    );
    assert_eq!(
        FeeError::TraderMargin.message(),
        "could not subtract trader margin"
    );
    assert_eq!(
        FeeError::CoordinatorMargin.message(),
        "could not subtract coordinator margin"
    );
}

#[test]
fn fees_and_shares_make_up_the_channel() {
    let fees = calculate_dlc_channel_tx_fees(false, 200_000, 65_450, 85_673, 18_690, 18_690, 1_000);
    assert_eq!(
        fees.unwrap() + 65_450 + 85_673 + 18_690 + 18_690 + 2 * 1_000,
        200_000
    );
}

#[test]
fn settling_moves_the_margins_and_leaves_the_fees() {
    let open = calculate_dlc_channel_tx_fees(false, 200_000, 65_450, 85_673, 18_000, 19_000, 1_000);
    let settled = calculate_dlc_channel_tx_fees(
        true,
        200_000,
        65_450 + 18_000,
        85_673 + 19_000,
        18_000,
        19_000,
        1_000,
    );
    assert!(open.is_ok());
    assert_eq!(open, settled);
}
