use ln_dlc::amounts::half_fee;
use ln_dlc::amounts::to_unsigned;
use ln_dlc::amounts::RevertAmounts;
use ln_dlc::amounts::Terms;

fn open_trade() -> Terms {
    Terms {
        trade_settled: false,
        fund_value: 200_000,
        inbound_capacity: 65_450,
        settlement_amount: 20_000,
        dlc_channel_fee: 9_497,
        reserve: 1_000,
        fee_rate_sats_vb: 1,
    }
}

#[test]
fn half_of_a_fee_is_the_one_of_double_precision() {
    let mut fees: Vec<u64> = vec![0, 1, 2, 3, 9_497, u64::MAX, u64::MAX - 1, u64::MAX / 2];
    for shift in 50..64 {
        for offset in 0..40 {
            fees.push((1u64 << shift) - 1 + offset);
            fees.push((1u64 << shift) + 1_000 * offset + 513);
            fees.push((1u64 << shift) - 37 * offset - 1);
        }
    }
    for fee in fees {
        assert_eq!(half_fee(fee), (fee as f64 / 2.0) as i64, "{fee}");
    }
}

#[test]
fn half_of_a_large_fee_is_rounded() {
    assert_eq!(half_fee(9_497), 4_748);
    assert_eq!(half_fee((1 << 53) + 1), 1 << 52);
    assert_eq!(half_fee((1 << 53) + 3), (1 << 52) + 2);
    assert_eq!(half_fee(u64::MAX), i64::MAX);
}

#[test]
fn negative_numbers_are_read_as_large_ones() {
    assert_eq!(to_unsigned(18_690), 18_690);
    assert_eq!(to_unsigned(-1), u64::MAX);
    assert_eq!(to_unsigned(i64::MIN), 1 << 63);
}

#[test]
fn an_open_trade_is_settled_when_it_is_reverted() {
    // 200_000 - 65_450 - 20_000 - 4_748 - 1_000 for the coordinator, the rest for the trader, each
    // without half of the fee for 168 virtual bytes.
    assert_eq!(
        open_trade().checked_amounts(),
        Some(RevertAmounts {
            coordinator: 108_802 - 84,
            trader: 91_198 - 84,
        })
    );
}

#[test]
fn a_settled_trade_is_reverted_as_the_channel_stands() {
    let terms = Terms {
        trade_settled: true,
        ..open_trade()
    };
    assert_eq!(
        terms.checked_amounts(),
        Some(RevertAmounts {
            coordinator: 133_550 - 84,
            trader: 66_450 - 84,
        })
    );
}

#[test]
fn reverting_pays_out_the_channel() {
    for fee_rate_sats_vb in [0, 1, 3, 17, 100] {
        let terms = Terms {
            fee_rate_sats_vb,
            ..open_trade()
        };
        let amounts = terms.checked_amounts().unwrap();
        assert_eq!(
            amounts.coordinator + amounts.trader + 168 * fee_rate_sats_vb,
            200_000
        );
    }
}

#[test]
fn a_party_that_cannot_pay_its_half_of_the_fee_stops_the_revert() {
    let with_rate = |fee_rate_sats_vb| Terms {
        fee_rate_sats_vb,
        ..open_trade()
    };
    // The trader has 91_198, which covers half of 168 virtual bytes at 1_085 but not at 1_086.
    assert!(with_rate(1_085).checked_amounts().is_some());
    assert!(with_rate(1_086).checked_amounts().is_none());
    assert!(with_rate(u64::MAX).checked_amounts().is_none());
}

#[test]
fn a_coordinator_that_would_owe_money_stops_the_revert() {
    let terms = Terms {
        settlement_amount: 190_000,
        ..open_trade()
    };
    assert!(terms.checked_amounts().is_none());
}

#[test]
fn amounts_beyond_the_signed_range_stop_the_revert() {
    let terms = Terms {
        inbound_capacity: u64::MAX,
        ..open_trade()
    };
    assert!(terms.checked_amounts().is_none());
    let terms = Terms {
        settlement_amount: 1 << 63,
        ..open_trade()
    };
    assert!(terms.checked_amounts().is_none());
}
