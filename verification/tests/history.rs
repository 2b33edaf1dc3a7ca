use ln_dlc::history::sort_most_recent_first;
use ln_dlc::history::BlockTime;
use ln_dlc::history::TransactionDetails;

fn details(id: u8, height: Option<u32>) -> TransactionDetails {
    TransactionDetails {
        transaction: None,
        txid: [id; 32],
        received: 0,
        sent: 0,
        fee: None,
        confirmation_time: height.map(|height| BlockTime {
            height,
            timestamp: 0,
        }),
    }
}

fn ids(transactions: &[TransactionDetails]) -> Vec<u8> {
    transactions.iter().map(|details| details.txid[0]).collect()
}

#[test]
fn the_most_recent_transactions_come_first() {
    let sorted = sort_most_recent_first(vec![
        details(1, Some(100)),
        details(2, None),
        details(3, Some(300)),
        details(4, Some(0)),
        details(5, Some(200)),
    ]);
    assert_eq!(ids(&sorted), vec![3, 5, 1, 4, 2]);
}

#[test]
fn transactions_of_the_same_height_keep_their_order() {
    let sorted = sort_most_recent_first(vec![
        details(1, None),
        details(2, Some(7)),
        details(3, None),
        details(4, Some(9)),
        details(5, Some(7)),
        details(6, Some(7)),
    ]);
    assert_eq!(ids(&sorted), vec![4, 2, 5, 6, 1, 3]);
}

#[test]
fn an_empty_history_stays_empty() {
    assert!(sort_most_recent_first(vec![]).is_empty());
}

#[test]
fn sorting_twice_changes_nothing() {
    let make = || {
        vec![
            details(1, Some(5)),
            details(2, Some(6)),
            details(3, None),
            details(4, Some(5)),
        ]
    };
    let once = sort_most_recent_first(make());
    let first = ids(&once);
    assert_eq!(first, vec![2, 1, 4, 3]);
    assert_eq!(ids(&sort_most_recent_first(once)), first);
}
