//! The on-chain transactions of a wallet.
use crate::chain::Transaction;
use vstd::prelude::*;

verus! {

/// The block that confirmed a transaction.
#[derive(Clone, Copy, Debug, PartialEq, Eq, Structural)]
pub struct BlockTime {
    pub height: u32,
    pub timestamp: u64,
}

/// A transaction that concerns the wallet.
#[derive(Debug)]
pub struct TransactionDetails {
    pub transaction: Option<Transaction>,
    pub txid: [u8; 32],
    /// What the wallet received, in satoshis.
    pub received: u64,
    /// What the wallet sent, in satoshis.
    pub sent: u64,
    pub fee: Option<u64>,
    /// The block that confirmed the transaction, if one has.
    pub confirmation_time: Option<BlockTime>,
}

impl TransactionDetails {
    /// The height by which transactions are ordered. One that is not confirmed comes below all that
    /// are.
    pub open spec fn rank(self) -> int {
        match self.confirmation_time {
            Some(time) => time.height as int,
            None => -1,
        }
    }

    /// Whether this transaction ranks at most as high as another.
    fn ranks_at_most(&self, other: &TransactionDetails) -> (at_most: bool)
        ensures
            at_most == (self.rank() <= other.rank()),
    {
        match (self.confirmation_time, other.confirmation_time) {
            (Some(own), Some(others)) => own.height <= others.height,
            (Some(_), None) => false,
            (None, _) => true,
        }
    }
}

/// Whether transactions are sorted with the most recent ones first.
pub open spec fn most_recent_first(transactions: Seq<TransactionDetails>) -> bool {
    forall|i: int, j: int|
        0 <= i <= j < transactions.len() ==> transactions[i].rank() >= transactions[j].rank()
}

/// The transactions of one rank, in the order in which they stand.
pub open spec fn of_rank(transactions: Seq<TransactionDetails>, rank: int) -> Seq<TransactionDetails> {
    transactions.filter(|details: TransactionDetails| details.rank() == rank)
}

proof fn lemma_of_rank_none(transactions: Seq<TransactionDetails>, rank: int)
    requires
        forall|i: int| 0 <= i < transactions.len() ==> transactions[i].rank() != rank,
    ensures
        of_rank(transactions, rank) == Seq::<TransactionDetails>::empty(),
    decreases transactions.len(),
{
    reveal(Seq::filter);
    if transactions.len() > 0 {
        lemma_of_rank_none(transactions.drop_last(), rank);
    }
}

proof fn lemma_of_rank_one(details: TransactionDetails, rank: int)
    ensures
        of_rank(seq![details], rank) == if details.rank() == rank {
            seq![details]
        } else {
            Seq::empty()
        },
{
    reveal(Seq::filter);
    let pred = |details: TransactionDetails| details.rank() == rank;
    assert(seq![details].drop_last() =~= Seq::<TransactionDetails>::empty());
    assert(Seq::<TransactionDetails>::empty().filter(pred) =~= Seq::<TransactionDetails>::empty());
    assert(of_rank(seq![details], rank) =~= if details.rank() == rank {
        seq![details]
    } else {
        Seq::empty()
    });
}

proof fn lemma_of_rank_add(
    first: Seq<TransactionDetails>,
    second: Seq<TransactionDetails>,
    rank: int,
)
    ensures
        of_rank(first + second, rank) == of_rank(first, rank) + of_rank(second, rank),
{
    Seq::filter_distributes_over_add(
        first,
        second,
        |details: TransactionDetails| details.rank() == rank,
    );
}

/// Putting a transaction behind all that rank higher has the same effect on each rank as putting it
/// in front of them.
proof fn lemma_insert_keeps_ranks(
    sorted: Seq<TransactionDetails>,
    at: int,
    details: TransactionDetails,
    rank: int,
)
    requires
        0 <= at <= sorted.len(),
        forall|i: int| 0 <= i < at ==> sorted[i].rank() > details.rank(),
    ensures
        of_rank(sorted.insert(at, details), rank) == of_rank(seq![details] + sorted, rank),
{
    let higher = sorted.take(at);
    let lower = sorted.skip(at);
    let one = seq![details];
    assert(sorted =~= higher + lower);
    assert(sorted.insert(at, details) =~= higher + (one + lower));
    lemma_of_rank_add(higher, one + lower, rank);
    lemma_of_rank_add(one, lower, rank);
    lemma_of_rank_add(one, sorted, rank);
    lemma_of_rank_add(higher, lower, rank);
    lemma_of_rank_one(details, rank);
    if rank == details.rank() {
        lemma_of_rank_none(higher, rank);
    }
    assert(of_rank(sorted.insert(at, details), rank) =~= of_rank(one + sorted, rank));
}

/// Sorts transactions with the most recent ones first. Transactions of the same height keep their
/// order, and those that are not confirmed come last.
pub fn sort_most_recent_first(transactions: Vec<TransactionDetails>) -> (sorted: Vec<
    TransactionDetails,
>)
    ensures
        most_recent_first(sorted@),
        forall|rank: int| #[trigger] of_rank(sorted@, rank) == of_rank(transactions@, rank),
        sorted@.to_multiset() == transactions@.to_multiset(),
        forall|i: int, j: int|
            0 <= i < j < sorted@.len() && (#[trigger] sorted@[j]).confirmation_time is Some ==> (
            #[trigger] sorted@[i]).confirmation_time is Some
                && sorted@[i].confirmation_time->0.height >= sorted@[j].confirmation_time->0.height,
{
    let ghost all = transactions@;
    let mut rest = transactions;
    let mut sorted: Vec<TransactionDetails> = Vec::new();
    assert(rest@ + sorted@ =~= all);
    while rest.len() > 0
        invariant
            most_recent_first(sorted@),
            forall|rank: int| #[trigger] of_rank(rest@ + sorted@, rank) == of_rank(all, rank),
            (rest@ + sorted@).to_multiset() == all.to_multiset(),
        decreases rest@.len(),
    {
        let ghost before = rest@;
        let ghost tail = sorted@;
        if let Some(details) = rest.pop() {
            let mut at: usize = 0;
            while at < sorted.len() && !sorted[at].ranks_at_most(&details)
                invariant
                    sorted@ == tail,
                    at <= tail.len(),
                    forall|i: int| 0 <= i < at ==> tail[i].rank() > details.rank(),
                decreases tail.len() - at,
            {
                at = at + 1;
            }
            sorted.insert(at, details);
            proof {
                let one = seq![details];
                assert(before =~= rest@ + one);
                assert(before + tail =~= rest@ + (one + tail));
                assert forall|rank: int| #[trigger] of_rank(rest@ + sorted@, rank) == of_rank(
                    all,
                    rank,
                ) by {
                    lemma_insert_keeps_ranks(tail, at as int, details, rank);
                    lemma_of_rank_add(rest@, sorted@, rank);
                    lemma_of_rank_add(rest@, one + tail, rank);
                    assert(of_rank(before + tail, rank) == of_rank(all, rank));
                }
                assert((rest@ + sorted@).to_multiset() == all.to_multiset()) by {
                    assert(rest@ + sorted@ =~= (rest@ + tail).insert(rest@.len() + at, details));
                    assert(before + tail =~= (rest@ + tail).insert(rest@.len() as int, details));
                    vstd::seq_lib::to_multiset_insert(rest@ + tail, rest@.len() + at, details);
                    vstd::seq_lib::to_multiset_insert(rest@ + tail, rest@.len() as int, details);
                }
            }
        }
    }
    assert(rest@ + sorted@ =~= sorted@);
    proof {
        law_history_is_ordered_by_height(sorted@);
    }
    sorted
}

/// Law: in a sorted list a transaction comes before another only if it was confirmed in the same block
/// or a later one, or the other has not been confirmed. In particular those that have not been
/// confirmed come last.
pub proof fn law_history_is_ordered_by_height(sorted: Seq<TransactionDetails>)
    requires
        most_recent_first(sorted),
    ensures
        forall|i: int, j: int|
            0 <= i < j < sorted.len() && (#[trigger] sorted[j]).confirmation_time is Some ==> (
            #[trigger] sorted[i]).confirmation_time is Some
                && sorted[i].confirmation_time->0.height >= sorted[j].confirmation_time->0.height,
{
    assert forall|i: int, j: int|
        0 <= i < j < sorted.len() && (
        #[trigger] sorted[j]).confirmation_time is Some implies (#[trigger] sorted[i]).confirmation_time is Some
        && sorted[i].confirmation_time->0.height >= sorted[j].confirmation_time->0.height by {
        assert(sorted[i].rank() >= sorted[j].rank());
    }
}

/// Law: sorting keeps, for any height, the transactions confirmed at that height and the order in
/// which they were listed, and likewise those that have not been confirmed.
pub proof fn law_sorting_keeps_the_order_at_each_height(
    listed: Seq<TransactionDetails>,
    sorted: Seq<TransactionDetails>,
    height: u32,
)
    requires
        forall|rank: int| #[trigger] of_rank(sorted, rank) == of_rank(listed, rank),
    ensures
        sorted.filter(
            |details: TransactionDetails|
                details.confirmation_time is Some && details.confirmation_time->0.height == height,
        ) == listed.filter(
            |details: TransactionDetails|
                details.confirmation_time is Some && details.confirmation_time->0.height == height,
        ),
        sorted.filter(|details: TransactionDetails| details.confirmation_time is None)
            == listed.filter(|details: TransactionDetails| details.confirmation_time is None),
{
    let confirmed = |details: TransactionDetails|
        details.confirmation_time is Some && details.confirmation_time->0.height == height;
    let unconfirmed = |details: TransactionDetails| details.confirmation_time is None;
    assert(confirmed =~= (|details: TransactionDetails| details.rank() == height as int));
    assert(unconfirmed =~= (|details: TransactionDetails| details.rank() == -1int));
    assert(of_rank(sorted, height as int) == of_rank(listed, height as int));
    assert(of_rank(sorted, -1) == of_rank(listed, -1));
}

/// Law: there is only one way to sort transactions with the most recent ones first so that those of
/// the same height keep their order.
pub proof fn law_sorted_history_is_unique(
    left: Seq<TransactionDetails>,
    right: Seq<TransactionDetails>,
)
    requires
        most_recent_first(left),
        most_recent_first(right),
        forall|rank: int| #[trigger] of_rank(left, rank) == of_rank(right, rank),
    ensures
        left == right,
    decreases left.len(),
{
    if left.len() == 0 {
        if right.len() > 0 {
            lemma_starts_with_its_rank(right);
            lemma_of_rank_none(left, right[0].rank());
            assert(of_rank(left, right[0].rank()) == of_rank(right, right[0].rank()));
        }
        assert(left =~= right);
    } else {
        let rank = left[0].rank();
        lemma_starts_with_its_rank(left);
        assert(of_rank(left, rank) == of_rank(right, rank));
        if right.len() == 0 {
            lemma_of_rank_none(right, rank);
        } else {
            lemma_starts_with_its_rank(right);
            assert(of_rank(left, right[0].rank()) == of_rank(right, right[0].rank()));
            if right[0].rank() < rank {
                lemma_of_rank_none(right, rank);
            }
            if right[0].rank() > rank {
                lemma_of_rank_none(left, right[0].rank());
            }
            assert(left[0] == right[0]);
            let left_rest = left.drop_first();
            let right_rest = right.drop_first();
            assert forall|other: int| #[trigger] of_rank(left_rest, other) == of_rank(
                right_rest,
                other,
            ) by {
                let one = seq![left[0]];
                assert(left =~= one + left_rest);
                assert(right =~= one + right_rest);
                lemma_of_rank_add(one, left_rest, other);
                lemma_of_rank_add(one, right_rest, other);
                assert(of_rank(left, other) == of_rank(right, other));
                let prefix = of_rank(one, other).len() as int;
                assert(of_rank(left_rest, other) =~= of_rank(left, other).skip(prefix));
                assert(of_rank(right_rest, other) =~= of_rank(right, other).skip(prefix));
            }
            law_sorted_history_is_unique(left_rest, right_rest);
            assert(left =~= seq![left[0]] + left_rest);
            assert(right =~= seq![right[0]] + right_rest);
        }
    }
}

proof fn lemma_starts_with_its_rank(transactions: Seq<TransactionDetails>)
    requires
        transactions.len() > 0,
    ensures
        of_rank(transactions, transactions[0].rank()).len() > 0,
        of_rank(transactions, transactions[0].rank())[0] == transactions[0],
{
    let first = transactions[0];
    let rest = transactions.drop_first();
    assert(transactions =~= seq![first] + rest);
    lemma_of_rank_add(seq![first], rest, first.rank());
    lemma_of_rank_one(first, first.rank());
}

} // verus!
