//! Choosing the outputs that pay for something.
use crate::chain::copy_bytes;
use crate::chain::TxOut;
use crate::chain::TxOutView;
use crate::error::WalletError;
use crate::text::join;
use bitcoin::Amount;
use bitcoin::FeeRate;
use bitcoin::Weight;
use vstd::prelude::*;

verus! {

/// An amount of bitcoin.
#[verifier::external_type_specification]
#[verifier::external_body]
pub struct ExAmount(bitcoin::Amount);

/// The weight of a transaction or of a part of it.
#[verifier::external_type_specification]
#[verifier::external_body]
pub struct ExWeight(bitcoin::Weight);

/// What an output for the change would cost, in satoshis. A choice that pays no more than this above
/// what is asked for needs no change.
pub const COST_OF_CHANGE: u64 = 20;

/// All the money that there can be, in satoshis.
pub const MAX_MONEY: u64 = 2_100_000_000_000_000;

/// An output that the wallet can spend.
#[derive(Debug)]
pub struct Utxo {
    pub tx_out: TxOut,
    /// The transaction that holds the output.
    pub txid: [u8; 32],
    /// Which of the transaction's outputs it is.
    pub vout: u32,
    pub address: String,
    pub redeem_script: Vec<u8>,
    /// Whether the output has been set aside for something.
    pub reserved: bool,
}

/// The contents of an output that the wallet can spend.
#[verifier::ext_equal]
pub struct UtxoView {
    pub tx_out: TxOutView,
    pub txid: Seq<u8>,
    pub vout: u32,
    pub address: Seq<char>,
    pub redeem_script: Seq<u8>,
    pub reserved: bool,
}

impl View for Utxo {
    type V = UtxoView;

    open spec fn view(&self) -> UtxoView {
        UtxoView {
            tx_out: self.tx_out@,
            txid: self.txid@,
            vout: self.vout,
            address: self.address@,
            redeem_script: self.redeem_script@,
            reserved: self.reserved,
        }
    }
}

impl Utxo {
    /// A copy that is or is not set aside.
    fn copy(&self, reserved: bool) -> (copy: Utxo)
        ensures
            copy@ == (UtxoView { reserved, ..self@ }),
    {
        Utxo {
            tx_out: TxOut {
                value: self.tx_out.value,
                script_pubkey: copy_bytes(&self.tx_out.script_pubkey),
            },
            txid: self.txid,
            vout: self.vout,
            address: self.address.clone(),
            redeem_script: copy_bytes(&self.redeem_script),
            reserved,
        }
    }
}

/// An output as it takes part in a choice: its value, and the place where it stands among the
/// wallet's outputs.
#[derive(Clone, Copy, Debug, PartialEq, Eq, Structural)]
pub struct UtxoWrap {
    pub value: u64,
    pub index: usize,
}

impl bitcoin_coin_selection::WeightedUtxo for UtxoWrap {
    /// Calls `bitcoin::Weight::from_wu`: spending an output is taken to weigh nothing, so that its
    /// value counts in full.
    #[verifier::external_body]
    fn satisfaction_weight(&self) -> Weight {
        Weight::from_wu(0)
    }

    /// Calls `bitcoin::Amount::from_sat`: the value of the output in satoshis.
    #[verifier::external_body]
    fn value(&self) -> Amount {
        Amount::from_sat(self.value)
    }
}

/// What outputs are worth together, in satoshis.
pub open spec fn total_value(coins: Seq<UtxoWrap>) -> int
    decreases coins.len(),
{
    if coins.len() == 0 {
        0
    } else {
        total_value(coins.drop_last()) + coins.last().value
    }
}

/// Whether `chosen` is a choice out of `pool` that pays for `target`: at least one output, none of
/// them more often than it stands in the pool, together worth no less than is asked for.
pub open spec fn pays_for(pool: Seq<UtxoWrap>, chosen: Seq<UtxoWrap>, target: int) -> bool {
    &&& chosen.len() > 0
    &&& chosen.to_multiset().subset_of(pool.to_multiset())
    &&& total_value(chosen) >= target
}

/// Whether no amount is beyond what an amount of bitcoin can be.
pub open spec fn are_amounts(pool: Seq<UtxoWrap>, target: int) -> bool {
    &&& target <= MAX_MONEY
    &&& forall|i: int| 0 <= i < pool.len() ==> (#[trigger] pool[i]).value <= i64::MAX
}

/// Whether there is an output at all and all outputs together are worth enough.
pub open spec fn is_covered(pool: Seq<UtxoWrap>, target: int) -> bool {
    pool.len() > 0 && total_value(pool) >= target
}

/// Whether some choice pays for `target` with so little to spare that it needs no change.
pub open spec fn is_covered_without_change(
    pool: Seq<UtxoWrap>,
    target: int,
    cost_of_change: int,
) -> bool {
    exists|coins: Seq<UtxoWrap>|
        #[trigger] pays_for(pool, coins, target) && total_value(coins) <= target + cost_of_change
}

/// Whether the search for a choice without change goes through all choices: there are few enough
/// outputs, something is to be paid, and all outputs together are worth a machine integer.
pub open spec fn is_searched_in_full(pool: Seq<UtxoWrap>, target: int) -> bool {
    pool.len() <= 15 && 0 < target && total_value(pool) <= u64::MAX
}

/// Whether `chosen` is a choice out of `pool` that pays for `target`, and without change if that is
/// possible and the search for such a choice goes through all choices.
pub open spec fn is_choice(
    pool: Seq<UtxoWrap>,
    chosen: Seq<UtxoWrap>,
    target: int,
    cost_of_change: int,
) -> bool {
    &&& pays_for(pool, chosen, target)
    &&& are_amounts(pool, target) && is_searched_in_full(pool, target) && cost_of_change
        <= MAX_MONEY && is_covered_without_change(pool, target, cost_of_change) ==> total_value(
        chosen,
    ) <= target + cost_of_change
}

/// Calls `bitcoin_coin_selection::select_coins` at a fee rate of zero, at which the value of an
/// output counts in full.
///
/// It looks for a choice worth at least `target` and at most `cost_of_change` more and, where it
/// finds none, takes outputs in random order until they are worth enough. Either way it takes each
/// output at most once and only ever hands back a choice that is worth enough. As long as the
/// amounts are ones that bitcoin can have, it finds a choice exactly if there is an output at all
/// and all outputs together are worth enough. Beyond that the random draw gives up, and nothing is
/// claimed of success.
///
/// The search is cut off after a hundred thousand tries. It tries each beginning of a list of
/// decisions at most once, of which fifteen outputs have fewer than that, so with no more outputs it
/// finds a choice within `cost_of_change` if there is one.
///
/// Which of several choices comes back rests on chance, and on how far a search that is cut off
/// gets; of this nothing is claimed. The outputs are counted with 32 bits.
#[verifier::external_body]
fn select_coins(
    target: u64,
    cost_of_change: u64,
    pool: &Vec<UtxoWrap>,
) -> (chosen: Option<Vec<UtxoWrap>>)
    requires
        pool@.len() <= u32::MAX,
    ensures
        chosen is Some ==> is_choice(
            pool@,
            chosen->0@,
            target as int,
            cost_of_change as int,
        ),
        are_amounts(pool@, target as int) ==> chosen is Some == is_covered(pool@, target as int),
{
    let (_, coins) = bitcoin_coin_selection::select_coins(
        Amount::from_sat(target),
        Amount::from_sat(cost_of_change),
        FeeRate::ZERO,
        FeeRate::ZERO,
        pool,
    )?;
    Some(coins.into_iter().copied().collect())
}

/// The outputs that are not set aside, in order.
pub open spec fn free_coins(utxos: Seq<Utxo>) -> Seq<UtxoWrap>
    decreases utxos.len(),
{
    if utxos.len() == 0 {
        Seq::empty()
    } else {
        let earlier = free_coins(utxos.drop_last());
        if utxos.last().reserved {
            earlier
        } else {
            earlier.push(
                UtxoWrap { value: utxos.last().tx_out.value, index: (utxos.len() - 1) as usize },
            )
        }
    }
}

/// The outputs that are not set aside.
fn unreserved(utxos: &Vec<Utxo>) -> (coins: Vec<UtxoWrap>)
    ensures
        coins@ == free_coins(utxos@),
{
    let mut coins: Vec<UtxoWrap> = Vec::new();
    let mut i: usize = 0;
    while i < utxos.len()
        invariant
            i <= utxos@.len(),
            coins@ == free_coins(utxos@.take(i as int)),
        decreases utxos@.len() - i,
    {
        assert(utxos@.take(i + 1).drop_last() =~= utxos@.take(i as int));
        if !utxos[i].reserved {
            coins.push(UtxoWrap { value: utxos[i].tx_out.value, index: i });
        }
        i = i + 1;
    }
    assert(utxos@.take(utxos@.len() as int) =~= utxos@);
    coins
}

/// What a choice comes to: the outputs chosen and those that are to be stored as set aside.
#[derive(Debug)]
pub struct UtxoSelection {
    /// The outputs chosen, as they stood.
    pub selected: Vec<Utxo>,
    /// The same outputs set aside, if they are to be.
    pub to_lock: Vec<Utxo>,
}

/// The contents of a list of outputs.
pub open spec fn utxo_views(utxos: Seq<Utxo>) -> Seq<UtxoView> {
    utxos.map_values(|utxo: Utxo| utxo@)
}

/// The outputs that were chosen.
pub open spec fn chosen_utxos(utxos: Seq<Utxo>, chosen: Seq<UtxoWrap>) -> Seq<UtxoView> {
    chosen.map_values(|coin: UtxoWrap| utxos[coin.index as int]@)
}

/// The same output, set aside.
pub open spec fn set_aside(utxo: UtxoView) -> UtxoView {
    UtxoView { reserved: true, ..utxo }
}

impl UtxoSelection {
    /// Whether the selection is what a choice comes to.
    pub open spec fn is_of(
        self,
        utxos: Seq<Utxo>,
        chosen: Seq<UtxoWrap>,
        lock_utxos: bool,
    ) -> bool {
        &&& utxo_views(self.selected@) == chosen_utxos(utxos, chosen)
        &&& utxo_views(self.to_lock@) == if lock_utxos {
            chosen_utxos(utxos, chosen).map_values(|utxo: UtxoView| set_aside(utxo))
        } else {
            Seq::empty()
        }
    }
}

/// What comes of a choice among the wallet's outputs. Without a choice there is not enough to pay
/// with.
pub fn take_selection(
    utxos: &Vec<Utxo>,
    chosen: Option<Vec<UtxoWrap>>,
    lock_utxos: bool,
) -> (selection: Result<UtxoSelection, WalletError>)
    requires
        chosen matches Some(coins) ==> forall|i: int|
            0 <= i < coins@.len() ==> (#[trigger] coins@[i]).index < utxos@.len(),
    ensures
        match chosen {
            Some(coins) => selection matches Ok(found) && found.is_of(
                utxos@,
                coins@,
                lock_utxos,
            ),
            None => selection matches Err(error) && error.is_invalid_state(
                "Not enough fund in utxos"@,
            ),
        },
{
    let coins = match chosen {
        Some(coins) => coins,
        None => return Err(WalletError::InvalidState("Not enough fund in utxos".to_owned())),
    };
    let mut selected: Vec<Utxo> = Vec::new();
    let mut to_lock: Vec<Utxo> = Vec::new();
    let mut i: usize = 0;
    let ghost expected = chosen_utxos(utxos@, coins@);
    while i < coins.len()
        invariant
            i <= coins@.len(),
            expected == chosen_utxos(utxos@, coins@),
            forall|j: int|
                0 <= j < coins@.len() ==> (#[trigger] coins@[j]).index < utxos@.len(),
            utxo_views(selected@) == expected.take(i as int),
            lock_utxos ==> utxo_views(to_lock@) == expected.take(i as int).map_values(
                |utxo: UtxoView| set_aside(utxo),
            ),
            !lock_utxos ==> to_lock@.len() == 0,
        decreases coins@.len() - i,
    {
        let utxo = &utxos[coins[i].index];
        let ghost selected_before = selected@;
        let ghost locked_before = to_lock@;
        selected.push(utxo.copy(utxo.reserved));
        proof {
            assert(utxo_views(selected@) =~= utxo_views(selected_before).push(utxo@));
            assert(expected.take(i + 1) =~= expected.take(i as int).push(utxo@));
        }
        if lock_utxos {
            to_lock.push(utxo.copy(true));
            proof {
                assert(utxo_views(to_lock@) =~= utxo_views(locked_before).push(set_aside(utxo@)));
                assert(expected.take(i + 1).map_values(|utxo: UtxoView| set_aside(utxo))
                    =~= expected.take(i as int).map_values(
                    |utxo: UtxoView| set_aside(utxo),
                ).push(set_aside(utxo@)));
            }
        }
        i = i + 1;
    }
    assert(expected.take(coins@.len() as int) =~= expected);
    assert(!lock_utxos ==> utxo_views(to_lock@) =~= Seq::empty());
    Ok(UtxoSelection { selected, to_lock })
}

proof fn lemma_free_coins(utxos: Seq<Utxo>)
    requires
        utxos.len() <= usize::MAX,
    ensures
        free_coins(utxos).len() <= utxos.len(),
        forall|i: int|
            0 <= i < free_coins(utxos).len() ==> {
                let coin = #[trigger] free_coins(utxos)[i];
                &&& coin.index < utxos.len()
                &&& !utxos[coin.index as int].reserved
                &&& coin.value == utxos[coin.index as int].tx_out.value
            },
        forall|i: int, j: int|
            0 <= i < j < free_coins(utxos).len() ==> (#[trigger] free_coins(utxos)[i]).index < (
            #[trigger] free_coins(utxos)[j]).index,
    decreases utxos.len(),
{
    if utxos.len() > 0 {
        let earlier = free_coins(utxos.drop_last());
        lemma_free_coins(utxos.drop_last());
        assert forall|i: int| 0 <= i < earlier.len() implies #[trigger] free_coins(utxos)[i]
            == earlier[i] by {}
    }
}

proof fn lemma_chosen_from_pool(pool: Seq<UtxoWrap>, chosen: Seq<UtxoWrap>)
    requires
        chosen.to_multiset().subset_of(pool.to_multiset()),
    ensures
        forall|i: int| 0 <= i < chosen.len() ==> pool.contains(#[trigger] chosen[i]),
{
    assert forall|i: int| 0 <= i < chosen.len() implies pool.contains(#[trigger] chosen[i]) by {
        let coin = chosen[i];
        vstd::seq_lib::to_multiset_contains(chosen, coin);
        vstd::seq_lib::to_multiset_contains(pool, coin);
        assert(chosen.contains(coin));
        assert(chosen.to_multiset().count(coin) <= pool.to_multiset().count(coin));
    }
}

/// Chooses among the wallet's stored outputs, as they were read, some that pay for the given amount
/// and are not set aside, and says which are to be set aside from now on.
///
/// The outputs are counted with 32 bits.
pub fn get_utxos_for_amount(
    stored: Result<Vec<Utxo>, String>,
    amount: u64,
    lock_utxos: bool,
) -> (selection: Result<UtxoSelection, WalletError>)
    requires
        stored matches Ok(utxos) ==> utxos@.len() <= u32::MAX,
    ensures
        match stored {
            Ok(utxos) => {
                &&& match selection {
                    Ok(found) => exists|chosen: Seq<UtxoWrap>|
                        {
                            &&& #[trigger] is_choice(
                                free_coins(utxos@),
                                chosen,
                                amount as int,
                                COST_OF_CHANGE as int,
                            )
                            &&& found.is_of(utxos@, chosen, lock_utxos)
                        },
                    Err(error) => error.is_invalid_state("Not enough fund in utxos"@),
                }
                &&& are_amounts(free_coins(utxos@), amount as int) ==> (selection is Ok
                    <==> is_covered(free_coins(utxos@), amount as int))
            },
            Err(cause) => selection matches Err(error) && error.is_storage_error(
                "Failed to get utxos. "@ + cause@,
            ),
        },
{
    let utxos = match stored {
        Ok(utxos) => utxos,
        Err(cause) => return Err(
            WalletError::StorageError(join("Failed to get utxos. ", cause.as_str())),
        ),
    };
    let pool = unreserved(&utxos);
    proof {
        assert(utxos@.len() == utxos.len());
        lemma_free_coins(utxos@);
    }
    let chosen = select_coins(amount, COST_OF_CHANGE, &pool);
    proof {
        if chosen is Some {
            lemma_chosen_from_pool(pool@, chosen->0@);
            assert(is_choice(
                free_coins(utxos@),
                chosen->0@,
                amount as int,
                COST_OF_CHANGE as int,
            ));
        }
    }
    take_selection(&utxos, chosen, lock_utxos)
}

/// A selection whose outputs are being stored as set aside, one after the other.
#[derive(Debug)]
pub struct UtxoLocking {
    pub selection: UtxoSelection,
    /// How many have been stored so far.
    pub locked: usize,
}

impl UtxoLocking {
    /// Starts with none stored.
    pub fn new(selection: UtxoSelection) -> (locking: UtxoLocking)
        ensures
            locking == (UtxoLocking { selection, locked: 0 }),
    {
        UtxoLocking { selection, locked: 0 }
    }

    /// The next output to be stored as set aside, if one is left.
    pub fn next_to_lock(&self) -> (utxo: Option<&Utxo>)
        ensures
            match utxo {
                Some(next) => self.locked < self.selection.to_lock@.len() && *next
                    == self.selection.to_lock@[self.locked as int],
                None => self.locked >= self.selection.to_lock@.len(),
            },
    {
        if self.locked < self.selection.to_lock.len() {
            Some(&self.selection.to_lock[self.locked])
        } else {
            None
        }
    }

    /// Takes what came of storing the next output. The first failure ends it; what has been stored
    /// by then stays stored.
    pub fn take_stored(self, stored: Result<(), String>) -> (locking: Result<
        UtxoLocking,
        WalletError,
    >)
        requires
            self.locked < self.selection.to_lock@.len(),
        ensures
            match stored {
                Ok(_) => locking matches Ok(next) && next == (UtxoLocking {
                    locked: (self.locked + 1) as usize,
                    ..self
                }),
                Err(cause) => locking matches Err(error) && error.is_storage_error(
                    "Failed to upsert utxo. "@ + cause@,
                ),
            },
    {
        match stored {
            Ok(_) => {
                assert(self.selection.to_lock@.len() == self.selection.to_lock.len());
                Ok(UtxoLocking { selection: self.selection, locked: self.locked + 1 })
            },
            Err(cause) => Err(
                WalletError::StorageError(join("Failed to upsert utxo. ", cause.as_str())),
            ),
        }
    }

    /// The outputs chosen, once all that were to be set aside have been stored.
    pub fn into_selected(self) -> (selected: Result<Vec<Utxo>, UtxoLocking>)
        ensures
            selected == if self.locked >= self.selection.to_lock@.len() {
                Ok(self.selection.selected)
            } else {
                Err::<Vec<Utxo>, UtxoLocking>(self)
            },
    {
        if self.locked >= self.selection.to_lock.len() {
            Ok(self.selection.selected)
        } else {
            Err(self)
        }
    }
}

/// The wallet's outputs once the chosen ones have been set aside.
pub open spec fn with_locked(utxos: Seq<UtxoView>, chosen: Seq<UtxoWrap>) -> Seq<UtxoView> {
    utxos.map(
        |i: int, utxo: UtxoView|
            if exists|j: int| 0 <= j < chosen.len() && (#[trigger] chosen[j]).index == i {
                set_aside(utxo)
            } else {
                utxo
            },
    )
}

/// Law: a choice takes no output twice and none that is set aside, and the value of each coin is
/// that of the output which it stands for.
pub proof fn law_choice_is_sound(utxos: Seq<Utxo>, chosen: Seq<UtxoWrap>, amount: int)
    requires
        utxos.len() <= usize::MAX,
        pays_for(free_coins(utxos), chosen, amount),
    ensures
        forall|i: int|
            0 <= i < chosen.len() ==> {
                let coin = #[trigger] chosen[i];
                &&& coin.index < utxos.len()
                &&& !utxos[coin.index as int].reserved
                &&& coin.value == utxos[coin.index as int].tx_out.value
            },
        forall|i: int, j: int|
            0 <= i < j < chosen.len() ==> (#[trigger] chosen[i]).index != (#[trigger] chosen[j]).index,
{
    let pool = free_coins(utxos);
    lemma_free_coins(utxos);
    lemma_chosen_from_pool(pool, chosen);
    assert forall|i: int, j: int| 0 <= i < j < chosen.len() implies (#[trigger] chosen[i]).index != (
    #[trigger] chosen[j]).index by {
        if chosen[i].index == chosen[j].index {
            let coin = chosen[i];
            let p = choose|p: int| 0 <= p < pool.len() && pool[p] == chosen[i];
            let q = choose|q: int| 0 <= q < pool.len() && pool[q] == chosen[j];
            assert(p == q);
            assert(chosen[j] == coin);
            lemma_count_two(chosen, i, j);
            assert(pool.no_duplicates()) by {
                assert forall|a: int, b: int|
                    0 <= a < pool.len() && 0 <= b < pool.len() && a != b implies pool[a] != pool[b] by {
                    if a < b {
                        assert(pool[a].index < pool[b].index);
                    } else {
                        assert(pool[b].index < pool[a].index);
                    }
                }
            }
            pool.lemma_multiset_has_no_duplicates();
            assert(pool.to_multiset().count(coin) <= 1) by {
                vstd::seq_lib::to_multiset_contains(pool, coin);
            }
            assert(chosen.to_multiset().count(coin) <= pool.to_multiset().count(coin));
        }
    }
}

/// What outputs are worth together, in satoshis.
pub open spec fn worth(utxos: Seq<UtxoView>) -> int
    decreases utxos.len(),
{
    if utxos.len() == 0 {
        0
    } else {
        worth(utxos.drop_last()) + utxos.last().tx_out.value
    }
}

proof fn lemma_worth_of_chosen(utxos: Seq<Utxo>, chosen: Seq<UtxoWrap>)
    requires
        forall|i: int|
            0 <= i < chosen.len() ==> {
                let coin = #[trigger] chosen[i];
                coin.value == utxos[coin.index as int].tx_out.value
            },
    ensures
        worth(chosen_utxos(utxos, chosen)) == total_value(chosen),
    decreases chosen.len(),
{
    if chosen.len() > 0 {
        let earlier = chosen.drop_last();
        assert forall|i: int| 0 <= i < earlier.len() implies {
            let coin = #[trigger] earlier[i];
            coin.value == utxos[coin.index as int].tx_out.value
        } by {
            assert(earlier[i] == chosen[i]);
        }
        lemma_worth_of_chosen(utxos, earlier);
        assert(chosen_utxos(utxos, chosen).drop_last() =~= chosen_utxos(utxos, earlier));
    }
}

/// Law: the outputs that a selection hands out are worth at least what was asked for, there is at
/// least one, and none of them was set aside before. If they are to be locked, exactly these are set
/// aside, unchanged in everything else; otherwise none is.
pub proof fn law_selection_pays(
    utxos: Seq<Utxo>,
    chosen: Seq<UtxoWrap>,
    selection: UtxoSelection,
    amount: int,
    lock_utxos: bool,
)
    requires
        utxos.len() <= usize::MAX,
        pays_for(free_coins(utxos), chosen, amount),
        selection.is_of(utxos, chosen, lock_utxos),
    ensures
        selection.selected@.len() > 0,
        worth(utxo_views(selection.selected@)) >= amount,
        forall|i: int|
            0 <= i < selection.selected@.len() ==> !(#[trigger] selection.selected@[i]).reserved
                && utxo_views(utxos).contains(selection.selected@[i]@),
        selection.to_lock@.len() == if lock_utxos {
            selection.selected@.len()
        } else {
            0
        },
        forall|i: int|
            0 <= i < selection.to_lock@.len() ==> (#[trigger] selection.to_lock@[i])@ == set_aside(
                selection.selected@[i]@,
            ),
{
    law_choice_is_sound(utxos, chosen, amount);
    lemma_worth_of_chosen(utxos, chosen);
    let views = utxo_views(selection.selected@);
    assert(views.len() == selection.selected@.len());
    assert(chosen_utxos(utxos, chosen).len() == chosen.len());
    assert(utxo_views(selection.to_lock@).len() == selection.to_lock@.len());
    assert forall|i: int| 0 <= i < selection.selected@.len() implies !(
    #[trigger] selection.selected@[i]).reserved && utxo_views(utxos).contains(
        selection.selected@[i]@,
    ) by {
        assert(views[i] == selection.selected@[i]@);
        let index = chosen[i].index as int;
        assert(utxo_views(utxos)[index] == utxos[index]@);
    }
    assert forall|i: int| 0 <= i < selection.to_lock@.len() implies (
    #[trigger] selection.to_lock@[i])@ == set_aside(selection.selected@[i]@) by {
        assert(utxo_views(selection.to_lock@)[i] == selection.to_lock@[i]@);
        assert(views[i] == selection.selected@[i]@);
    }
}

/// Law: the outputs among which a choice is made are all that are not set aside and no others, each
/// with its own value and place, in the order in which they are stored.
pub proof fn law_choice_is_among_all_free_outputs(utxos: Seq<Utxo>)
    requires
        utxos.len() <= usize::MAX,
    ensures
        forall|k: int|
            0 <= k < utxos.len() && !(#[trigger] utxos[k]).reserved ==> exists|i: int|
                {
                    &&& 0 <= i < free_coins(utxos).len()
                    &&& (#[trigger] free_coins(utxos)[i]).index == k
                    &&& free_coins(utxos)[i].value == utxos[k].tx_out.value
                },
        forall|i: int|
            0 <= i < free_coins(utxos).len() ==> {
                let coin = #[trigger] free_coins(utxos)[i];
                &&& coin.index < utxos.len()
                &&& !utxos[coin.index as int].reserved
                &&& coin.value == utxos[coin.index as int].tx_out.value
            },
        forall|i: int, j: int|
            0 <= i < j < free_coins(utxos).len() ==> (#[trigger] free_coins(utxos)[i]).index < (
            #[trigger] free_coins(utxos)[j]).index,
{
    lemma_free_coins(utxos);
    assert forall|k: int| 0 <= k < utxos.len() && !(#[trigger] utxos[k]).reserved implies exists|
        i: int,
    |
        {
            &&& 0 <= i < free_coins(utxos).len()
            &&& (#[trigger] free_coins(utxos)[i]).index == k
            &&& free_coins(utxos)[i].value == utxos[k].tx_out.value
        } by {
        lemma_free_coin_is_listed(utxos, k);
        let coin = UtxoWrap { value: utxos[k].tx_out.value, index: k as usize };
        let i = choose|i: int| 0 <= i < free_coins(utxos).len() && free_coins(utxos)[i] == coin;
        assert(free_coins(utxos)[i].index == k);
    }
}

/// Law: a selection hands out, one for one, the outputs that were chosen, unchanged in everything.
pub proof fn law_selection_hands_out_what_was_chosen(
    utxos: Seq<Utxo>,
    chosen: Seq<UtxoWrap>,
    selection: UtxoSelection,
    lock_utxos: bool,
)
    requires
        selection.is_of(utxos, chosen, lock_utxos),
    ensures
        selection.selected@.len() == chosen.len(),
        forall|i: int|
            0 <= i < chosen.len() ==> {
                let given = #[trigger] selection.selected@[i];
                let stored = utxos[chosen[i].index as int];
                &&& given.txid@ == stored.txid@
                &&& given.vout == stored.vout
                &&& given.tx_out.value == stored.tx_out.value
                &&& given.tx_out.script_pubkey@ == stored.tx_out.script_pubkey@
                &&& given.address@ == stored.address@
                &&& given.redeem_script@ == stored.redeem_script@
                &&& given.reserved == stored.reserved
            },
{
    let views = utxo_views(selection.selected@);
    assert(views.len() == selection.selected@.len());
    assert(chosen_utxos(utxos, chosen).len() == chosen.len());
    assert forall|i: int| 0 <= i < chosen.len() implies {
        let given = #[trigger] selection.selected@[i];
        let stored = utxos[chosen[i].index as int];
        &&& given.txid@ == stored.txid@
        &&& given.vout == stored.vout
        &&& given.tx_out.value == stored.tx_out.value
        &&& given.tx_out.script_pubkey@ == stored.tx_out.script_pubkey@
        &&& given.address@ == stored.address@
        &&& given.redeem_script@ == stored.redeem_script@
        &&& given.reserved == stored.reserved
    } by {
        assert(views[i] == selection.selected@[i]@);
        assert(views[i] == utxos[chosen[i].index as int]@);
    }
}

/// Law: if outputs are to be locked, those to be stored as set aside are, one for one, the selected
/// ones: the same output of the same transaction with the same value, scripts and address, and set
/// aside. If not, there are none.
pub proof fn law_locked_outputs_are_the_selected_ones(
    utxos: Seq<Utxo>,
    chosen: Seq<UtxoWrap>,
    selection: UtxoSelection,
    lock_utxos: bool,
)
    requires
        selection.is_of(utxos, chosen, lock_utxos),
    ensures
        !lock_utxos ==> selection.to_lock@.len() == 0,
        lock_utxos ==> selection.to_lock@.len() == selection.selected@.len(),
        forall|i: int|
            0 <= i < selection.to_lock@.len() ==> {
                let locked = #[trigger] selection.to_lock@[i];
                let selected = selection.selected@[i];
                &&& locked.reserved
                &&& locked.txid@ == selected.txid@
                &&& locked.vout == selected.vout
                &&& locked.tx_out.value == selected.tx_out.value
                &&& locked.tx_out.script_pubkey@ == selected.tx_out.script_pubkey@
                &&& locked.address@ == selected.address@
                &&& locked.redeem_script@ == selected.redeem_script@
            },
{
    let views = utxo_views(selection.selected@);
    let locked_views = utxo_views(selection.to_lock@);
    assert(views.len() == selection.selected@.len());
    assert(locked_views.len() == selection.to_lock@.len());
    assert forall|i: int| 0 <= i < selection.to_lock@.len() implies {
        let locked = #[trigger] selection.to_lock@[i];
        let selected = selection.selected@[i];
        &&& locked.reserved
        &&& locked.txid@ == selected.txid@
        &&& locked.vout == selected.vout
        &&& locked.tx_out.value == selected.tx_out.value
        &&& locked.tx_out.script_pubkey@ == selected.tx_out.script_pubkey@
        &&& locked.address@ == selected.address@
        &&& locked.redeem_script@ == selected.redeem_script@
    } by {
        assert(locked_views[i] == selection.to_lock@[i]@);
        assert(views[i] == selection.selected@[i]@);
        assert(locked_views[i] == set_aside(views[i]));
    }
}

/// What the outputs that are not set aside are worth together, in satoshis.
pub open spec fn free_value(utxos: Seq<Utxo>) -> int
    decreases utxos.len(),
{
    if utxos.len() == 0 {
        0
    } else {
        free_value(utxos.drop_last()) + if utxos.last().reserved {
            0
        } else {
            utxos.last().tx_out.value as int
        }
    }
}

proof fn lemma_free_value(utxos: Seq<Utxo>)
    ensures
        total_value(free_coins(utxos)) == free_value(utxos),
    decreases utxos.len(),
{
    if utxos.len() > 0 {
        let earlier = free_coins(utxos.drop_last());
        lemma_free_value(utxos.drop_last());
        if !utxos.last().reserved {
            assert(free_coins(utxos).drop_last() =~= earlier);
        }
    }
}

/// Law: among amounts that bitcoin can have, outputs are found exactly if one is not set aside at all
/// and those that are not are together worth at least what is asked for.
pub proof fn law_enough_free_outputs_are_found(utxos: Seq<Utxo>, amount: u64)
    requires
        utxos.len() <= usize::MAX,
        amount <= 2_100_000_000_000_000,
        forall|k: int| 0 <= k < utxos.len() ==> (#[trigger] utxos[k]).tx_out.value <= i64::MAX,
    ensures
        are_amounts(free_coins(utxos), amount as int),
        is_covered(free_coins(utxos), amount as int) <==> {
            &&& exists|k: int| 0 <= k < utxos.len() && !(#[trigger] utxos[k]).reserved
            &&& free_value(utxos) >= amount
        },
{
    lemma_free_coins(utxos);
    lemma_free_value(utxos);
    let pool = free_coins(utxos);
    if pool.len() > 0 {
        assert(!utxos[pool[0].index as int].reserved);
    }
    if exists|k: int| 0 <= k < utxos.len() && !(#[trigger] utxos[k]).reserved {
        let k = choose|k: int| 0 <= k < utxos.len() && !(#[trigger] utxos[k]).reserved;
        lemma_free_coin_is_listed(utxos, k);
    }
}

/// What the outputs at the given places are worth together, in satoshis.
pub open spec fn value_at(utxos: Seq<Utxo>, places: Seq<int>) -> int
    decreases places.len(),
{
    if places.len() == 0 {
        0
    } else {
        value_at(utxos, places.drop_last()) + utxos[places.last()].tx_out.value
    }
}

/// The outputs at the given places as they take part in a choice.
spec fn coins_at(utxos: Seq<Utxo>, places: Seq<int>) -> Seq<UtxoWrap> {
    places.map_values(|k: int| UtxoWrap { value: utxos[k].tx_out.value, index: k as usize })
}

proof fn lemma_coins_at(utxos: Seq<Utxo>, places: Seq<int>)
    ensures
        total_value(coins_at(utxos, places)) == value_at(utxos, places),
    decreases places.len(),
{
    if places.len() > 0 {
        lemma_coins_at(utxos, places.drop_last());
        assert(coins_at(utxos, places).drop_last() =~= coins_at(utxos, places.drop_last()));
    }
}

/// Law: if some of at most fifteen outputs, none of them set aside and none taken twice, pay for the
/// amount with at most twenty satoshis to spare, then so do the chosen ones.
pub proof fn law_change_is_avoided(
    utxos: Seq<Utxo>,
    chosen: Seq<UtxoWrap>,
    amount: u64,
    places: Seq<int>,
)
    requires
        utxos.len() <= 15,
        0 < amount <= 2_100_000_000_000_000,
        forall|k: int| 0 <= k < utxos.len() ==> (#[trigger] utxos[k]).tx_out.value <= i64::MAX,
        free_value(utxos) <= u64::MAX,
        is_choice(free_coins(utxos), chosen, amount as int, COST_OF_CHANGE as int),
        places.no_duplicates(),
        forall|i: int|
            0 <= i < places.len() ==> 0 <= #[trigger] places[i] < utxos.len()
                && !utxos[places[i]].reserved,
        amount <= value_at(utxos, places) <= amount + 20,
    ensures
        amount <= worth(chosen_utxos(utxos, chosen)) <= amount + 20,
{
    let pool = free_coins(utxos);
    let coins = coins_at(utxos, places);
    lemma_free_coins(utxos);
    lemma_free_value(utxos);
    lemma_coins_at(utxos, places);
    law_choice_is_sound(utxos, chosen, amount as int);
    lemma_worth_of_chosen(utxos, chosen);
    assert(coins.no_duplicates()) by {
        assert forall|i: int, j: int|
            0 <= i < coins.len() && 0 <= j < coins.len() && i != j implies coins[i] != coins[j] by {
            assert(places[i] != places[j]);
            assert(coins[i].index == places[i] && coins[j].index == places[j]);
        }
    }
    coins.lemma_multiset_has_no_duplicates();
    assert forall|coin: UtxoWrap| coins.to_multiset().count(coin) <= pool.to_multiset().count(coin) by {
        vstd::seq_lib::to_multiset_contains(coins, coin);
        vstd::seq_lib::to_multiset_contains(pool, coin);
        if coins.contains(coin) {
            let i = choose|i: int| 0 <= i < coins.len() && coins[i] == coin;
            assert(0 <= places[i] < utxos.len());
            lemma_free_coin_is_listed(utxos, places[i]);
            assert(coins.to_multiset().contains(coin));
        }
    }
    assert(coins.to_multiset().subset_of(pool.to_multiset()));
    assert(places.len() > 0);
    assert(pays_for(pool, coins, amount as int));
}

/// An item that stands in two places counts twice.
proof fn lemma_count_two(coins: Seq<UtxoWrap>, i: int, j: int)
    requires
        0 <= i < j < coins.len(),
        coins[i] == coins[j],
    ensures
        coins.to_multiset().count(coins[i]) >= 2,
{
    let rest = coins.remove(i);
    vstd::seq_lib::to_multiset_remove(coins, i);
    assert(rest[j - 1] == coins[j]);
    assert(rest.contains(coins[j]));
    vstd::seq_lib::to_multiset_contains(rest, coins[j]);
    vstd::seq_lib::to_multiset_contains(coins, coins[i]);
    assert(coins.contains(coins[i]));
}

/// Law: once the chosen outputs have been set aside, none of them can be chosen again, and the other
/// outputs can be as before.
pub proof fn law_locked_utxos_are_not_chosen_again(
    utxos: Seq<Utxo>,
    chosen: Seq<UtxoWrap>,
    locked: Seq<Utxo>,
)
    requires
        utxos.len() <= usize::MAX,
        utxo_views(locked) == with_locked(utxo_views(utxos), chosen),
    ensures
        forall|i: int|
            0 <= i < free_coins(locked).len() ==> free_coins(utxos).contains(
                #[trigger] free_coins(locked)[i],
            ) && forall|j: int|
                0 <= j < chosen.len() ==> (#[trigger] chosen[j]).index != free_coins(locked)[i].index,
        forall|i: int|
            0 <= i < free_coins(utxos).len() && (forall|j: int|
                0 <= j < chosen.len() ==> (#[trigger] chosen[j]).index != free_coins(utxos)[i].index)
                ==> free_coins(locked).contains(#[trigger] free_coins(utxos)[i]),
{
    assert(locked.len() == utxos.len()) by {
        assert(utxo_views(locked).len() == locked.len());
        assert(with_locked(utxo_views(utxos), chosen).len() == utxos.len());
    }
    assert forall|k: int| 0 <= k < utxos.len() implies (#[trigger] locked[k]).tx_out.value
        == utxos[k].tx_out.value && locked[k].reserved == (utxos[k].reserved || exists|j: int|
        0 <= j < chosen.len() && (#[trigger] chosen[j]).index == k) by {
        assert(utxo_views(locked)[k] == locked[k]@);
        assert(utxo_views(utxos)[k] == utxos[k]@);
        assert(with_locked(utxo_views(utxos), chosen)[k] == locked[k]@);
    }
    lemma_free_coins(locked);
    lemma_free_coins(utxos);
    assert forall|i: int| 0 <= i < free_coins(locked).len() implies free_coins(utxos).contains(
        #[trigger] free_coins(locked)[i],
    ) && forall|j: int|
        0 <= j < chosen.len() ==> (#[trigger] chosen[j]).index != free_coins(locked)[i].index by {
        let coin = free_coins(locked)[i];
        assert(!locked[coin.index as int].reserved);
        lemma_free_coin_is_listed(utxos, coin.index as int);
    }
    assert forall|i: int|
        0 <= i < free_coins(utxos).len() && (forall|j: int|
            0 <= j < chosen.len() ==> (#[trigger] chosen[j]).index
                != free_coins(utxos)[i].index) implies free_coins(locked).contains(
        #[trigger] free_coins(utxos)[i],
    ) by {
        let coin = free_coins(utxos)[i];
        assert(!locked[coin.index as int].reserved);
        lemma_free_coin_is_listed(locked, coin.index as int);
    }
}

proof fn lemma_free_coin_is_listed(utxos: Seq<Utxo>, k: int)
    requires
        utxos.len() <= usize::MAX,
        0 <= k < utxos.len(),
        !utxos[k].reserved,
    ensures
        free_coins(utxos).contains(UtxoWrap { value: utxos[k].tx_out.value, index: k as usize }),
    decreases utxos.len(),
{
    let coin = UtxoWrap { value: utxos[k].tx_out.value, index: k as usize };
    if k == utxos.len() - 1 {
        assert(free_coins(utxos).last() == coin);
    } else {
        let earlier = free_coins(utxos.drop_last());
        lemma_free_coin_is_listed(utxos.drop_last(), k);
        let i = choose|i: int| 0 <= i < earlier.len() && earlier[i] == coin;
        assert(free_coins(utxos)[i] == coin);
    }
}

} // verus!
