//! What each party gets when a channel is reverted.
use crate::fees::COLLABORATIVE_REVERT_TX_WEIGHT;
use vstd::arithmetic::power2::lemma2_to64;
use vstd::arithmetic::power2::lemma_pow2_pos;
use vstd::arithmetic::power2::lemma_pow2_strictly_increases;
use vstd::arithmetic::power2::lemma_pow2_unfold;
use vstd::arithmetic::power2::pow2;
use vstd::prelude::*;

verus! {

/// The dlc crate's error.
#[verifier::external_type_specification]
#[verifier::external_body]
pub struct ExDlcError(dlc::Error);

/// The fee in satoshis of a transaction of the given weight: the fee rate for every virtual byte,
/// that is for every four weight units, begun or whole.
pub open spec fn fee_for_weight(weight: int, fee_rate: int) -> int {
    ((weight + 3) / 4) * fee_rate
}

/// Calls `dlc::util::weight_to_fee`.
///
/// It divides the weight by four in double precision, rounds up, and multiplies by the fee rate in
/// checked arithmetic, so it fails only where the product does not fit. The quotient is exact for
/// any weight below two to the power of 53; nothing is claimed of larger ones.
#[verifier::external_body]
fn weight_to_fee(weight: usize, fee_rate: u64) -> (fee: Result<u64, dlc::Error>)
    ensures
        weight < 0x20_0000_0000_0000 ==> match fee {
            Ok(sats) => sats == fee_for_weight(weight as int, fee_rate as int),
            Err(_) => fee_for_weight(weight as int, fee_rate as int) > u64::MAX,
        },
{
    Ok(dlc::util::weight_to_fee(weight, fee_rate)?.to_sat())
}

/// The value of a `u64` read as an `i64` of the same bits.
pub open spec fn as_signed(value: u64) -> int {
    if value <= i64::MAX {
        value as int
    } else {
        value - 0x1_0000_0000_0000_0000
    }
}

/// The value of an `i64` read as a `u64` of the same bits.
pub open spec fn as_unsigned(value: int) -> int {
    if value >= 0 {
        value
    } else {
        value + 0x1_0000_0000_0000_0000
    }
}

/// Reads a `u64` as an `i64` of the same bits.
fn to_signed(value: u64) -> (signed: i64)
    ensures
        signed == as_signed(value),
{
    assert(value > 0x7fff_ffff_ffff_ffff ==> (value as i64) == value - 0x1_0000_0000_0000_0000)
        by (bit_vector);
    value as i64
}

/// Reads an `i64` as a `u64` of the same bits.
pub fn to_unsigned(value: i64) -> (unsigned: u64)
    ensures
        unsigned == as_unsigned(value as int),
        unsigned == value as int % 0x1_0000_0000_0000_0000,
{
    assert(value < 0 ==> (value as u64) == value + 0x1_0000_0000_0000_0000) by (bit_vector);
    value as u64
}

/// The distance between neighbouring double-precision numbers around `n`, at least one: a double
/// has 53 significant bits.
pub open spec fn double_spacing(n: nat) -> nat
    decreases n,
{
    if n < 0x20_0000_0000_0000 {
        1
    } else {
        2 * double_spacing(n / 2)
    }
}

/// The double-precision number nearest to `n`; of two that are equally near, the one that is an
/// even multiple of the spacing.
pub open spec fn nearest_double(n: nat) -> nat {
    let spacing = double_spacing(n);
    let below = n / spacing;
    let rest = n % spacing;
    if 2 * rest < spacing || (2 * rest == spacing && below % 2 == 0) {
        below * spacing
    } else {
        (below + 1) * spacing
    }
}

/// Half of a fee, computed in double precision and cut to whole satoshis, at most `i64::MAX`.
pub open spec fn half_of_fee(fee: u64) -> int {
    let half = nearest_double(fee as nat) / 2;
    if half > i64::MAX {
        i64::MAX as int
    } else {
        half as int
    }
}

/// Computes `double_spacing`.
fn spacing_of(n: u64) -> (spacing: u64)
    ensures
        spacing == double_spacing(n as nat),
        n < 0x20_0000_0000_0000 ==> spacing == 1,
        n >= 0x20_0000_0000_0000 ==> spacing % 2 == 0,
        1 <= spacing <= 0x800,
        n < 0x20_0000_0000_0000 * spacing,
    decreases n,
{
    if n < 0x20_0000_0000_0000 {
        1
    } else {
        let half: u64 = spacing_of(n / 2);
        assert(half <= 0x400) by {
            lemma_spacing_bound((n / 2) as nat);
        }
        2 * half
    }
}

proof fn lemma_spacing_bound(n: nat)
    requires
        n < 0x8000_0000_0000_0000,
    ensures
        double_spacing(n) <= 0x400,
{
    reveal_with_fuel(double_spacing, 12);
}

proof fn lemma_small_is_exact(n: nat)
    requires
        double_spacing(n) == 1,
    ensures
        nearest_double(n) == n,
{
    let spacing = double_spacing(n);
    assert((n / spacing) * spacing == n) by (nonlinear_arith)
        requires
            spacing == 1,
    ;
}

/// Computes `half_of_fee`.
pub fn half_fee(fee: u64) -> (half: i64)
    ensures
        half == half_of_fee(fee),
{
    let spacing: u64 = spacing_of(fee);
    let below: u64 = fee / spacing;
    let rest: u64 = fee % spacing;
    assert(below <= 0x1f_ffff_ffff_ffff) by (nonlinear_arith)
        requires
            below == fee / spacing,
            1 <= spacing,
            fee < 0x20_0000_0000_0000 * spacing,
    ;
    if spacing == 1 {
        proof {
            lemma_small_is_exact(fee as nat);
        }
        return (fee / 2) as i64;
    }
    let multiple: u64 = if 2 * rest < spacing || (2 * rest == spacing && below % 2 == 0) {
        below
    } else {
        below + 1
    };
    assert(multiple * (spacing / 2) <= 0x8000_0000_0000_0000 && (multiple * spacing) / 2 == multiple
        * (spacing / 2)) by (nonlinear_arith)
        requires
            multiple <= 0x20_0000_0000_0000,
            1 <= spacing <= 0x800,
            spacing % 2 == 0,
    ;
    let half: u64 = multiple * (spacing / 2);
    if half > i64::MAX as u64 {
        i64::MAX
    } else {
        half as i64
    }
}

/// Law: the two halves of a fee differ from the fee by no more than the spacing of double-precision
/// numbers around it. For a fee below two to the power of 53, which covers all the money there is,
/// a half is the whole number of satoshis at or below it: the halves never exceed the fee and fall
/// short of it by at most one.
pub proof fn law_fee_is_shared_fairly(fee: u64)
    ensures
        fee - double_spacing(fee as nat) <= 2 * half_of_fee(fee) <= fee + double_spacing(
            fee as nat,
        ),
        fee < 0x20_0000_0000_0000 ==> half_of_fee(fee) == fee / 2 && fee - 1 <= 2 * half_of_fee(fee)
            <= fee,
{
    let n = fee as nat;
    let spacing = double_spacing(n);
    lemma_spacing_is_positive(n);
    vstd::arithmetic::div_mod::lemma_fundamental_div_mod(n as int, spacing as int);
    let below = n / spacing;
    assert(below * spacing == spacing * below && (below + 1) * spacing == below * spacing + spacing)
        by (nonlinear_arith);
    if fee < 0x20_0000_0000_0000 {
        lemma_small_is_exact(n);
    } else {
        assert(spacing >= 2) by {
            lemma_spacing_is_positive(n / 2);
        }
    }
}

proof fn lemma_spacing_is_power_of_two(n: nat, k: nat)
    requires
        k >= 1,
        0x10_0000_0000_0000 * pow2(k) <= n < 0x20_0000_0000_0000 * pow2(k),
    ensures
        double_spacing(n) == pow2(k),
    decreases k,
{
    lemma_pow2_pos(k);
    lemma_pow2_unfold(k);
    if k == 1 {
        lemma2_to64();
        assert(double_spacing(n / 2) == 1);
    } else {
        lemma_pow2_pos((k - 1) as nat);
        lemma_spacing_is_power_of_two(n / 2, (k - 1) as nat);
    }
}

/// Law: a fee with more than 53 significant bits is halved after it was rounded to 53. Twice the half
/// is a multiple of the weight of the last of these bits, no multiple is nearer to the fee, and
/// of two that are equally near it is the even one. The largest fees, whose half is no `i64`, are
/// halved to `i64::MAX`.
pub proof fn law_large_fees_are_halved_in_double_precision(fee: u64, k: nat)
    requires
        k >= 1,
        0x10_0000_0000_0000 * pow2(k) <= fee < 0x20_0000_0000_0000 * pow2(k),
    ensures
        fee >= 0xffff_ffff_ffff_fc00 ==> half_of_fee(fee) == i64::MAX,
        fee < 0xffff_ffff_ffff_fc00 ==> {
            let spacing = pow2(k) as int;
            let rounded = 2 * half_of_fee(fee);
            &&& rounded % spacing == 0
            &&& -spacing <= 2 * (rounded - fee) <= spacing
            &&& 2 * (rounded - fee) == spacing || 2 * (fee - rounded) == spacing ==> (rounded
                / spacing) % 2 == 0
        },
{
    let n = fee as nat;
    let spacing = pow2(k);
    lemma_pow2_pos(k);
    lemma_pow2_unfold(k);
    lemma_spacing_is_power_of_two(n, k);
    lemma2_to64();
    assert(k <= 11) by {
        if k > 12 {
            lemma_pow2_strictly_increases(12, k);
        }
    }
    assert(k < 11 ==> spacing <= 1024) by {
        if k < 10 {
            lemma_pow2_strictly_increases(k, 10);
        }
    }
    let below = n / spacing;
    let rest = n % spacing;
    vstd::arithmetic::div_mod::lemma_fundamental_div_mod(n as int, spacing as int);
    assert(below * spacing == spacing * below && (below + 1) * spacing == below * spacing + spacing)
        by (nonlinear_arith);
    let multiple: nat = if 2 * rest < spacing || (2 * rest == spacing && below % 2 == 0) {
        below
    } else {
        below + 1
    };
    assert(nearest_double(n) == multiple * spacing);
    if fee >= 0xffff_ffff_ffff_fc00 {
        assert(spacing == 2048);
        assert(below == 0x1f_ffff_ffff_ffff && rest >= 1024);
    }
    let half_spacing = pow2((k - 1) as nat);
    assert(multiple * spacing == 2 * (multiple * half_spacing)) by (nonlinear_arith)
        requires
            spacing == 2 * half_spacing,
    ;
    assert((multiple * spacing) % spacing == 0 && (multiple * spacing) / spacing == multiple)
        by (nonlinear_arith)
        requires
            spacing > 0,
    ;
}

proof fn lemma_spacing_is_positive(n: nat)
    ensures
        double_spacing(n) >= 1,
    decreases n,
{
    if n >= 0x20_0000_0000_0000 {
        lemma_spacing_is_positive(n / 2);
    }
}

/// What a proposal to revert a channel is worked out from, in satoshis.
#[derive(Clone, Copy, Debug)]
pub struct Terms {
    /// Whether the trade has already been settled in the lightning channel.
    pub trade_settled: bool,
    /// The whole value of the channel.
    pub fund_value: u64,
    /// What the trader has in the lightning channel.
    pub inbound_capacity: u64,
    /// What the trader is owed for the position.
    pub settlement_amount: u64,
    /// What the transactions of the channel have taken.
    pub dlc_channel_fee: u64,
    /// What the channel sets aside for each party.
    pub reserve: u64,
    /// The fee rate of the transaction that reverts the channel.
    pub fee_rate_sats_vb: u64,
}

/// What each party gets, in satoshis.
#[derive(Clone, Copy, Debug, PartialEq, Eq, Structural)]
pub struct RevertAmounts {
    pub coordinator: u64,
    pub trader: u64,
}

/// Whether a value is one of an `i64`.
pub open spec fn is_i64(value: int) -> bool {
    i64::MIN <= value <= i64::MAX
}

impl Terms {
    /// The fee of the transaction that reverts the channel.
    pub open spec fn revert_fee(self) -> int {
        fee_for_weight(COLLABORATIVE_REVERT_TX_WEIGHT as int, self.fee_rate_sats_vb as int)
    }

    /// The coordinator's balance before the fee of the reverting transaction: the channel's value
    /// without whatever the trader has in the channel and without the reserve. An open trade also
    /// costs the coordinator what the trader is owed and half of the channel's fees.
    pub open spec fn coordinator_balance(self) -> int {
        let settled = as_signed(self.fund_value) - self.inbound_capacity - as_signed(self.reserve);
        if self.trade_settled {
            settled
        } else {
            settled - as_signed(self.settlement_amount) - half_of_fee(self.dlc_channel_fee)
        }
    }

    /// Whether the coordinator's balance is reached without leaving the range of an `i64`, taking
    /// off one item after the other.
    pub open spec fn balance_in_range(self) -> bool {
        let without_inbound = as_signed(self.fund_value) - as_signed(self.inbound_capacity);
        let without_settlement = without_inbound - as_signed(self.settlement_amount);
        let without_fee = without_settlement - half_of_fee(self.dlc_channel_fee);
        &&& self.inbound_capacity <= i64::MAX
        &&& is_i64(without_inbound)
        &&& !self.trade_settled ==> is_i64(without_settlement) && is_i64(without_fee)
        &&& is_i64(self.coordinator_balance())
    }

    /// Whether both parties can be paid: no amount leaves its range, and each party's balance
    /// covers its half of the reverting transaction's fee.
    pub open spec fn payable(self) -> bool {
        let coordinator = as_unsigned(self.coordinator_balance());
        &&& self.balance_in_range()
        &&& self.revert_fee() <= u64::MAX
        &&& self.revert_fee() / 2 <= coordinator
        &&& coordinator + self.revert_fee() / 2 <= self.fund_value
    }

    /// What each party gets: the coordinator its balance, the trader the rest, each without half
    /// of the reverting transaction's fee.
    pub open spec fn amounts(self) -> (int, int) {
        let coordinator = as_unsigned(self.coordinator_balance());
        (
            coordinator - self.revert_fee() / 2,
            self.fund_value - coordinator - self.revert_fee() / 2,
        )
    }

    /// The coordinator's balance, if it is reached without leaving the range of an `i64`.
    fn balance(&self) -> (balance: Option<i64>)
        ensures
            self.balance_in_range() <==> balance is Some,
            balance matches Some(value) ==> value == self.coordinator_balance(),
    {
        if self.inbound_capacity > i64::MAX as u64 {
            return None;
        }
        let fund_value: i64 = to_signed(self.fund_value);
        let reserve: i64 = to_signed(self.reserve);
        let without_inbound: i64 = match fund_value.checked_sub(self.inbound_capacity as i64) {
            Some(value) => value,
            None => return None,
        };
        if self.trade_settled {
            return without_inbound.checked_sub(reserve);
        }
        let without_settlement: i64 = match without_inbound.checked_sub(
            to_signed(self.settlement_amount),
        ) {
            Some(value) => value,
            None => return None,
        };
        let without_fee: i64 = match without_settlement.checked_sub(half_fee(self.dlc_channel_fee)) {
            Some(value) => value,
            None => return None,
        };
        without_fee.checked_sub(reserve)
    }

    /// What each party gets, if both can be paid.
    pub fn checked_amounts(&self) -> (amounts: Option<RevertAmounts>)
        ensures
            self.payable() <==> amounts is Some,
            amounts matches Some(found) ==> (found.coordinator as int, found.trader as int)
                == self.amounts(),
    {
        let balance: i64 = match self.balance() {
            Some(value) => value,
            None => return None,
        };
        let fee: u64 = match weight_to_fee(COLLABORATIVE_REVERT_TX_WEIGHT, self.fee_rate_sats_vb) {
            Ok(sats) => sats,
            Err(_) => return None,
        };
        let coordinator: u64 = to_unsigned(balance);
        if self.fund_value < coordinator {
            return None;
        }
        let trader: u64 = self.fund_value - coordinator;
        if coordinator < fee / 2 || trader < fee / 2 {
            return None;
        }
        Some(RevertAmounts { coordinator: coordinator - fee / 2, trader: trader - fee / 2 })
    }
}

/// Law: what the parties get and the two halves of the reverting transaction's fee make up the
/// channel's value exactly: nothing is lost and nothing is created.
pub proof fn law_revert_pays_out_the_channel(terms: Terms)
    requires
        terms.payable(),
    ensures
        terms.amounts().0 + terms.amounts().1 + 2 * (terms.revert_fee() / 2) == terms.fund_value,
        0 <= terms.amounts().0 <= terms.fund_value,
        0 <= terms.amounts().1 <= terms.fund_value,
{
}

/// Law: the transaction that reverts a channel weighs 168 virtual bytes, and each party pays half of
/// what these cost at the fee rate asked for, whether or not the trade is settled: with that fee, what
/// the parties get makes up the channel's value.
pub proof fn law_parties_pay_the_fee_rate_asked_for(terms: Terms)
    requires
        terms.payable(),
    ensures
        terms.amounts().0 + terms.amounts().1 + 2 * ((168 * terms.fee_rate_sats_vb) / 2)
            == terms.fund_value,
        168 * terms.fee_rate_sats_vb <= u64::MAX,
        COLLABORATIVE_REVERT_TX_WEIGHT == 672,
{
    lemma_revert_fee(terms);
}

proof fn lemma_revert_fee(terms: Terms)
    ensures
        terms.revert_fee() == 168 * terms.fee_rate_sats_vb,
{
    let rate = terms.fee_rate_sats_vb as int;
    assert(((672int + 3) / 4) * rate == 168 * rate) by (nonlinear_arith);
}

/// Law: before the fee of the reverting transaction the trader gets what the trader has in the
/// lightning channel, the reserve and, as long as the trade is open, what is owed for the position and
/// half of the channel's fees. The coordinator gets the rest of the channel's value. Both hold
/// up to what machine integers leave out, and exactly if what the trader gets is a machine integer.
pub proof fn law_shares_of_a_reverted_channel(terms: Terms)
    requires
        terms.payable(),
    ensures
        ({
            let half_of_revert_fee = (168 * terms.fee_rate_sats_vb) / 2;
            let owed = terms.inbound_capacity + terms.reserve + (if terms.trade_settled {
                0
            } else {
                terms.settlement_amount + half_of_fee(terms.dlc_channel_fee)
            });
            &&& (terms.amounts().1 + half_of_revert_fee - owed) % 0x1_0000_0000_0000_0000 == 0
            &&& (terms.amounts().0 + half_of_revert_fee + owed - terms.fund_value)
                % 0x1_0000_0000_0000_0000 == 0
            &&& owed <= u64::MAX ==> terms.amounts().1 == owed - half_of_revert_fee
            &&& owed <= u64::MAX ==> terms.amounts().0 == terms.fund_value - owed
                - half_of_revert_fee
        }),
{
    lemma_revert_fee(terms);
}

/// Law: both parties can be paid exactly if the fee of the reverting transaction is a machine integer
/// and each party's share covers half of it. This is about amounts up to `i64::MAX` and fees of the
/// channel below two to the power of 53, both far beyond all the money there is.
pub proof fn law_both_are_paid_if_their_shares_cover_the_fee(terms: Terms)
    requires
        terms.fund_value <= i64::MAX,
        terms.inbound_capacity <= i64::MAX,
        terms.settlement_amount <= i64::MAX,
        terms.reserve <= i64::MAX,
        terms.dlc_channel_fee < 0x20_0000_0000_0000,
    ensures
        ({
            let half_of_revert_fee = (168 * terms.fee_rate_sats_vb) / 2;
            let owed = terms.inbound_capacity + terms.reserve + (if terms.trade_settled {
                0
            } else {
                terms.settlement_amount + terms.dlc_channel_fee / 2
            });
            terms.payable() <==> {
                &&& 168 * terms.fee_rate_sats_vb <= u64::MAX
                &&& half_of_revert_fee <= owed
                &&& owed + half_of_revert_fee <= terms.fund_value
            }
        }),
{
    lemma_revert_fee(terms);
    law_fee_is_shared_fairly(terms.dlc_channel_fee);
}

/// What the trader is owed before the fee of the reverting transaction: whatever the trader has in
/// the lightning channel and the reserve and, as long as the trade is open, what is owed for the
/// position and half of the channel's fees.
pub open spec fn owed_to_trader(terms: Terms) -> int {
    let settled = terms.inbound_capacity + terms.reserve;
    if terms.trade_settled {
        settled
    } else {
        settled + terms.settlement_amount + half_of_fee(terms.dlc_channel_fee)
    }
}

/// Law: when a channel is reverted the trader gets exactly what the trader is owed, without half of
/// the reverting transaction's fee, and the coordinator gets the rest.
///
/// What is owed has to be a machine integer.
pub proof fn law_trader_gets_what_is_owed(terms: Terms)
    requires
        terms.payable(),
        owed_to_trader(terms) <= u64::MAX,
    ensures
        terms.amounts().1 == owed_to_trader(terms) - terms.revert_fee() / 2,
        terms.amounts().0 == terms.fund_value - owed_to_trader(terms) - terms.revert_fee() / 2,
{
}

} // verus!
