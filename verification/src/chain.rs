//! Bitcoin transactions, as far as the library looks into them.
use crate::channel::PublicKey;
use vstd::prelude::*;

verus! {

/// An input of a transaction.
#[derive(Debug)]
pub struct TxIn {
    /// The transaction whose output is spent.
    pub txid: [u8; 32],
    /// Which of its outputs is spent.
    pub vout: u32,
    pub script_sig: Vec<u8>,
    pub sequence: u32,
    pub witness: Vec<Vec<u8>>,
}

/// An output of a transaction.
#[derive(Debug)]
pub struct TxOut {
    /// The value in satoshis.
    pub value: u64,
    pub script_pubkey: Vec<u8>,
}

/// A transaction.
#[derive(Debug)]
pub struct Transaction {
    pub version: i32,
    pub lock_time: u32,
    pub input: Vec<TxIn>,
    pub output: Vec<TxOut>,
}

/// The contents of an input.
#[verifier::ext_equal]
pub struct TxInView {
    pub txid: Seq<u8>,
    pub vout: u32,
    pub script_sig: Seq<u8>,
    pub sequence: u32,
    pub witness: Seq<Seq<u8>>,
}

/// The contents of an output.
#[verifier::ext_equal]
pub struct TxOutView {
    pub value: u64,
    pub script_pubkey: Seq<u8>,
}

/// The contents of a transaction.
#[verifier::ext_equal]
pub struct TransactionView {
    pub version: i32,
    pub lock_time: u32,
    pub input: Seq<TxInView>,
    pub output: Seq<TxOutView>,
}

/// The items of a witness stack.
pub open spec fn witness_view(witness: Seq<Vec<u8>>) -> Seq<Seq<u8>> {
    witness.map_values(|item: Vec<u8>| item@)
}

impl View for TxIn {
    type V = TxInView;

    open spec fn view(&self) -> TxInView {
        TxInView {
            txid: self.txid@,
            vout: self.vout,
            script_sig: self.script_sig@,
            sequence: self.sequence,
            witness: witness_view(self.witness@),
        }
    }
}

impl View for TxOut {
    type V = TxOutView;

    open spec fn view(&self) -> TxOutView {
        TxOutView { value: self.value, script_pubkey: self.script_pubkey@ }
    }
}

impl View for Transaction {
    type V = TransactionView;

    open spec fn view(&self) -> TransactionView {
        TransactionView {
            version: self.version,
            lock_time: self.lock_time,
            input: self.input@.map_values(|input: TxIn| input@),
            output: self.output@.map_values(|output: TxOut| output@),
        }
    }
}

impl TransactionView {
    /// The transaction with another witness on one of its inputs.
    pub open spec fn with_witness(self, index: int, witness: Seq<Seq<u8>>) -> TransactionView {
        TransactionView {
            input: self.input.update(index, TxInView { witness, ..self.input[index] }),
            ..self
        }
    }
}

impl Transaction {
    /// Puts a witness on one of the inputs.
    pub fn set_witness(&mut self, index: usize, witness: Vec<Vec<u8>>)
        requires
            index < old(self).input@.len(),
        ensures
            final(self)@ == old(self)@.with_witness(index as int, witness_view(witness@)),
            final(self).version == old(self).version,
            final(self).lock_time == old(self).lock_time,
            final(self).output == old(self).output,
            final(self).input@.len() == old(self).input@.len(),
            forall|i: int|
                0 <= i < old(self).input@.len() && i != index ==> final(self).input@[i]
                    == old(self).input@[i],
            final(self).input@[index as int] == (TxIn { witness, ..old(self).input@[index as int] }),
    {
        let ghost before = self.input@;
        self.input[index].witness = witness;
        assert(self.input@.map_values(|input: TxIn| input@) =~= before.map_values(
            |input: TxIn| input@,
        ).update(
            index as int,
            TxInView { witness: witness_view(witness@), ..before[index as int]@ },
        ));
    }
}

/// Law: a new witness leaves everything else about a transaction as it was, and the last witness put
/// on an input is the one that stays.
pub proof fn law_witness_leaves_the_rest(
    transaction: TransactionView,
    index: int,
    first: Seq<Seq<u8>>,
    second: Seq<Seq<u8>>,
)
    requires
        0 <= index < transaction.input.len(),
    ensures
        ({
            let signed = transaction.with_witness(index, first);
            &&& signed.version == transaction.version
            &&& signed.lock_time == transaction.lock_time
            &&& signed.output == transaction.output
            &&& signed.input.len() == transaction.input.len()
            &&& signed.input[index].witness == first
            &&& signed.input[index].txid == transaction.input[index].txid
            &&& signed.input[index].vout == transaction.input[index].vout
            &&& signed.input[index].script_sig == transaction.input[index].script_sig
            &&& signed.input[index].sequence == transaction.input[index].sequence
            &&& forall|i: int|
                0 <= i < signed.input.len() && i != index ==> signed.input[i]
                    == transaction.input[i]
            &&& signed.with_witness(index, second) == transaction.with_witness(index, second)
        }),
{
    assert(transaction.with_witness(index, first).with_witness(index, second).input
        =~= transaction.with_witness(index, second).input);
}

/// Whether one key comes before another or is the same, byte by byte from the front.
pub open spec fn sorts_first(left: Seq<u8>, right: Seq<u8>) -> bool
    decreases left.len(),
{
    left.len() == 0 || (right.len() > 0 && (left[0] < right[0] || (left[0] == right[0]
        && sorts_first(left.drop_first(), right.drop_first()))))
}

/// A signature as it stands on a witness stack: followed by the byte that says that it commits to
/// all inputs and outputs.
pub open spec fn on_stack(signature: Seq<u8>) -> Seq<u8> {
    signature.push(1)
}

/// The witness that spends an output guarded by a script for two keys: an empty item, the two
/// signatures in the order of their keys, and the script. If the keys are equal the first signature
/// stays first.
pub open spec fn multi_sig_witness(
    first_key: Seq<u8>,
    first_signature: Seq<u8>,
    second_key: Seq<u8>,
    second_signature: Seq<u8>,
    script: Seq<u8>,
) -> Seq<Seq<u8>> {
    if sorts_first(first_key, second_key) {
        seq![Seq::<u8>::empty(), on_stack(first_signature), on_stack(second_signature), script]
    } else {
        seq![Seq::<u8>::empty(), on_stack(second_signature), on_stack(first_signature), script]
    }
}

/// Compares two keys as `sorts_first` does.
fn key_sorts_first(left: &PublicKey, right: &PublicKey) -> (first: bool)
    ensures
        first == sorts_first(left@, right@),
{
    let mut i: usize = 0;
    assert(left@.skip(0) =~= left@);
    assert(right@.skip(0) =~= right@);
    while i < 33
        invariant
            i <= 33,
            sorts_first(left@, right@) == sorts_first(left@.skip(i as int), right@.skip(i as int)),
        decreases 33 - i,
    {
        if left[i] < right[i] {
            return true;
        }
        if left[i] > right[i] {
            return false;
        }
        assert(left@.skip(i as int).drop_first() =~= left@.skip(i + 1));
        assert(right@.skip(i as int).drop_first() =~= right@.skip(i + 1));
        i = i + 1;
    }
    true
}

/// Copies bytes.
pub(crate) fn copy_bytes(bytes: &Vec<u8>) -> (copy: Vec<u8>)
    ensures
        copy@ == bytes@,
{
    let mut copy: Vec<u8> = Vec::new();
    copy.extend_from_slice(bytes.as_slice());
    assert(copy@ =~= bytes@);
    copy
}

/// Puts on one of a transaction's inputs the witness that spends an output guarded by a script for
/// two keys.
pub fn finalize_multi_sig_input_transaction(
    transaction: &mut Transaction,
    first_key: &PublicKey,
    first_signature: &Vec<u8>,
    second_key: &PublicKey,
    second_signature: &Vec<u8>,
    script: &Vec<u8>,
    input_index: usize,
)
    requires
        input_index < old(transaction).input@.len(),
    ensures
        final(transaction)@ == old(transaction)@.with_witness(
            input_index as int,
            multi_sig_witness(
                first_key@,
                first_signature@,
                second_key@,
                second_signature@,
                script@,
            ),
        ),
        final(transaction).version == old(transaction).version,
        final(transaction).lock_time == old(transaction).lock_time,
        final(transaction).output == old(transaction).output,
        final(transaction).input@.len() == old(transaction).input@.len(),
        forall|i: int|
            0 <= i < old(transaction).input@.len() && i != input_index ==> final(transaction).input@[i]
                == old(transaction).input@[i],
{
    let mut first_item = copy_bytes(first_signature);
    first_item.push(1);
    let mut second_item = copy_bytes(second_signature);
    second_item.push(1);
    let mut witness: Vec<Vec<u8>> = Vec::new();
    witness.push(Vec::new());
    if key_sorts_first(first_key, second_key) {
        witness.push(first_item);
        witness.push(second_item);
    } else {
        witness.push(second_item);
        witness.push(first_item);
    }
    witness.push(copy_bytes(script));
    assert(witness_view(witness@) =~= multi_sig_witness(
        first_key@,
        first_signature@,
        second_key@,
        second_signature@,
        script@,
    ));
    transaction.set_witness(input_index, witness);
}

proof fn lemma_sorts_one_way(left: Seq<u8>, right: Seq<u8>)
    requires
        left.len() == right.len(),
        left != right,
    ensures
        sorts_first(left, right) != sorts_first(right, left),
    decreases left.len(),
{
    if left.len() > 0 && left[0] == right[0] {
        if left.drop_first() == right.drop_first() {
            assert forall|i: int| 0 <= i < left.len() implies left[i] == right[i] by {
                if i > 0 {
                    assert(left[i] == left.drop_first()[i - 1]);
                    assert(right[i] == right.drop_first()[i - 1]);
                }
            }
            assert(left =~= right);
        }
        lemma_sorts_one_way(left.drop_first(), right.drop_first());
    } else if left.len() == 0 {
        assert(left =~= right);
    }
}

/// Whether one key is less than another in lexicographic order, with the first difference at `i`.
pub open spec fn is_less_at(left: Seq<u8>, right: Seq<u8>, i: int) -> bool {
    &&& 0 <= i < left.len()
    &&& i < right.len()
    &&& left[i] < right[i]
    &&& forall|j: int| 0 <= j < i ==> left[j] == right[j]
}

proof fn lemma_less_sorts_first(left: Seq<u8>, right: Seq<u8>, i: int)
    requires
        is_less_at(left, right, i),
    ensures
        sorts_first(left, right),
        !sorts_first(right, left),
    decreases i,
{
    if i > 0 {
        assert(left[0] == right[0]);
        let left_rest = left.drop_first();
        let right_rest = right.drop_first();
        assert forall|j: int| 0 <= j < i - 1 implies left_rest[j] == right_rest[j] by {
            assert(left[j + 1] == right[j + 1]);
        }
        lemma_less_sorts_first(left_rest, right_rest, i - 1);
    }
}

/// Law: the witness holds an empty item, the two signatures, each followed by a byte of one, and the
/// script. Each signature stands in the place of its own key: that of the lesser key, in
/// lexicographic order, comes first, whichever of them was named first.
pub proof fn law_signatures_stand_in_the_order_of_their_keys(
    lesser_key: Seq<u8>,
    lesser_signature: Seq<u8>,
    greater_key: Seq<u8>,
    greater_signature: Seq<u8>,
    script: Seq<u8>,
    i: int,
)
    requires
        is_less_at(lesser_key, greater_key, i),
    ensures
        multi_sig_witness(lesser_key, lesser_signature, greater_key, greater_signature, script) == seq![
            Seq::<u8>::empty(),
            lesser_signature.push(1),
            greater_signature.push(1),
            script,
        ],
        multi_sig_witness(greater_key, greater_signature, lesser_key, lesser_signature, script) == seq![
            Seq::<u8>::empty(),
            lesser_signature.push(1),
            greater_signature.push(1),
            script,
        ],
{
    lemma_less_sorts_first(lesser_key, greater_key, i);
}

/// Law: both parties put the same witness on the input, whichever of them names its own key and
/// signature first, as long as their keys differ.
pub proof fn law_parties_agree_on_the_witness(
    own_key: Seq<u8>,
    own_signature: Seq<u8>,
    counter_key: Seq<u8>,
    counter_signature: Seq<u8>,
    script: Seq<u8>,
)
    requires
        own_key.len() == counter_key.len(),
        own_key != counter_key,
    ensures
        multi_sig_witness(own_key, own_signature, counter_key, counter_signature, script)
            == multi_sig_witness(counter_key, counter_signature, own_key, own_signature, script),
{
    lemma_sorts_one_way(own_key, counter_key);
}

} // verus!
