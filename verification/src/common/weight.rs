//! How heavy a transaction is, before and after it is signed.

use vstd::prelude::*;
use crate::common::error::Error;
use crate::common::psbt::{
    spec_outputs_size, spec_unsigned_weight, spec_varint_len, unsigned_weight, Psbt, PsbtInput,
    TxOut, UnsignedTransaction,
};

verus! {

/// The bytes of a signature of full size, with the byte that says what it signs.
pub const SIGNATURE_SIZE: usize = 73;

/// The signatures that a script asks for: the threshold of a multisig script,
/// which begins with `OP_1` to `OP_16` and ends in `OP_CHECKMULTISIG`; one for
/// any other script.
pub open spec fn spec_signatures_needed(script: Seq<u8>) -> nat {
    if script.len() >= 2 && script.last() == 0xae && 0x51 <= script[0] <= 0x60 {
        (script[0] - 0x50) as nat
    } else {
        1
    }
}

/// The weight that spending script and signatures add to an input: the script
/// and as many full signatures as it needs, counted once in a witness and four
/// times in an input script. An input that names no script has none.
pub open spec fn spec_spend_weight(input: PsbtInput) -> Option<nat> {
    match (input.redeem_script, input.witness_script) {
        (_, Some(script)) => Some(
            script@.len() + spec_signatures_needed(script@) * SIGNATURE_SIZE as nat,
        ),
        (Some(script), None) => Some(
            4 * (script@.len() + spec_signatures_needed(script@) * SIGNATURE_SIZE as nat),
        ),
        (None, None) => None,
    }
}

/// The sum of the spending weights of the inputs, if each has one.
pub open spec fn spec_spend_total(inputs: Seq<PsbtInput>) -> Option<nat>
    decreases inputs.len(),
{
    if inputs.len() == 0 {
        Some(0)
    } else {
        match (spec_spend_total(inputs.drop_last()), spec_spend_weight(inputs.last())) {
            (Some(total), Some(weight)) => Some(total + weight),
            _ => None,
        }
    }
}

/// An upper bound of the weight of the transaction once signed: that of the
/// unsigned transaction and the spending weight of each input.
pub open spec fn spec_estimated_weight(psbt: Psbt) -> Option<nat> {
    match spec_spend_total(psbt.inputs@) {
        Some(total) => Some(spec_unsigned_weight(psbt.unsigned_tx) + total),
        None => None,
    }
}

/// The size of the outputs grows with their number.
pub proof fn lemma_outputs_size_monotonic(outputs: Seq<TxOut>, i: int)
    requires
        0 <= i <= outputs.len(),
    ensures
        spec_outputs_size(outputs.take(i)) <= spec_outputs_size(outputs),
    decreases outputs.len(),
{
    if i < outputs.len() {
        assert(outputs.drop_last().take(i) =~= outputs.take(i));
        lemma_outputs_size_monotonic(outputs.drop_last(), i);
    } else {
        assert(outputs.take(i) =~= outputs);
    }
}

/// The spending weights have a sum only while each prefix has one, and the
/// sums grow.
pub proof fn lemma_spend_total_monotonic(inputs: Seq<PsbtInput>, i: int)
    requires
        0 <= i <= inputs.len(),
    ensures
        spec_spend_total(inputs.take(i)) is None ==> spec_spend_total(inputs) is None,
        spec_spend_total(inputs) matches Some(total) ==> spec_spend_total(inputs.take(i)).unwrap()
            <= total,
    decreases inputs.len(),
{
    if i < inputs.len() {
        assert(inputs.drop_last().take(i) =~= inputs.take(i));
        lemma_spend_total_monotonic(inputs.drop_last(), i);
    } else {
        assert(inputs.take(i) =~= inputs);
    }
}

fn varint_len(n: usize) -> (len: u128)
    ensures
        len == spec_varint_len(n as nat),
{
    if n <= 0xFC {
        1
    } else if n <= 0xFFFF {
        3
    } else if n <= 0xFFFF_FFFF {
        5
    } else {
        9
    }
}

/// The weight of the unsigned transaction, `None` if it is more than a machine
/// word holds.
pub fn checked_unsigned_weight(tx: &UnsignedTransaction) -> (weight: Option<usize>)
    ensures
        match weight {
            Some(w) => w == spec_unsigned_weight(*tx),
            None => spec_unsigned_weight(*tx) > usize::MAX,
        },
{
    let limit: u128 = usize::MAX as u128;
    let mut size: u128 = 0;
    let mut i: usize = 0;
    while i < tx.output.len()
        invariant
            i <= tx.output.len(),
            limit == usize::MAX,
            size == spec_outputs_size(tx.output@.take(i as int)),
            size <= limit,
        decreases tx.output.len() - i,
    {
        let len = tx.output[i].script_pubkey.len();
        proof {
            assert(tx.output@.take(i + 1).drop_last() =~= tx.output@.take(i as int));
            lemma_outputs_size_monotonic(tx.output@, i + 1);
        }
        size = size + 8 + varint_len(len) + len as u128;
        if size > limit {
            return None;
        }
        i = i + 1;
    }
    assert(tx.output@.take(tx.output.len() as int) =~= tx.output@);
    let fixed: u128 = 8 + varint_len(tx.input.len()) + varint_len(tx.output.len());
    let total: u128 = 4 * (fixed + size) + 4 * 41 * (tx.input.len() as u128);
    if total > limit {
        return None;
    }
    Some(unsigned_weight(tx))
}

/// The signatures that `script` asks for.
pub fn signatures_needed(script: &Vec<u8>) -> (count: usize)
    ensures
        count == spec_signatures_needed(script@),
        1 <= count <= 16,
{
    let len = script.len();
    if len >= 2 && script[len - 1] == 0xae && 0x51 <= script[0] && script[0] <= 0x60 {
        (script[0] - 0x50) as usize
    } else {
        1
    }
}

/// The weight that spending adds to `input`, `None` if it names no script or
/// the weight is more than a machine word holds.
fn spend_weight(input: &PsbtInput) -> (weight: Option<usize>)
    ensures
        match weight {
            Some(w) => spec_spend_weight(*input) == Some(w as nat),
            None => spec_spend_weight(*input) matches Some(w) ==> w > usize::MAX,
        },
{
    let (script, factor): (&Vec<u8>, usize) = match (&input.redeem_script, &input.witness_script) {
        (_, Some(script)) => (script, 1),
        (Some(script), None) => (script, 4),
        (None, None) => {
            return None;
        },
    };
    let signatures: usize = signatures_needed(script) * SIGNATURE_SIZE;
    match script.len().checked_add(signatures) {
        Some(sum) => sum.checked_mul(factor),
        None => None,
    }
}

/// An upper bound of the weight of the transaction once it is signed, every
/// signature taken at full size and as many of them as each script asks for.
/// Fails if an input names neither a redeem script nor a witness script, or if
/// the weight is more than a machine word holds.
pub fn estimate_weight(psbt: &Psbt) -> (weight: Result<usize, Error>)
    ensures
        match weight {
            Ok(w) => spec_estimated_weight(*psbt) == Some(w as nat),
            Err(e) => e is PsbtInconsistent && (spec_estimated_weight(*psbt) matches Some(w) ==> w
                > usize::MAX),
        },
{
    let mut total: usize = match checked_unsigned_weight(&psbt.unsigned_tx) {
        Some(w) => w,
        None => {
            return Err(Error::PsbtInconsistent);
        },
    };
    let ghost base = total;
    let mut i: usize = 0;
    assert(psbt.inputs@.take(0) =~= Seq::<PsbtInput>::empty());
    while i < psbt.inputs.len()
        invariant
            i <= psbt.inputs.len(),
            base == spec_unsigned_weight(psbt.unsigned_tx),
            spec_spend_total(psbt.inputs@.take(i as int)) == Some((total - base) as nat),
            base <= total,
        decreases psbt.inputs.len() - i,
    {
        proof {
            assert(psbt.inputs@.take(i + 1).drop_last() =~= psbt.inputs@.take(i as int));
            lemma_spend_total_monotonic(psbt.inputs@, i + 1);
        }
        let next = match spend_weight(&psbt.inputs[i]) {
            Some(w) => total.checked_add(w),
            None => None,
        };
        match next {
            Some(sum) => {
                total = sum;
            },
            None => {
                return Err(Error::PsbtInconsistent);
            },
        }
        i = i + 1;
    }
    assert(psbt.inputs@.take(psbt.inputs.len() as int) =~= psbt.inputs@);
    Ok(total)
}

} // verus!
