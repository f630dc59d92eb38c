//! Human view of a partially signed transaction, with its privacy analysis.

use std::collections::HashSet;
use vstd::prelude::*;
use vstd::string::*;
use crate::common::error::Error;
use crate::common::psbt::{
    outpoint_text, path_text, spec_outpoint_text, spec_path_text, spec_txid, spec_unsigned_weight,
    tx_id, Fingerprint, KeySource, Network, OutPoint, Psbt, PsbtInput, TxOut,
};
pub use crate::common::script::script_type;
use crate::common::script::{address_text, spec_address_text, spec_has_address};
use crate::common::text::{
    decimal_text, hex_text, insert_sorted, is_sorted_listing, join, lemma_sorted_listing_unique,
    spec_decimal, spec_hex, spec_join, spec_sorted_listing, strictly_increasing, texts_of,
};
use crate::common::weight::{checked_unsigned_weight, estimate_weight, spec_estimated_weight};
use crate::offline::privacy::{
    address_reuse, different_precision, different_script_types, spec_address_reuse, spec_coins,
    spec_different_precision, spec_different_script_types, spec_unnecessary_input,
    unnecessary_input,
};

verus! {

/// What to print: a partially signed transaction and the wallet it is held against.
#[derive(Debug, Clone)]
pub struct PrintOptions {
    /// PSBT json file
    pub psbt_file: String,
    /// File containing the wallet descriptor, show if outputs are mine.
    pub wallet_descriptor_file: String,
}

/// Ten to the power `k`.
pub open spec fn pow10(k: nat) -> nat
    decreases k,
{
    if k == 0 {
        1
    } else {
        10 * pow10((k - 1) as nat)
    }
}

/// How many times `v` can be divided by ten without a remainder; zero for `v == 0`,
/// which every power of ten divides.
pub open spec fn dividing_pow(v: nat) -> nat
    decreases v,
{
    if v == 0 || v % 10 != 0 {
        0
    } else {
        1 + dividing_pow(v / 10)
    }
}

/// `10^k` is positive.
pub proof fn lemma_pow10_positive(k: nat)
    ensures
        pow10(k) > 0,
    decreases k,
{
    if k > 0 {
        lemma_pow10_positive((k - 1) as nat);
    }
}

/// For a positive `v`, `10^k` divides `v` exactly when `k <= dividing_pow(v)`:
/// `dividing_pow(v)` is the largest exponent of a power of ten that divides `v`.
pub proof fn lemma_dividing_pow_is_largest(v: nat, k: nat)
    requires
        v > 0,
    ensures
        v % pow10(k) == 0 <==> k <= dividing_pow(v),
    decreases k,
{
    lemma_pow10_positive(k);
    if k == 0 {
    } else {
        let p = pow10((k - 1) as nat);
        lemma_pow10_positive((k - 1) as nat);
        assert(pow10(k) == 10 * p);
        if v % 10 != 0 {
            // 10 divides 10 * p, so it would divide v
            vstd::arithmetic::div_mod::lemma_mod_mod(v as int, 10, p as int);
        } else {
            let w = v / 10;
            assert(w > 0);
            lemma_dividing_pow_is_largest(w, (k - 1) as nat);
            assert(v == 10 * w);
            vstd::arithmetic::div_mod::lemma_truncate_middle(w as int, 10, p as int);
        }
    }
}

/// The largest `k` such that `10^k` divides `num`.
pub fn biggest_dividing_pow(num: u64) -> (count: u8)
    requires
        num > 0,
    ensures
        count == dividing_pow(num as nat),
        num as nat % pow10(count as nat) == 0,
        forall|k: nat| num as nat % pow10(k) == 0 ==> k <= count,
{
    let mut rest: u64 = num;
    let mut count: u8 = 0;
    proof {
        let one = pow10(0);
        assert(one == 1);
        assert(rest as nat * one == num as nat) by (nonlinear_arith)
            requires
                one == 1,
                rest == num,
        ;
    }
    while rest % 10 == 0
        invariant
            rest > 0,
            count as nat + dividing_pow(rest as nat) == dividing_pow(num as nat),
            rest as nat * pow10(count as nat) == num as nat,
            count <= 19,
        decreases rest,
    {
        proof {
            lemma_pow10_bounds(count as nat, rest as nat, num as nat);
            assert(pow10(count as nat + 1) == 10 * pow10(count as nat));
            assert((rest / 10) as nat * pow10(count as nat + 1) == num as nat) by (nonlinear_arith)
                requires
                    rest % 10 == 0,
                    rest as nat * pow10(count as nat) == num as nat,
                    pow10(count as nat + 1) == 10 * pow10(count as nat),
            ;
        }
        rest = rest / 10;
        count = count + 1;
    }
    proof {
        assert forall|k: nat| num as nat % pow10(k) == 0 implies k <= count by {
            lemma_dividing_pow_is_largest(num as nat, k);
        }
        lemma_dividing_pow_is_largest(num as nat, count as nat);
    }
    count
}

/// A product `rest * 10^count` that fits in 64 bits, with `rest` a positive
/// multiple of ten, has `count < 19`.
proof fn lemma_pow10_bounds(count: nat, rest: nat, num: nat)
    requires
        rest >= 10,
        rest * pow10(count) == num,
        num <= u64::MAX,
    ensures
        count < 19,
{
    if count >= 19 {
        lemma_pow10_monotonic(19, count);
        reveal_with_fuel(pow10, 20);
        assert(pow10(19) == 10_000_000_000_000_000_000);
        assert(rest * pow10(count) >= 10 * pow10(19)) by (nonlinear_arith)
            requires
                rest >= 10,
                pow10(count) >= pow10(19),
        ;
    }
}

/// Ten times a positive amount ends in one zero more than the amount: this
/// holds whether or not the amount itself ends in a zero.
pub proof fn lemma_dividing_pow_of_tenfold(v: nat)
    requires
        v > 0,
    ensures
        dividing_pow(v * 10) == dividing_pow(v) + 1,
        v % 10 != 0 ==> dividing_pow(v * 10) == 1,
        v % 10 == 0 ==> dividing_pow(v * 10) >= dividing_pow(v) + 1 >= 2,
{
    assert((v * 10) % 10 == 0 && (v * 10) / 10 == v) by (nonlinear_arith);
    if v % 10 == 0 {
        assert(v / 10 > 0);
    }
}

/// A positive amount ends in no zero exactly when ten does not divide it.
pub proof fn lemma_dividing_pow_zero_iff(v: nat)
    requires
        v > 0,
    ensures
        dividing_pow(v) == 0 <==> v % 10 != 0,
{
}

/// Powers of ten grow with the exponent.
pub proof fn lemma_pow10_monotonic(i: nat, j: nat)
    requires
        i <= j,
    ensures
        pow10(i) <= pow10(j),
    decreases j,
{
    if i < j {
        lemma_pow10_monotonic(i, (j - 1) as nat);
    }
}

/// The texts of the paths of the given keys.
pub open spec fn spec_path_texts(hd_keypaths: Seq<KeySource>) -> Set<Seq<char>> {
    Set::new(
        |t: Seq<char>|
            exists|i: int|
                0 <= i < hd_keypaths.len() && t == spec_path_text(#[trigger] hd_keypaths[i].path@),
    )
}

/// The paths of the given keys as one text: each different path once, in the
/// order of texts, with a comma and a space between two of them.
pub open spec fn spec_derivation_paths(hd_keypaths: Seq<KeySource>) -> Seq<char> {
    spec_join(spec_sorted_listing(spec_path_texts(hd_keypaths)), seq![',', ' '])
}

/// The derivation paths of the given keys, sorted, without repetitions,
/// separated by `", "`.
pub fn derivation_paths(hd_keypaths: &Vec<KeySource>) -> (text: String)
    ensures
        text@ == spec_derivation_paths(hd_keypaths@),
        is_sorted_listing(
            spec_sorted_listing(spec_path_texts(hd_keypaths@)),
            spec_path_texts(hd_keypaths@),
        ),
{
    let mut rows: Vec<String> = Vec::new();
    let mut i: usize = 0;
    assert(texts_of(rows@) =~= Seq::<Seq<char>>::empty());
    while i < hd_keypaths.len()
        invariant
            i <= hd_keypaths.len(),
            strictly_increasing(texts_of(rows@)),
            forall|t: Seq<char>|
                texts_of(rows@).contains(t) <==> exists|k: int|
                    0 <= k < i && t == spec_path_text(#[trigger] hd_keypaths@[k].path@),
        decreases hd_keypaths.len() - i,
    {
        let text = path_text(&hd_keypaths[i].path);
        let ghost before = texts_of(rows@);
        insert_sorted(&mut rows, text);
        proof {
            assert forall|t: Seq<char>| texts_of(rows@).contains(t) <==> exists|k: int|
                0 <= k < i + 1 && t == spec_path_text(#[trigger] hd_keypaths@[k].path@) by {
                if before.contains(t) {
                    let k = choose|k: int|
                        0 <= k < i && t == spec_path_text(#[trigger] hd_keypaths@[k].path@);
                    assert(0 <= k < i + 1);
                }
                if t == text@ {
                    assert(t == spec_path_text(hd_keypaths@[i as int].path@));
                }
            }
        }
        i = i + 1;
    }
    proof {
        let texts = spec_path_texts(hd_keypaths@);
        assert(is_sorted_listing(texts_of(rows@), texts));
        lemma_sorted_listing_unique(texts_of(rows@), spec_sorted_listing(texts), texts);
        reveal_strlit(", ");
        assert(", "@ =~= seq![',', ' ']);
    }
    join(&rows, ", ")
}

/// Every one of the keys, and there is at least one, descends from a master
/// key of the wallet.
pub open spec fn spec_is_mine(hd_keypaths: Seq<KeySource>, wallet: Set<Fingerprint>) -> bool {
    hd_keypaths.len() > 0 && forall|i: int|
        0 <= i < hd_keypaths.len() ==> wallet.contains(#[trigger] hd_keypaths[i].fingerprint)
}

/// The mark of an output that belongs to the wallet, the empty text for any other.
pub open spec fn spec_mine_mark(hd_keypaths: Seq<KeySource>, wallet: Set<Fingerprint>) -> Seq<
    char,
> {
    if spec_is_mine(hd_keypaths, wallet) {
        seq![' ', 'M', 'I', 'N', 'E']
    } else {
        Seq::<char>::empty()
    }
}

/// `" MINE"` if there are keys and the fingerprint of each is one of the
/// wallet's, else the empty text.
pub fn is_mine(hd_keypaths: &Vec<KeySource>, wallet: &HashSet<Fingerprint>) -> (mark: String)
    ensures
        mark@ == spec_mine_mark(hd_keypaths@, wallet@),
{
    broadcast use vstd::std_specs::hash::group_hash_axioms;

    let mut all: bool = hd_keypaths.len() > 0;
    let mut i: usize = 0;
    while i < hd_keypaths.len()
        invariant
            i <= hd_keypaths.len(),
            all == (hd_keypaths.len() > 0 && forall|k: int|
                0 <= k < i ==> wallet@.contains(#[trigger] hd_keypaths@[k].fingerprint)),
        decreases hd_keypaths.len() - i,
    {
        if !wallet.contains(&hd_keypaths[i].fingerprint) {
            all = false;
        }
        i = i + 1;
    }
    proof {
        reveal_strlit(" MINE");
        reveal_strlit("");
        assert(" MINE"@ =~= seq![' ', 'M', 'I', 'N', 'E']);
        assert(""@ =~= Seq::<char>::empty());
    }
    if all {
        String::from_str(" MINE")
    } else {
        String::from_str("")
    }
}

/// Whether the two identifiers are the same.
pub fn same_id(a: &[u8; 32], b: &[u8; 32]) -> (same: bool)
    ensures
        same == (a@ == b@),
{
    let mut i: usize = 0;
    while i < 32
        invariant
            i <= 32,
            forall|k: int| 0 <= k < i ==> a@[k] == b@[k],
        decreases 32 - i,
    {
        if a[i] != b[i] {
            return false;
        }
        i = i + 1;
    }
    assert(a@ =~= b@);
    true
}

/// The coin that an input spends, as far as what the transaction knows of the
/// input says so without contradiction: it holds either the coin itself or
/// the whole transaction that made it, not both; that transaction has the
/// identifier that the outpoint names, and the output that it names.
pub open spec fn spec_previous_output(outpoint: OutPoint, input: PsbtInput) -> Option<TxOut> {
    match (input.non_witness_utxo, input.witness_utxo) {
        (Some(tx), None) => if spec_txid(tx) == outpoint.txid@ && outpoint.vout
            < tx.output@.len() {
            Some(tx.output@[outpoint.vout as int])
        } else {
            None
        },
        (None, Some(coin)) => Some(coin),
        _ => None,
    }
}

/// The coin that the input spends, `None` if the input contradicts itself or
/// the outpoint.
pub fn previous_output<'a>(outpoint: &OutPoint, input: &'a PsbtInput) -> (coin: Option<&'a TxOut>)
    ensures
        match coin {
            Some(c) => spec_previous_output(*outpoint, *input) == Some(*c),
            None => spec_previous_output(*outpoint, *input) is None,
        },
{
    match (&input.non_witness_utxo, &input.witness_utxo) {
        (Some(tx), None) => {
            let id = tx_id(tx);
            let vout = outpoint.vout as usize;
            if same_id(&id, &outpoint.txid) && vout < tx.output.len() {
                Some(&tx.output[vout])
            } else {
                None
            }
        },
        (None, Some(coin)) => Some(coin),
        _ => None,
    }
}

/// The sum of the amounts.
pub open spec fn spec_sum(values: Seq<u64>) -> nat
    decreases values.len(),
{
    if values.len() == 0 {
        0
    } else {
        spec_sum(values.drop_last()) + values.last() as nat
    }
}

/// The sum of a part of the amounts is at most the sum of all.
pub proof fn lemma_sum_monotonic(values: Seq<u64>, i: int)
    requires
        0 <= i <= values.len(),
    ensures
        spec_sum(values.take(i)) <= spec_sum(values),
    decreases values.len(),
{
    if i < values.len() {
        assert(values.drop_last().take(i) =~= values.take(i));
        lemma_sum_monotonic(values.drop_last(), i);
    } else {
        assert(values.take(i) =~= values);
    }
}

/// The sum of the amounts, `None` if it is more than 64 bits hold.
pub fn sum(values: &Vec<u64>) -> (total: Option<u64>)
    ensures
        match total {
            Some(t) => t == spec_sum(values@),
            None => spec_sum(values@) > u64::MAX,
        },
{
    let mut total: u64 = 0;
    let mut i: usize = 0;
    while i < values.len()
        invariant
            i <= values.len(),
            total == spec_sum(values@.take(i as int)),
        decreases values.len() - i,
    {
        proof {
            assert(values@.take(i + 1).drop_last() =~= values@.take(i as int));
            lemma_sum_monotonic(values@, i + 1);
        }
        match total.checked_add(values[i]) {
            Some(t) => {
                total = t;
            },
            None => {
                return None;
            },
        }
        i = i + 1;
    }
    assert(values@.take(values.len() as int) =~= values@);
    Some(total)
}

/// What the transaction leaves to the miner: what the inputs hold less what
/// the outputs take. There is none where the outputs take more than the inputs
/// hold, or the inputs more than 64 bits hold.
pub open spec fn spec_fee(input_values: Seq<u64>, output_values: Seq<u64>) -> Option<nat> {
    if spec_sum(input_values) <= u64::MAX && spec_sum(output_values) <= spec_sum(input_values) {
        Some((spec_sum(input_values) - spec_sum(output_values)) as nat)
    } else {
        None
    }
}

/// The fee: the sum of the inputs' amounts less the sum of the outputs'.
pub fn fee(input_values: &Vec<u64>, output_values: &Vec<u64>) -> (fee: Result<u64, Error>)
    ensures
        match fee {
            Ok(f) => spec_fee(input_values@, output_values@) == Some(f as nat) && f == spec_sum(
                input_values@,
            ) - spec_sum(output_values@),
            Err(e) => e is PsbtInconsistent && spec_fee(input_values@, output_values@) is None,
        },
{
    match (sum(input_values), sum(output_values)) {
        (Some(held), Some(taken)) => {
            if taken <= held {
                Ok(held - taken)
            } else {
                Err(Error::PsbtInconsistent)
            }
        },
        _ => Err(Error::PsbtInconsistent),
    }
}

/// The fee, where there is one, is what the inputs hold less what the outputs
/// take, and is not negative.
pub proof fn lemma_fee_is_difference(input_values: Seq<u64>, output_values: Seq<u64>)
    ensures
        spec_fee(input_values, output_values) matches Some(f) ==> f == spec_sum(input_values)
            - spec_sum(output_values) && spec_sum(input_values) - spec_sum(output_values) >= 0,
        spec_fee(input_values, output_values) is None <==> (spec_sum(output_values) > spec_sum(
            input_values,
        ) || spec_sum(input_values) > u64::MAX),
{
}

/// The line of an input: `#`, its index, the outpoint, the derivation paths
/// in brackets, the amount.
pub open spec fn spec_input_row(
    index: nat,
    outpoint: OutPoint,
    hd_keypaths: Seq<KeySource>,
    value: u64,
) -> Seq<char> {
    seq!['#'] + spec_decimal(index) + seq![' '] + spec_outpoint_text(outpoint) + seq![' ', '(']
        + spec_derivation_paths(hd_keypaths) + seq![')', ' '] + spec_decimal(value as nat)
}

/// The line of an input.
pub fn input_row(index: usize, outpoint: &OutPoint, hd_keypaths: &Vec<KeySource>, value: u64) -> (row:
    String)
    ensures
        row@ == spec_input_row(index as nat, *outpoint, hd_keypaths@, value),
{
    proof {
        reveal_strlit("#");
        reveal_strlit(" ");
        reveal_strlit(" (");
        reveal_strlit(") ");
    }
    let mut row = String::from_str("#");
    row.append(decimal_text(index as u64).as_str());
    row.append(" ");
    row.append(outpoint_text(outpoint).as_str());
    row.append(" (");
    row.append(derivation_paths(hd_keypaths).as_str());
    row.append(") ");
    row.append(decimal_text(value).as_str());
    assert(row@ =~= spec_input_row(index as nat, *outpoint, hd_keypaths@, value));
    row
}

/// The line of an output whose script has an address: `#`, its index, the
/// script in hexadecimal, the address, in brackets the derivation paths and
/// the mark of the wallet's own, the amount.
pub open spec fn spec_output_row(
    index: nat,
    output: TxOut,
    network: Network,
    hd_keypaths: Seq<KeySource>,
    wallet: Set<Fingerprint>,
) -> Seq<char> {
    seq!['#'] + spec_decimal(index) + seq![' '] + spec_hex(output.script_pubkey@) + seq![' ']
        + spec_address_text(output.script_pubkey@, network) + seq![' ', '(']
        + spec_derivation_paths(hd_keypaths) + spec_mine_mark(hd_keypaths, wallet) + seq![')', ' ']
        + spec_decimal(output.value as nat)
}

/// The line of an output, `None` if its script has no address.
pub fn output_row(
    index: usize,
    output: &TxOut,
    network: Network,
    hd_keypaths: &Vec<KeySource>,
    wallet: &HashSet<Fingerprint>,
) -> (row: Option<String>)
    ensures
        row is Some <==> spec_has_address(output.script_pubkey@),
        row matches Some(r) ==> r@ == spec_output_row(
            index as nat,
            *output,
            network,
            hd_keypaths@,
            wallet@,
        ),
{
    proof {
        reveal_strlit("#");
        reveal_strlit(" ");
        reveal_strlit(" (");
        reveal_strlit(") ");
    }
    let address = match address_text(&output.script_pubkey, network) {
        Some(a) => a,
        None => {
            return None;
        },
    };
    let mut row = String::from_str("#");
    row.append(decimal_text(index as u64).as_str());
    row.append(" ");
    row.append(hex_text(&output.script_pubkey).as_str());
    row.append(" ");
    row.append(address.as_str());
    row.append(" (");
    row.append(derivation_paths(hd_keypaths).as_str());
    row.append(is_mine(hd_keypaths, wallet).as_str());
    row.append(") ");
    row.append(decimal_text(output.value).as_str());
    assert(row@ =~= spec_output_row(index as nat, *output, network, hd_keypaths@, wallet@));
    Some(row)
}

/// What is said of outputs that pay to scripts of different classes.
pub const SCRIPT_TYPES_WARNING: &'static str =
    "Privacy: outputs have different script types https://en.bitcoin.it/wiki/Privacy#Sending_to_a_different_script_type";

/// What is said of amounts of different precision.
pub const ROUND_NUMBERS_WARNING: &'static str =
    "Privacy: outputs have different precision https://en.bitcoin.it/wiki/Privacy#Round_numbers";

/// What is said of an output smaller than every input.
pub const UNNECESSARY_INPUT_WARNING: &'static str =
    "Privacy: smallest output is smaller then smallest input https://en.bitcoin.it/wiki/Privacy#Unnecessary_input_heuristic";

/// What is said of an output that pays to a script being spent from.
pub const ADDRESS_REUSE_WARNING: &'static str =
    "Privacy: address reuse https://en.bitcoin.it/wiki/Privacy#Address_reuse";

/// What is said of an output whose script has no address.
pub const NO_ADDRESS: &'static str = "non default script";

/// Sizes in virtual bytes: a quarter of the weight.
#[derive(Debug)]
pub struct Size {
    /// Of the transaction as it stands, unsigned.
    pub unsigned: usize,
    /// Of the transaction once signed, estimated from above.
    pub estimated: usize,
}

/// What the transaction pays to the miner.
#[derive(Debug)]
pub struct Fee {
    /// Satoshi.
    pub absolute: u64,
}

/// A partially signed transaction as its signer should see it.
#[derive(Debug)]
pub struct PsbtPrettyPrint {
    /// One line for each input.
    pub inputs: Vec<String>,
    /// One line for each output.
    pub outputs: Vec<String>,
    pub sizes: Size,
    pub fee: Fee,
    /// The warnings of the privacy analysis.
    pub info: Vec<String>,
}

/// The transaction knows as many inputs and outputs as it has.
pub open spec fn spec_shape_ok(psbt: Psbt) -> bool {
    psbt.inputs@.len() == psbt.unsigned_tx.input@.len() && psbt.outputs@.len()
        == psbt.unsigned_tx.output@.len()
}

/// The coin that input `i` spends.
pub open spec fn spec_coin_at(psbt: Psbt, i: int) -> Option<TxOut> {
    spec_previous_output(psbt.unsigned_tx.input@[i].previous_output, psbt.inputs@[i])
}

/// Every input says which coin it spends.
pub open spec fn spec_inputs_consistent(psbt: Psbt) -> bool {
    spec_shape_ok(psbt) && forall|i: int|
        0 <= i < psbt.unsigned_tx.input@.len() ==> (#[trigger] spec_coin_at(psbt, i)) is Some
}

/// The coins that the inputs spend.
pub open spec fn spec_spent(psbt: Psbt) -> Seq<TxOut> {
    Seq::new(psbt.unsigned_tx.input@.len(), |i: int| spec_coin_at(psbt, i).unwrap())
}

/// The script of every output has an address.
pub open spec fn spec_addressable(psbt: Psbt) -> bool {
    forall|j: int|
        0 <= j < psbt.unsigned_tx.output@.len() ==> spec_has_address(
            (#[trigger] psbt.unsigned_tx.output@[j]).script_pubkey@,
        )
}

/// The amounts of the coins.
pub open spec fn spec_values(coins: Seq<TxOut>) -> Seq<u64> {
    coins.map_values(|c: TxOut| c.value)
}

/// The fee of the transaction.
pub open spec fn spec_psbt_fee(psbt: Psbt) -> Option<nat> {
    spec_fee(spec_values(spec_spent(psbt)), spec_values(psbt.unsigned_tx.output@))
}

/// The lines of the inputs.
pub open spec fn spec_input_rows(psbt: Psbt) -> Seq<Seq<char>> {
    Seq::new(
        psbt.unsigned_tx.input@.len(),
        |i: int|
            spec_input_row(
                i as nat,
                psbt.unsigned_tx.input@[i].previous_output,
                psbt.inputs@[i].hd_keypaths@,
                spec_coin_at(psbt, i).unwrap().value,
            ),
    )
}

/// The lines of the outputs.
pub open spec fn spec_output_rows(psbt: Psbt, network: Network, wallet: Set<Fingerprint>) -> Seq<
    Seq<char>,
> {
    Seq::new(
        psbt.unsigned_tx.output@.len(),
        |j: int|
            spec_output_row(
                j as nat,
                psbt.unsigned_tx.output@[j],
                network,
                psbt.outputs@[j].hd_keypaths@,
                wallet,
            ),
    )
}

/// The text if the flag is set.
pub open spec fn spec_warning(flag: bool, text: Seq<char>) -> Seq<Seq<char>> {
    if flag {
        seq![text]
    } else {
        Seq::<Seq<char>>::empty()
    }
}

/// The warnings of the privacy analysis, one for each heuristic that fires:
/// script types, round numbers, unnecessary input, address reuse, in this order.
pub open spec fn spec_info(spent: Seq<TxOut>, outputs: Seq<TxOut>) -> Seq<Seq<char>> {
    spec_warning(spec_different_script_types(outputs), SCRIPT_TYPES_WARNING@) + spec_warning(
        spec_different_precision(outputs),
        ROUND_NUMBERS_WARNING@,
    ) + spec_warning(spec_unnecessary_input(spent, outputs), UNNECESSARY_INPUT_WARNING@)
        + spec_warning(spec_address_reuse(spent, outputs), ADDRESS_REUSE_WARNING@)
}

/// The transaction can be printed: its inputs are consistent, its outputs
/// have addresses, it has a fee, and its estimated weight is known and fits
/// a machine word.
pub open spec fn spec_printable(psbt: Psbt) -> bool {
    &&& spec_inputs_consistent(psbt)
    &&& spec_addressable(psbt)
    &&& spec_psbt_fee(psbt) is Some
    &&& spec_estimated_weight(psbt) matches Some(w) && w <= usize::MAX
}

/// `view` is the view of the transaction, which can be printed: its lines are
/// those of the inputs and of the outputs, its warnings those of the privacy
/// analysis, its fee that of the transaction, its sizes a quarter of the
/// weight of the unsigned transaction and of the estimated weight.
pub open spec fn spec_is_view(
    psbt: Psbt,
    network: Network,
    wallet: Set<Fingerprint>,
    view: PsbtPrettyPrint,
) -> bool {
    &&& spec_printable(psbt)
    &&& texts_of(view.inputs@) == spec_input_rows(psbt)
    &&& texts_of(view.outputs@) == spec_output_rows(psbt, network, wallet)
    &&& texts_of(view.info@) == spec_info(spec_spent(psbt), psbt.unsigned_tx.output@)
    &&& Some(view.fee.absolute as nat) == spec_psbt_fee(psbt)
    &&& view.sizes.unsigned == spec_unsigned_weight(psbt.unsigned_tx) / 4
    &&& view.sizes.estimated == spec_estimated_weight(psbt).unwrap() / 4
}

/// The warnings of the privacy analysis of a transaction that spends `spent`
/// and pays `outputs`.
pub fn privacy_analysis(spent: &Vec<&TxOut>, outputs: &Vec<TxOut>) -> (info: Vec<String>)
    ensures
        texts_of(info@) == spec_info(spec_coins(spent@), outputs@),
{
    let mut info: Vec<String> = Vec::new();
    if different_script_types(outputs) {
        info.push(String::from_str(SCRIPT_TYPES_WARNING));
    }
    if different_precision(outputs) {
        info.push(String::from_str(ROUND_NUMBERS_WARNING));
    }
    if unnecessary_input(spent, outputs) {
        info.push(String::from_str(UNNECESSARY_INPUT_WARNING));
    }
    if address_reuse(spent, outputs) {
        info.push(String::from_str(ADDRESS_REUSE_WARNING));
    }
    assert(texts_of(info@) =~= spec_info(spec_coins(spent@), outputs@));
    info
}

/// The view of a partially signed transaction for the one who is to sign it:
/// a line for each input and each output, the fee, the sizes, and the
/// warnings of the privacy analysis.
///
/// Fails with `PsbtInconsistent` if the transaction knows more or fewer
/// inputs or outputs than it has, or an input does not say consistently which
/// coin it spends; else with `Parse` if the script of an output has no
/// address; else with `PsbtInconsistent` if there is no fee or no estimate of
/// the weight.
pub fn pretty_print(psbt: &Psbt, network: Network, fingerprints: &HashSet<Fingerprint>) -> (result:
    Result<PsbtPrettyPrint, Error>)
    ensures
        match result {
            Ok(view) => spec_is_view(*psbt, network, fingerprints@, view),
            Err(e) => {
                &&& !spec_printable(*psbt)
                &&& if !spec_inputs_consistent(*psbt) {
                    e is PsbtInconsistent
                } else if !spec_addressable(*psbt) {
                    e matches Error::Parse(reason) && reason@ == NO_ADDRESS@
                } else {
                    e is PsbtInconsistent
                }
            },
        },
{
    let tx = &psbt.unsigned_tx;
    if psbt.inputs.len() != tx.input.len() || psbt.outputs.len() != tx.output.len() {
        return Err(Error::PsbtInconsistent);
    }
    let mut spent: Vec<&TxOut> = Vec::new();
    let mut input_values: Vec<u64> = Vec::new();
    let mut inputs: Vec<String> = Vec::new();
    let mut i: usize = 0;
    while i < tx.input.len()
        invariant
            i <= tx.input.len(),
            *tx == psbt.unsigned_tx,
            spec_shape_ok(*psbt),
            spent.len() == i,
            input_values.len() == i,
            inputs.len() == i,
            forall|k: int| 0 <= k < i ==> (#[trigger] spec_coin_at(*psbt, k)) == Some(*spent@[k]),
            forall|k: int| 0 <= k < i ==> (#[trigger] input_values@[k]) == spent@[k].value,
            forall|k: int|
                0 <= k < i ==> (#[trigger] inputs@[k])@ == spec_input_row(
                    k as nat,
                    psbt.unsigned_tx.input@[k].previous_output,
                    psbt.inputs@[k].hd_keypaths@,
                    spent@[k].value,
                ),
        decreases tx.input.len() - i,
    {
        let outpoint = &tx.input[i].previous_output;
        let coin = match previous_output(outpoint, &psbt.inputs[i]) {
            Some(c) => c,
            None => {
                assert(spec_coin_at(*psbt, i as int) is None);
                return Err(Error::PsbtInconsistent);
            },
        };
        assert(spec_coin_at(*psbt, i as int) == Some(*coin));
        let row = input_row(i, outpoint, &psbt.inputs[i].hd_keypaths, coin.value);
        spent.push(coin);
        input_values.push(coin.value);
        inputs.push(row);
        i = i + 1;
    }
    proof {
        assert(spec_inputs_consistent(*psbt));
        assert(spec_coins(spent@) =~= spec_spent(*psbt));
        assert(input_values@ =~= spec_values(spec_spent(*psbt)));
        assert(texts_of(inputs@) =~= spec_input_rows(*psbt));
    }
    let mut output_values: Vec<u64> = Vec::new();
    let mut outputs: Vec<String> = Vec::new();
    let mut j: usize = 0;
    while j < tx.output.len()
        invariant
            j <= tx.output.len(),
            *tx == psbt.unsigned_tx,
            spec_shape_ok(*psbt),
            spec_inputs_consistent(*psbt),
            output_values.len() == j,
            outputs.len() == j,
            forall|k: int|
                0 <= k < j ==> spec_has_address(
                    (#[trigger] psbt.unsigned_tx.output@[k]).script_pubkey@,
                ),
            forall|k: int|
                0 <= k < j ==> (#[trigger] output_values@[k]) == psbt.unsigned_tx.output@[k].value,
            forall|k: int|
                0 <= k < j ==> (#[trigger] outputs@[k])@ == spec_output_row(
                    k as nat,
                    psbt.unsigned_tx.output@[k],
                    network,
                    psbt.outputs@[k].hd_keypaths@,
                    fingerprints@,
                ),
        decreases tx.output.len() - j,
    {
        let output = &tx.output[j];
        let row = match output_row(j, output, network, &psbt.outputs[j].hd_keypaths, fingerprints) {
            Some(r) => r,
            None => {
                assert(!spec_has_address(psbt.unsigned_tx.output@[j as int].script_pubkey@));
                return Err(Error::Parse(String::from_str(NO_ADDRESS)));
            },
        };
        output_values.push(output.value);
        outputs.push(row);
        j = j + 1;
    }
    proof {
        assert(spec_addressable(*psbt));
        assert(output_values@ =~= spec_values(psbt.unsigned_tx.output@));
        assert(texts_of(outputs@) =~= spec_output_rows(*psbt, network, fingerprints@));
    }
    let info = privacy_analysis(&spent, &tx.output);
    let absolute = match fee(&input_values, &output_values) {
        Ok(f) => f,
        Err(e) => {
            return Err(e);
        },
    };
    let estimated_weight = match estimate_weight(psbt) {
        Ok(w) => w,
        Err(e) => {
            return Err(e);
        },
    };
    let unsigned_weight = match checked_unsigned_weight(tx) {
        Some(w) => w,
        None => {
            return Err(Error::PsbtInconsistent);
        },
    };
    Ok(
        PsbtPrettyPrint {
            inputs,
            outputs,
            sizes: Size { unsigned: unsigned_weight / 4, estimated: estimated_weight / 4 },
            fee: Fee { absolute },
            info,
        },
    )
}

} // verus!
