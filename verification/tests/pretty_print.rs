use std::collections::HashSet;

use firma::common::error::Error;
use firma::common::psbt::{
    KeySource, Network, OutPoint, Psbt, PsbtInput, PsbtOutput, Transaction, TxIn, TxOut,
    UnsignedTransaction, UnsignedTxIn,
};
use firma::common::weight::{checked_unsigned_weight, estimate_weight, signatures_needed};
use firma::offline::print::{
    derivation_paths, fee, input_row, is_mine, output_row, pretty_print, previous_output, sum,
};

const SCRIPT_A: &str = "00201863143c14c5166804bd19203356da136c985678cd4d27a1b8c6329604903262";
const ADDRESS_A: &str = "tb1qrp33g0q5c5txsp9arysrx4k6zdkfs4nce4xj0gdcccefvpysxf3q0sl5k7";
const SCRIPT_B: &str = "0020000000c4a5cad46221b2a187905e5266362b99d5e91c6ce24d165dab93e86433";
const ADDRESS_B: &str = "tb1qqqqqp399et2xygdj5xreqhjjvcmzhxw4aywxecjdzew6hylgvsesrxh6hy";

fn bytes(s: &str) -> Vec<u8> {
    hex::decode(s).unwrap()
}

fn txid_counting() -> [u8; 32] {
    let mut id = [0u8; 32];
    for i in 0..32 {
        id[i] = i as u8;
    }
    id
}

fn key(fingerprint: u32, path: Vec<u32>) -> KeySource {
    KeySource { public_key: vec![2; 33], fingerprint, path }
}

fn two_of_two_script() -> Vec<u8> {
    let mut script = vec![0x52u8];
    for k in 0..2u8 {
        script.push(0x21);
        script.push(0x02);
        script.extend(std::iter::repeat(k).take(32));
    }
    script.push(0x52);
    script.push(0xae);
    script
}

fn wallet() -> HashSet<u32> {
    let mut set = HashSet::new();
    set.insert(0xaabbccdd);
    set.insert(0x11223344);
    set
}

fn sample_psbt() -> Psbt {
    let keys = vec![key(0xaabbccdd, vec![0, 3]), key(0x11223344, vec![0, 3])];
    Psbt {
        unsigned_tx: UnsignedTransaction {
            version: 2,
            lock_time: 0,
            input: vec![UnsignedTxIn {
                previous_output: OutPoint { txid: txid_counting(), vout: 1 },
                sequence: 0xffff_fffe,
            }],
            output: vec![
                TxOut { value: 1_000_000, script_pubkey: bytes(SCRIPT_A) },
                TxOut { value: 98_999_578, script_pubkey: bytes(SCRIPT_B) },
            ],
        },
        inputs: vec![PsbtInput {
            non_witness_utxo: None,
            witness_utxo: Some(TxOut { value: 100_000_000, script_pubkey: bytes(SCRIPT_A) }),
            partial_sigs: vec![],
            redeem_script: None,
            witness_script: Some(two_of_two_script()),
            hd_keypaths: keys,
        }],
        outputs: vec![
            PsbtOutput {
                hd_keypaths: vec![key(0xaabbccdd, vec![0, 5]), key(0x11223344, vec![0, 5])],
            },
            PsbtOutput { hd_keypaths: vec![key(0xaabbccdd, vec![1, 0]), key(0x99999999, vec![1, 0])] },
        ],
    }
}

#[test]
fn pretty_print_rows_fee_sizes_and_warnings() {
    let view = pretty_print(&sample_psbt(), Network::Testnet, &wallet()).unwrap();
    assert_eq!(
        view.inputs,
        vec![
            "#0 1f1e1d1c1b1a191817161514131211100f0e0d0c0b0a09080706050403020100:1 (m/0/3) 100000000"
                .to_string()
        ]
    );
    assert_eq!(
        view.outputs,
        vec![
            format!("#0 {} {} (m/0/5 MINE) 1000000", SCRIPT_A, ADDRESS_A),
            format!("#1 {} {} (m/1/0) 98999578", SCRIPT_B, ADDRESS_B),
        ]
    );
    assert_eq!(view.fee.absolute, 422);
    assert_eq!(view.sizes.unsigned, 137);
    assert_eq!(view.sizes.estimated, (548 + 71 + 2 * 73) / 4);
    assert_eq!(view.info.len(), 2);
    assert!(view.info[0].contains("#Round_numbers"));
    assert!(view.info[1].contains("#Address_reuse"));
    assert!(!view.info.iter().any(|m| m.contains("#Sending_to_a_different_script_type")));
}

#[test]
fn pretty_print_address_depends_on_network() {
    let view = pretty_print(&sample_psbt(), Network::Regtest, &wallet()).unwrap();
    assert!(view.outputs[0].contains(" bcrt1q"));
    let view = pretty_print(&sample_psbt(), Network::Bitcoin, &wallet()).unwrap();
    assert!(view.outputs[0].contains(" bc1q"));
}

#[test]
fn pretty_print_refuses_both_or_neither_utxo() {
    let mut psbt = sample_psbt();
    psbt.inputs[0].witness_utxo = None;
    assert!(matches!(
        pretty_print(&psbt, Network::Testnet, &wallet()),
        Err(Error::PsbtInconsistent)
    ));
    let mut psbt = sample_psbt();
    psbt.inputs[0].non_witness_utxo =
        Some(Transaction { version: 1, lock_time: 0, input: vec![], output: vec![] });
    assert!(matches!(
        pretty_print(&psbt, Network::Testnet, &wallet()),
        Err(Error::PsbtInconsistent)
    ));
}

#[test]
fn pretty_print_refuses_wrong_counts() {
    let mut psbt = sample_psbt();
    psbt.outputs.pop();
    assert!(matches!(
        pretty_print(&psbt, Network::Testnet, &wallet()),
        Err(Error::PsbtInconsistent)
    ));
    let mut psbt = sample_psbt();
    psbt.inputs.clear();
    assert!(matches!(
        pretty_print(&psbt, Network::Testnet, &wallet()),
        Err(Error::PsbtInconsistent)
    ));
}

#[test]
fn pretty_print_refuses_script_without_address() {
    let mut psbt = sample_psbt();
    psbt.unsigned_tx.output[1].script_pubkey = vec![0x6a, 0x01, 0x00];
    match pretty_print(&psbt, Network::Testnet, &wallet()) {
        Err(Error::Parse(reason)) => assert_eq!(reason, "non default script"),
        other => panic!("{:?}", other),
    }
}

#[test]
fn pretty_print_refuses_outputs_above_inputs() {
    let mut psbt = sample_psbt();
    psbt.unsigned_tx.output[1].value = 99_000_001;
    assert!(matches!(
        pretty_print(&psbt, Network::Testnet, &wallet()),
        Err(Error::PsbtInconsistent)
    ));
    psbt.unsigned_tx.output[1].value = 99_000_000;
    assert_eq!(pretty_print(&psbt, Network::Testnet, &wallet()).unwrap().fee.absolute, 0);
}

#[test]
fn pretty_print_refuses_input_without_script() {
    let mut psbt = sample_psbt();
    psbt.inputs[0].witness_script = None;
    assert!(matches!(
        pretty_print(&psbt, Network::Testnet, &wallet()),
        Err(Error::PsbtInconsistent)
    ));
}

fn previous_transaction() -> (Transaction, [u8; 32]) {
    let model = Transaction {
        version: 2,
        lock_time: 7,
        input: vec![TxIn {
            previous_output: OutPoint { txid: [9u8; 32], vout: 3 },
            script_sig: vec![0x51],
            sequence: 0xffff_ffff,
            witness: vec![vec![1, 2, 3]],
        }],
        output: vec![
            TxOut { value: 5_000, script_pubkey: bytes(SCRIPT_B) },
            TxOut { value: 70_000, script_pubkey: bytes(SCRIPT_A) },
        ],
    };
    let real = bitcoin::Transaction {
        version: 2,
        lock_time: 7,
        input: vec![bitcoin::TxIn {
            previous_output: bitcoin::OutPoint {
                txid: bitcoin::hashes::Hash::from_inner([9u8; 32]),
                vout: 3,
            },
            script_sig: bitcoin::Script::from(vec![0x51]),
            sequence: 0xffff_ffff,
            witness: vec![vec![1, 2, 3]],
        }],
        output: vec![
            bitcoin::TxOut { value: 5_000, script_pubkey: bitcoin::Script::from(bytes(SCRIPT_B)) },
            bitcoin::TxOut { value: 70_000, script_pubkey: bitcoin::Script::from(bytes(SCRIPT_A)) },
        ],
    };
    let id: [u8; 32] = bitcoin::hashes::Hash::into_inner(real.txid());
    (model, id)
}

fn input_with(tx: Transaction) -> PsbtInput {
    PsbtInput {
        non_witness_utxo: Some(tx),
        witness_utxo: None,
        partial_sigs: vec![],
        redeem_script: None,
        witness_script: None,
        hd_keypaths: vec![],
    }
}

#[test]
fn previous_output_is_taken_from_the_previous_transaction() {
    let (tx, id) = previous_transaction();
    assert_ne!(id, [0u8; 32]);
    let input = input_with(tx);
    let coin = previous_output(&OutPoint { txid: id, vout: 1 }, &input).unwrap();
    assert_eq!(coin.value, 70_000);
    assert_eq!(coin.script_pubkey, bytes(SCRIPT_A));
    let coin = previous_output(&OutPoint { txid: id, vout: 0 }, &input).unwrap();
    assert_eq!(coin.value, 5_000);
}

#[test]
fn previous_output_needs_the_named_transaction_and_output() {
    let (tx, id) = previous_transaction();
    let input = input_with(tx);
    assert!(previous_output(&OutPoint { txid: id, vout: 2 }, &input).is_none());
    let mut other = id;
    other[0] ^= 1;
    assert!(previous_output(&OutPoint { txid: other, vout: 1 }, &input).is_none());
}

#[test]
fn derivation_paths_are_sorted_as_texts_and_unique() {
    let keys = vec![
        key(1, vec![0, 5]),
        key(2, vec![0, 10]),
        key(3, vec![0, 5]),
        key(4, vec![0x8000_002c, 0x8000_0000, 7]),
    ];
    assert_eq!(derivation_paths(&keys), "m/0/10, m/0/5, m/44'/0'/7");
    assert_eq!(derivation_paths(&vec![]), "");
    assert_eq!(derivation_paths(&vec![key(1, vec![])]), "m");
    assert_eq!(derivation_paths(&vec![key(1, vec![0xffff_ffff, 0x7fff_ffff])]), "m/2147483647'/2147483647");
}

#[test]
fn is_mine_needs_keys_and_all_of_them_known() {
    let w = wallet();
    assert_eq!(is_mine(&vec![], &w), "");
    assert_eq!(is_mine(&vec![key(0xaabbccdd, vec![0])], &w), " MINE");
    assert_eq!(is_mine(&vec![key(0xaabbccdd, vec![0]), key(0x11223344, vec![1])], &w), " MINE");
    assert_eq!(is_mine(&vec![key(0xaabbccdd, vec![0]), key(5, vec![1])], &w), "");
    assert_eq!(is_mine(&vec![key(0xaabbccdd, vec![0])], &HashSet::new()), "");
}

#[test]
fn rows_have_the_documented_form() {
    let row = input_row(12, &OutPoint { txid: [0xab; 32], vout: 0 }, &vec![], 0);
    assert_eq!(row, format!("#12 {}:0 () 0", "ab".repeat(32)));
    let out = TxOut { value: 18_446_744_073_709_551_615, script_pubkey: bytes(SCRIPT_A) };
    let row = output_row(3, &out, Network::Testnet, &vec![], &wallet()).unwrap();
    assert_eq!(row, format!("#3 {} {} () 18446744073709551615", SCRIPT_A, ADDRESS_A));
    let none = TxOut { value: 1, script_pubkey: vec![] };
    assert!(output_row(0, &none, Network::Testnet, &vec![], &wallet()).is_none());
}

#[test]
fn sum_and_fee() {
    assert_eq!(sum(&vec![]), Some(0));
    assert_eq!(sum(&vec![1, 2, 3]), Some(6));
    assert_eq!(sum(&vec![u64::MAX, 1]), None);
    assert_eq!(sum(&vec![u64::MAX - 1, 1]), Some(u64::MAX));
    assert_eq!(fee(&vec![10, 20], &vec![5, 6]).unwrap(), 19);
    assert!(matches!(fee(&vec![10], &vec![11]), Err(Error::PsbtInconsistent)));
    assert!(matches!(fee(&vec![u64::MAX, 1], &vec![1]), Err(Error::PsbtInconsistent)));
}

#[test]
fn weights() {
    let psbt = sample_psbt();
    assert_eq!(checked_unsigned_weight(&psbt.unsigned_tx), Some(548));
    assert_eq!(estimate_weight(&psbt).unwrap(), 548 + 71 + 2 * 73);
    assert_eq!(signatures_needed(&two_of_two_script()), 2);
    assert_eq!(signatures_needed(&vec![]), 1);
    assert_eq!(signatures_needed(&vec![0x60, 0xae]), 16);
    assert_eq!(signatures_needed(&vec![0x61, 0xae]), 1);
    assert_eq!(signatures_needed(&vec![0x51, 0xac]), 1);
    let mut legacy = sample_psbt();
    legacy.inputs[0].redeem_script = legacy.inputs[0].witness_script.take();
    assert_eq!(estimate_weight(&legacy).unwrap(), 548 + 4 * (71 + 2 * 73));
    let empty = UnsignedTransaction { version: 1, lock_time: 0, input: vec![], output: vec![] };
    assert_eq!(checked_unsigned_weight(&empty), Some(40));
}

#[test]
fn unsigned_weight_counts_long_scripts_and_many_outputs() {
    let mut tx = sample_psbt().unsigned_tx;
    tx.output[0].script_pubkey = vec![0u8; 253];
    // 4 + 1 + 41 + 1 + (8 + 3 + 253) + (8 + 1 + 34) + 4
    assert_eq!(checked_unsigned_weight(&tx), Some(4 * 358));
    let out = TxOut { value: 1, script_pubkey: vec![] };
    let tx = UnsignedTransaction { version: 1, lock_time: 0, input: vec![], output: vec![out; 253] };
    // 4 + 1 + 3 + 253 * 9 + 4
    assert_eq!(checked_unsigned_weight(&tx), Some(4 * 2289));
}
