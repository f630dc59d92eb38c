use std::collections::HashSet;

use bitcoin::secp256k1::{Message, Secp256k1, Signature};
use bitcoin::util::bip32::{ChildNumber, ExtendedPrivKey};
use firma::common::error::Error;
use firma::common::key::MasterKeyJson;
use firma::common::psbt::{
    KeySource, Network, OutPoint, PartialSig, Psbt, PsbtInput, PsbtOutput, Transaction, TxIn, TxOut,
    UnsignedTransaction, UnsignedTxIn,
};
use firma::offline::sign::{check_signable, has_candidate, is_candidate, sign, signed_by};

const XPRV: &str = "xprv9s21ZrQH143K3QTDL4LXw2F7HEK3wJUD2nW2nRk4stbPy6cq3jPPqjiChkVvvNKmPGJxWUtg6LnF5kejMRNNU3TGtRBeJgk33yuGBxrMPHi";
const XPUB: &str = "xpub661MyMwAqRbcFtXgS5sYJABqqG9YLmC4Q1Rdap9gSE8NqtwybGhePY2gZ29ESFjqJoCu1Rupje8YtGqsefD265TMg7usUDFdp6W1EGMcet8";
const FINGERPRINT: u32 = 0x3442193e;

fn private_key() -> MasterKeyJson {
    MasterKeyJson {
        xpub: XPUB.to_string(),
        xprv: Some(XPRV.to_string()),
        fingerprint: FINGERPRINT,
        network: Network::Bitcoin,
    }
}

fn public_key() -> MasterKeyJson {
    MasterKeyJson { xprv: None, ..private_key() }
}

fn wallet() -> HashSet<u32> {
    let mut set = HashSet::new();
    set.insert(FINGERPRINT);
    set.insert(0xbd16bee5);
    set
}

fn child_public_key(path: &[u32]) -> Vec<u8> {
    let secp = Secp256k1::new();
    let master: ExtendedPrivKey = XPRV.parse().unwrap();
    let steps: Vec<ChildNumber> = path.iter().map(|n| ChildNumber::from(*n)).collect();
    master.derive_priv(&secp, &steps).unwrap().private_key.public_key(&secp).to_bytes()
}

fn multisig(keys: &[Vec<u8>]) -> Vec<u8> {
    let mut script = vec![0x51u8];
    for k in keys {
        script.push(k.len() as u8);
        script.extend(k);
    }
    script.push(0x50 + keys.len() as u8);
    script.push(0xae);
    script
}

fn p2wsh(witness_script: &[u8]) -> Vec<u8> {
    bitcoin::Script::from(witness_script.to_vec()).to_v0_p2wsh().into_bytes()
}

fn unsigned_tx(outputs: Vec<TxOut>) -> UnsignedTransaction {
    UnsignedTransaction {
        version: 2,
        lock_time: 0,
        input: vec![UnsignedTxIn {
            previous_output: OutPoint { txid: [7u8; 32], vout: 0 },
            sequence: 0xffff_fffe,
        }],
        output: outputs,
    }
}

fn witness_psbt(path: Vec<u32>) -> (Psbt, Vec<u8>, Vec<u8>) {
    let mine = child_public_key(&path);
    let other = vec![3u8; 33];
    let script = multisig(&[mine.clone(), other.clone()]);
    let coin = TxOut { value: 50_000, script_pubkey: p2wsh(&script) };
    let psbt = Psbt {
        unsigned_tx: unsigned_tx(vec![TxOut { value: 49_000, script_pubkey: p2wsh(&script) }]),
        inputs: vec![PsbtInput {
            non_witness_utxo: None,
            witness_utxo: Some(coin),
            partial_sigs: vec![],
            redeem_script: None,
            witness_script: Some(script.clone()),
            hd_keypaths: vec![
                KeySource { public_key: mine.clone(), fingerprint: FINGERPRINT, path },
                KeySource { public_key: other, fingerprint: 0xbd16bee5, path: vec![0, 5] },
            ],
        }],
        outputs: vec![PsbtOutput { hd_keypaths: vec![] }],
    };
    (psbt, mine, script)
}

fn real_tx(tx: &UnsignedTransaction) -> bitcoin::Transaction {
    bitcoin::Transaction {
        version: tx.version,
        lock_time: tx.lock_time,
        input: tx
            .input
            .iter()
            .map(|i| bitcoin::TxIn {
                previous_output: bitcoin::OutPoint {
                    txid: bitcoin::hashes::Hash::from_inner(i.previous_output.txid),
                    vout: i.previous_output.vout,
                },
                script_sig: bitcoin::Script::new(),
                sequence: i.sequence,
                witness: vec![],
            })
            .collect(),
        output: tx
            .output
            .iter()
            .map(|o| bitcoin::TxOut {
                value: o.value,
                script_pubkey: bitcoin::Script::from(o.script_pubkey.clone()),
            })
            .collect(),
    }
}

fn assert_valid(sig: &PartialSig, hash: [u8; 32]) {
    let (last, der) = sig.signature.split_last().unwrap();
    assert_eq!(*last, 0x01);
    let secp = Secp256k1::new();
    let signature = Signature::from_der(der).unwrap();
    let key = bitcoin::secp256k1::PublicKey::from_slice(&sig.public_key).unwrap();
    secp.verify(&Message::from_slice(&hash).unwrap(), &signature, &key).unwrap();
}

#[test]
fn sign_adds_a_valid_witness_signature() {
    let (mut psbt, mine, script) = witness_psbt(vec![0, 5]);
    let view = sign(&mut psbt, &private_key(), &wallet(), Network::Regtest, 20).unwrap();
    assert_eq!(view.fee.absolute, 1_000);
    assert_eq!(view.inputs.len(), 1);
    assert!(view.info.iter().any(|m| m.contains("#Address_reuse")));
    assert_eq!(psbt.inputs[0].partial_sigs.len(), 1);
    assert_eq!(psbt.inputs[0].partial_sigs[0].public_key, mine);
    let tx = real_tx(&psbt.unsigned_tx);
    let hash = bitcoin::util::bip143::SighashComponents::new(&tx).sighash_all(
        &tx.input[0],
        &bitcoin::Script::from(script),
        50_000,
    );
    assert_valid(&psbt.inputs[0].partial_sigs[0], bitcoin::hashes::Hash::into_inner(hash));
    assert!(signed_by(&psbt, FINGERPRINT));
    assert!(!signed_by(&psbt, 0xbd16bee5));
}

#[test]
fn sign_twice_with_the_same_key_is_refused() {
    let (mut psbt, _, _) = witness_psbt(vec![1, 19]);
    sign(&mut psbt, &private_key(), &wallet(), Network::Regtest, 20).unwrap();
    let signed = psbt.inputs[0].partial_sigs.clone();
    assert_eq!(signed.len(), 1);
    let again = sign(&mut psbt, &private_key(), &wallet(), Network::Regtest, 20);
    assert!(matches!(again, Err(Error::AlreadySigned)));
    assert_eq!(psbt.inputs[0].partial_sigs.len(), 1);
    assert_eq!(psbt.inputs[0].partial_sigs[0].signature, signed[0].signature);
}

#[test]
fn sign_is_the_same_every_time() {
    let (mut a, _, _) = witness_psbt(vec![0, 5]);
    let (mut b, _, _) = witness_psbt(vec![0, 5]);
    sign(&mut a, &private_key(), &wallet(), Network::Regtest, 20).unwrap();
    sign(&mut b, &private_key(), &wallet(), Network::Regtest, 20).unwrap();
    assert_eq!(a.inputs[0].partial_sigs[0].signature, b.inputs[0].partial_sigs[0].signature);
}

#[test]
fn sign_needs_the_private_part() {
    let (mut psbt, _, _) = witness_psbt(vec![0, 5]);
    match sign(&mut psbt, &public_key(), &wallet(), Network::Regtest, 20) {
        Err(Error::MissingField(field)) => assert_eq!(field, "xprv"),
        other => panic!("{:?}", other),
    }
    assert!(psbt.inputs[0].partial_sigs.is_empty());
}

#[test]
fn sign_needs_a_key_of_the_wallet() {
    let (mut psbt, _, _) = witness_psbt(vec![0, 5]);
    let mut others = HashSet::new();
    others.insert(0xbd16bee5u32);
    assert!(matches!(
        sign(&mut psbt, &private_key(), &others, Network::Regtest, 20),
        Err(Error::UnrelatedKey)
    ));
    assert!(matches!(check_signable(&psbt, &private_key(), &others), Err(Error::UnrelatedKey)));
    assert!(check_signable(&psbt, &private_key(), &wallet()).is_ok());
    // the missing private part is told first
    assert!(matches!(check_signable(&psbt, &public_key(), &others), Err(Error::MissingField(_))));
}

#[test]
fn sign_looks_at_two_chains_and_indexes_below_the_bound() {
    for path in [vec![0, 20], vec![2, 0], vec![0], vec![0, 0, 0], vec![0x8000_0000, 1]] {
        let source = KeySource { public_key: vec![], fingerprint: FINGERPRINT, path: path.clone() };
        assert!(!is_candidate(&source, FINGERPRINT, 20));
        let (mut psbt, _, _) = witness_psbt(path);
        sign(&mut psbt, &private_key(), &wallet(), Network::Regtest, 20).unwrap();
        assert!(psbt.inputs[0].partial_sigs.is_empty());
    }
    for path in [vec![0, 0], vec![1, 0], vec![0, 19], vec![1, 19]] {
        let source = KeySource { public_key: vec![], fingerprint: FINGERPRINT, path };
        assert!(is_candidate(&source, FINGERPRINT, 20));
        assert!(!is_candidate(&source, FINGERPRINT + 1, 20));
        assert!(has_candidate(&vec![source.clone()], FINGERPRINT, 20));
        assert!(!has_candidate(&vec![source], FINGERPRINT, 0));
    }
    assert!(!has_candidate(&vec![], FINGERPRINT, 20));
}

#[test]
fn sign_refuses_a_private_key_that_is_none() {
    let (mut psbt, _, _) = witness_psbt(vec![0, 5]);
    let broken = MasterKeyJson { xprv: Some("xprv9s21ZrQH143K".to_string()), ..private_key() };
    assert!(matches!(
        sign(&mut psbt, &broken, &wallet(), Network::Regtest, 20),
        Err(Error::Parse(_))
    ));
    assert!(psbt.inputs[0].partial_sigs.is_empty());
}

#[test]
fn sign_refuses_a_witness_input_without_witness_script() {
    let (mut psbt, _, script) = witness_psbt(vec![0, 5]);
    psbt.inputs[0].witness_script = None;
    psbt.inputs[0].redeem_script = Some(script);
    assert!(matches!(
        sign(&mut psbt, &private_key(), &wallet(), Network::Regtest, 20),
        Err(Error::PsbtInconsistent)
    ));
    assert!(psbt.inputs[0].partial_sigs.is_empty());
}

#[test]
fn sign_adds_a_valid_legacy_signature() {
    let mine = child_public_key(&[1, 2]);
    let script = multisig(&[mine.clone()]);
    let p2sh = bitcoin::Script::from(script.clone()).to_p2sh().into_bytes();
    let previous = Transaction {
        version: 1,
        lock_time: 0,
        input: vec![TxIn {
            previous_output: OutPoint { txid: [1u8; 32], vout: 0 },
            script_sig: vec![],
            sequence: 0xffff_ffff,
            witness: vec![],
        }],
        output: vec![TxOut { value: 9_000, script_pubkey: p2sh.clone() }],
    };
    let real_previous = bitcoin::Transaction {
        version: 1,
        lock_time: 0,
        input: vec![bitcoin::TxIn {
            previous_output: bitcoin::OutPoint {
                txid: bitcoin::hashes::Hash::from_inner([1u8; 32]),
                vout: 0,
            },
            script_sig: bitcoin::Script::new(),
            sequence: 0xffff_ffff,
            witness: vec![],
        }],
        output: vec![bitcoin::TxOut { value: 9_000, script_pubkey: bitcoin::Script::from(p2sh.clone()) }],
    };
    let mut tx = unsigned_tx(vec![TxOut { value: 8_000, script_pubkey: p2sh }]);
    tx.input[0].previous_output.txid = bitcoin::hashes::Hash::into_inner(real_previous.txid());
    let mut psbt = Psbt {
        unsigned_tx: tx,
        inputs: vec![PsbtInput {
            non_witness_utxo: Some(previous),
            witness_utxo: None,
            partial_sigs: vec![],
            redeem_script: Some(script.clone()),
            witness_script: None,
            hd_keypaths: vec![KeySource {
                public_key: mine.clone(),
                fingerprint: FINGERPRINT,
                path: vec![1, 2],
            }],
        }],
        outputs: vec![PsbtOutput { hd_keypaths: vec![] }],
    };
    let view = sign(&mut psbt, &private_key(), &wallet(), Network::Bitcoin, 20).unwrap();
    assert_eq!(view.fee.absolute, 1_000);
    assert_eq!(psbt.inputs[0].partial_sigs.len(), 1);
    let hash = real_tx(&psbt.unsigned_tx).signature_hash(0, &bitcoin::Script::from(script), 1);
    assert_valid(&psbt.inputs[0].partial_sigs[0], bitcoin::hashes::Hash::into_inner(hash));
}

#[test]
fn sign_keeps_the_signatures_that_are_there() {
    let (mut psbt, mine, _) = witness_psbt(vec![0, 5]);
    psbt.inputs[0]
        .partial_sigs
        .push(PartialSig { public_key: vec![3u8; 33], signature: vec![0x30, 0x01] });
    assert!(signed_by(&psbt, 0xbd16bee5));
    sign(&mut psbt, &private_key(), &wallet(), Network::Regtest, 20).unwrap();
    assert_eq!(psbt.inputs[0].partial_sigs.len(), 2);
    assert_eq!(psbt.inputs[0].partial_sigs[0].signature, vec![0x30, 0x01]);
    assert_eq!(psbt.inputs[0].partial_sigs[1].public_key, mine);
}

fn key_at_depth(depth: u8) -> MasterKeyJson {
    let mut key: ExtendedPrivKey = XPRV.parse().unwrap();
    key.depth = depth;
    MasterKeyJson { xprv: Some(key.to_string()), ..private_key() }
}

#[test]
fn sign_refuses_a_path_deeper_than_a_key_can_count() {
    for depth in [254u8, 255] {
        let (mut psbt, _, _) = witness_psbt(vec![0, 5]);
        assert!(matches!(
            sign(&mut psbt, &key_at_depth(depth), &wallet(), Network::Regtest, 20),
            Err(Error::Parse(_))
        ));
        assert!(psbt.inputs[0].partial_sigs.is_empty());
    }
}

#[test]
fn sign_goes_as_deep_as_a_key_can_count() {
    let (mut psbt, mine, script) = witness_psbt(vec![0, 5]);
    sign(&mut psbt, &key_at_depth(253), &wallet(), Network::Regtest, 20).unwrap();
    assert_eq!(psbt.inputs[0].partial_sigs.len(), 1);
    assert_eq!(psbt.inputs[0].partial_sigs[0].public_key, mine);
    let tx = real_tx(&psbt.unsigned_tx);
    let hash = bitcoin::util::bip143::SighashComponents::new(&tx).sighash_all(
        &tx.input[0],
        &bitcoin::Script::from(script),
        50_000,
    );
    assert_valid(&psbt.inputs[0].partial_sigs[0], bitcoin::hashes::Hash::into_inner(hash));
}
