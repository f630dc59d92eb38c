//! A partially signed transaction, as plain values.

use vstd::prelude::*;
use crate::common::text::{spec_decimal, spec_hex};

verus! {

/// The chain a wallet lives on.
#[derive(Clone, Copy, Debug, PartialEq, Eq, Structural)]
pub enum Network {
    Bitcoin,
    Testnet,
    Regtest,
}

/// The first four bytes of the hash of a master public key, as a big-endian number.
pub type Fingerprint = u32;

/// One step of a derivation path; the highest bit marks a hardened step.
pub type ChildNumber = u32;

/// A public key and where it comes from: the master key it descends from and
/// the path down to it.
#[derive(Clone, Debug)]
pub struct KeySource {
    /// The key, serialized.
    pub public_key: Vec<u8>,
    pub fingerprint: Fingerprint,
    pub path: Vec<ChildNumber>,
}

/// A signature of one input, and the public key that it is made for.
#[derive(Clone, Debug)]
pub struct PartialSig {
    /// The key, serialized.
    pub public_key: Vec<u8>,
    /// The signature as it goes on the stack: DER, then the byte that says
    /// what is signed.
    pub signature: Vec<u8>,
}

/// A reference to one output of a transaction.
#[derive(Clone, Copy, Debug)]
pub struct OutPoint {
    /// The transaction's identifier, in the byte order of the hash.
    pub txid: [u8; 32],
    pub vout: u32,
}

/// An amount and the script that guards it.
#[derive(Clone, Debug)]
pub struct TxOut {
    /// Satoshi.
    pub value: u64,
    pub script_pubkey: Vec<u8>,
}

/// A transaction input.
#[derive(Clone, Debug)]
pub struct TxIn {
    pub previous_output: OutPoint,
    pub script_sig: Vec<u8>,
    pub sequence: u32,
    pub witness: Vec<Vec<u8>>,
}

/// A transaction.
#[derive(Clone, Debug)]
pub struct Transaction {
    pub version: u32,
    pub lock_time: u32,
    pub input: Vec<TxIn>,
    pub output: Vec<TxOut>,
}

/// An input that is yet to be signed: it has neither script nor witness.
#[derive(Clone, Copy, Debug)]
pub struct UnsignedTxIn {
    pub previous_output: OutPoint,
    pub sequence: u32,
}

/// A transaction none of whose inputs is signed.
#[derive(Clone, Debug)]
pub struct UnsignedTransaction {
    pub version: u32,
    pub lock_time: u32,
    pub input: Vec<UnsignedTxIn>,
    pub output: Vec<TxOut>,
}

/// What a partially signed transaction knows of one input.
#[derive(Clone, Debug)]
pub struct PsbtInput {
    /// The whole transaction that made the coin being spent.
    pub non_witness_utxo: Option<Transaction>,
    /// The coin being spent.
    pub witness_utxo: Option<TxOut>,
    /// The signatures gathered so far.
    pub partial_sigs: Vec<PartialSig>,
    pub redeem_script: Option<Vec<u8>>,
    pub witness_script: Option<Vec<u8>>,
    /// The keys that can sign for this input, in the order of their public keys.
    pub hd_keypaths: Vec<KeySource>,
}

/// What a partially signed transaction knows of one output.
#[derive(Clone, Debug)]
pub struct PsbtOutput {
    /// The keys that can spend this output, in the order of their public keys.
    pub hd_keypaths: Vec<KeySource>,
}

/// A partially signed transaction.
#[derive(Clone, Debug)]
pub struct Psbt {
    /// The transaction to be signed.
    pub unsigned_tx: UnsignedTransaction,
    /// One entry for each input of `unsigned_tx`.
    pub inputs: Vec<PsbtInput>,
    /// One entry for each output of `unsigned_tx`.
    pub outputs: Vec<PsbtOutput>,
}

/// One step of a path as text: the index, and an apostrophe after a hardened one.
pub open spec fn spec_child_text(n: ChildNumber) -> Seq<char> {
    if n >= 0x8000_0000 {
        spec_decimal((n - 0x8000_0000) as nat).push('\'')
    } else {
        spec_decimal(n as nat)
    }
}

/// A derivation path as text: `m`, then a slash and the step for each step.
pub open spec fn spec_path_text(path: Seq<ChildNumber>) -> Seq<char>
    decreases path.len(),
{
    if path.len() == 0 {
        seq!['m']
    } else {
        spec_path_text(path.drop_last()).push('/') + spec_child_text(path.last())
    }
}

/// An outpoint as text: the identifier in hexadecimal, last byte first, a colon,
/// the output's index.
pub open spec fn spec_outpoint_text(outpoint: OutPoint) -> Seq<char> {
    spec_hex(outpoint.txid@.reverse()).push(':') + spec_decimal(outpoint.vout as nat)
}

/// The identifier of a transaction: the double SHA-256 of its serialization
/// without witnesses.
pub uninterp spec fn spec_txid(tx: Transaction) -> Seq<u8>;

/// The bytes that a count or a length takes in a serialized transaction.
pub open spec fn spec_varint_len(n: nat) -> nat {
    if n <= 0xFC {
        1
    } else if n <= 0xFFFF {
        3
    } else if n <= 0xFFFF_FFFF {
        5
    } else {
        9
    }
}

/// The bytes that the outputs take in a serialized transaction: for each the
/// amount, the script's length and the script.
pub open spec fn spec_outputs_size(outputs: Seq<TxOut>) -> nat
    decreases outputs.len(),
{
    if outputs.len() == 0 {
        0
    } else {
        spec_outputs_size(outputs.drop_last()) + 8 + spec_varint_len(
            outputs.last().script_pubkey@.len(),
        ) + outputs.last().script_pubkey@.len()
    }
}

/// The weight of an unsigned transaction: four times its serialized size. That
/// is version and lock time, the two counts, 41 bytes for each input (outpoint,
/// empty script, sequence) and the outputs.
pub open spec fn spec_unsigned_weight(tx: UnsignedTransaction) -> nat {
    4 * (8 + spec_varint_len(tx.input@.len()) + spec_varint_len(tx.output@.len())
        + spec_outputs_size(tx.output@)) + 4 * 41 * tx.input@.len()
}

/// Formats a `bitcoin::util::bip32::DerivationPath` with `{:?}`, which writes
/// `m` and then for each step a slash, the index in decimal and an apostrophe
/// if the step is hardened.
#[verifier::external_body]
pub(crate) fn path_text(path: &Vec<ChildNumber>) -> (text: String)
    ensures
        text@ == spec_path_text(path@),
{
    let steps: Vec<bitcoin::util::bip32::ChildNumber> = path.iter().map(|n| (*n).into()).collect();
    format!("{:?}", bitcoin::util::bip32::DerivationPath::from(steps))
}

/// Formats a `bitcoin::OutPoint` with `{}`, which writes the identifier in
/// lower-case hexadecimal from its last byte to its first, a colon and the
/// index in decimal.
#[verifier::external_body]
pub(crate) fn outpoint_text(outpoint: &OutPoint) -> (text: String)
    ensures
        text@ == spec_outpoint_text(*outpoint),
{
    let txid = <bitcoin::Txid as bitcoin::hashes::Hash>::from_inner(outpoint.txid);
    format!("{}", bitcoin::OutPoint { txid, vout: outpoint.vout })
}

/// Calls `bitcoin::Transaction::txid`, which hashes the transaction's
/// serialization; the result is a function of the transaction alone.
#[verifier::external_body]
pub(crate) fn tx_id(tx: &Transaction) -> (id: [u8; 32])
    ensures
        id@ == spec_txid(*tx),
{
    let input = tx.input.iter().map(|i| bitcoin::TxIn {
        previous_output: bitcoin::OutPoint::new(
            bitcoin::hashes::Hash::from_inner(i.previous_output.txid), i.previous_output.vout),
        script_sig: i.script_sig.clone().into(),
        sequence: i.sequence,
        witness: i.witness.clone(),
    }).collect();
    let output = tx.output.iter().map(|o| bitcoin::TxOut {
        value: o.value, script_pubkey: o.script_pubkey.clone().into(),
    }).collect();
    let tx = bitcoin::Transaction { version: tx.version, lock_time: tx.lock_time, input, output };
    bitcoin::hashes::Hash::into_inner(tx.txid())
}

/// Calls `bitcoin::Transaction::get_weight` on the transaction with empty
/// input scripts and no witnesses, for which it gives four times the
/// serialized size. The sums it forms are at most the result.
#[verifier::external_body]
pub(crate) fn unsigned_weight(tx: &UnsignedTransaction) -> (weight: usize)
    requires
        spec_unsigned_weight(*tx) <= usize::MAX,
    ensures
        weight == spec_unsigned_weight(*tx),
{
    let input = tx.input.iter().map(|i| bitcoin::TxIn {
        previous_output: bitcoin::OutPoint::new(
            bitcoin::hashes::Hash::from_inner(i.previous_output.txid), i.previous_output.vout),
        script_sig: bitcoin::Script::new(),
        sequence: i.sequence,
        witness: Vec::new(),
    }).collect();
    let output = tx.output.iter().map(|o| bitcoin::TxOut {
        value: o.value, script_pubkey: o.script_pubkey.clone().into(),
    }).collect();
    bitcoin::Transaction { version: tx.version, lock_time: tx.lock_time, input, output }.get_weight()
}

} // verus!
