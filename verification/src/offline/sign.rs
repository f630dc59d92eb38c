//! Signing a partially signed transaction with one of the wallet's keys.

use bitcoin::util::bip143::SighashComponents;
use std::collections::HashSet;
use vstd::prelude::*;
use vstd::string::*;
use crate::common::error::Error;
use crate::common::key::MasterKeyJson;
use crate::common::psbt::{
    ChildNumber, Fingerprint, KeySource, Network, PartialSig, Psbt, PsbtInput, UnsignedTransaction,
};
use crate::offline::print::{
    pretty_print, previous_output, spec_addressable, spec_coin_at, spec_inputs_consistent,
    spec_is_view, spec_printable, PsbtPrettyPrint, NO_ADDRESS,
};
use crate::offline::privacy::same_bytes;

verus! {

/// The secret key that descends from the extended private key that the text
/// spells, along the path; none if the text spells no such key or the path
/// leads to none.
pub uninterp spec fn spec_derived_secret(xprv: Seq<char>, path: Seq<ChildNumber>) -> Option<
    Seq<u8>,
>;

/// How many steps below its master key the extended private key stands that
/// the text spells; none if the text spells no such key.
pub uninterp spec fn spec_xprv_depth(xprv: Seq<char>) -> Option<u8>;

/// The hash that a signature of a witness input commits to: that of the
/// transaction digest for signing all inputs and outputs, made with the
/// script and the amount of the coin.
pub uninterp spec fn spec_witness_sighash(
    tx: UnsignedTransaction,
    index: int,
    script: Seq<u8>,
    value: u64,
) -> Seq<u8>;

/// The hash that a signature of an input without witness commits to: that of
/// the transaction with the script in the place of the input's, for signing
/// what `sighash_type` says.
pub uninterp spec fn spec_legacy_sighash(
    tx: UnsignedTransaction,
    index: int,
    script: Seq<u8>,
    sighash_type: u32,
) -> Seq<u8>;

/// The signature of the hash with the secret key, in DER; none if the bytes
/// are no secret key or the hash is none that can be signed.
pub uninterp spec fn spec_ecdsa(secret: Seq<u8>, hash: Seq<u8>) -> Option<Seq<u8>>;

/// Parses the text as a `bitcoin::util::bip32::ExtendedPrivKey` and hands out
/// its field `depth`, which the parser takes from the text.
#[verifier::external_body]
pub(crate) fn xprv_depth(xprv: &str) -> (depth: Option<u8>)
    ensures
        depth == spec_xprv_depth(xprv@),
{
    let key: Result<bitcoin::util::bip32::ExtendedPrivKey, _> = xprv.parse();
    key.ok().map(|k| k.depth)
}

/// The path leads no deeper than the 255 steps that an extended key can
/// count, from the key that the text spells.
pub open spec fn spec_depth_allows(xprv: Seq<char>, path: Seq<ChildNumber>) -> bool {
    spec_xprv_depth(xprv) matches Some(depth) ==> depth + path.len() <= 255
}

/// Parses the text as a `bitcoin::util::bip32::ExtendedPrivKey` and calls its
/// `derive_priv` with the path; the bytes of the private key it gives depend
/// on the text and the path alone. Each step adds one to the key's depth, a
/// byte, so the path must leave the depth within a byte.
#[verifier::external_body]
pub(crate) fn derived_secret(xprv: &str, path: &Vec<ChildNumber>) -> (secret: Option<Vec<u8>>)
    requires
        spec_depth_allows(xprv@, path@),
    ensures
        match secret {
            Some(s) => spec_derived_secret(xprv@, path@) == Some(s@),
            None => spec_derived_secret(xprv@, path@) is None,
        },
{
    let key: bitcoin::util::bip32::ExtendedPrivKey = xprv.parse().ok()?;
    let steps: Vec<bitcoin::util::bip32::ChildNumber> = path.iter().map(|n| (*n).into()).collect();
    let child = key.derive_priv(&bitcoin::secp256k1::Secp256k1::signing_only(), &steps).ok()?;
    Some(child.private_key.to_bytes())
}

/// Calls `bitcoin::util::bip143::SighashComponents::sighash_all` for the
/// input at `index`, which is for signing all inputs and outputs; the hash
/// depends on the transaction, the index, the script and the amount alone.
#[verifier::external_body]
pub(crate) fn witness_sighash(tx: &UnsignedTransaction, index: usize, script: &Vec<u8>, value: u64) -> (hash:
    [u8; 32])
    requires
        index < tx.input@.len(),
    ensures
        hash@ == spec_witness_sighash(*tx, index as int, script@, value),
{
    let input = tx.input.iter().map(|i| bitcoin::TxIn {
        previous_output: bitcoin::OutPoint::new(
            bitcoin::hashes::Hash::from_inner(i.previous_output.txid), i.previous_output.vout),
        script_sig: bitcoin::Script::new(),
        sequence: i.sequence,
        witness: Vec::new(),
    }).collect();
    let output = tx.output.iter().map(|o| bitcoin::TxOut {
        value: o.value, script_pubkey: o.script_pubkey.clone().into(),
    }).collect();
    let tx = bitcoin::Transaction { version: tx.version, lock_time: tx.lock_time, input, output };
    let parts = SighashComponents::new(&tx);
    bitcoin::hashes::Hash::into_inner(parts.sighash_all(&tx.input[index], &script.clone().into(), value))
}

/// Calls `bitcoin::Transaction::signature_hash` for the input at `index`;
/// the hash depends on the transaction, the index, the script and the type
/// alone.
#[verifier::external_body]
pub(crate) fn legacy_sighash(
    tx: &UnsignedTransaction,
    index: usize,
    script: &Vec<u8>,
    sighash_type: u32,
) -> (hash: [u8; 32])
    requires
        index < tx.input@.len(),
    ensures
        hash@ == spec_legacy_sighash(*tx, index as int, script@, sighash_type),
{
    let input = tx.input.iter().map(|i| bitcoin::TxIn {
        previous_output: bitcoin::OutPoint::new(
            bitcoin::hashes::Hash::from_inner(i.previous_output.txid), i.previous_output.vout),
        script_sig: bitcoin::Script::new(),
        sequence: i.sequence,
        witness: Vec::new(),
    }).collect();
    let output = tx.output.iter().map(|o| bitcoin::TxOut {
        value: o.value, script_pubkey: o.script_pubkey.clone().into(),
    }).collect();
    let tx = bitcoin::Transaction { version: tx.version, lock_time: tx.lock_time, input, output };
    bitcoin::hashes::Hash::into_inner(tx.signature_hash(index, &script.clone().into(), sighash_type))
}

/// Calls `secp256k1::Secp256k1::sign`, which takes its nonce from key and
/// message, and serializes the signature in DER; there is none if
/// `secp256k1` refuses the bytes as a secret key or the hash as a message.
#[verifier::external_body]
pub(crate) fn ecdsa(secret: &Vec<u8>, hash: &[u8; 32]) -> (der: Option<Vec<u8>>)
    ensures
        match der {
            Some(d) => spec_ecdsa(secret@, hash@) == Some(d@),
            None => spec_ecdsa(secret@, hash@) is None,
        },
{
    let key = bitcoin::secp256k1::SecretKey::from_slice(secret).ok()?;
    let message = bitcoin::secp256k1::Message::from_slice(hash).ok()?;
    let signer = bitcoin::secp256k1::Secp256k1::signing_only();
    Some(signer.sign(&message, &key).serialize_der().to_vec())
}

/// The byte after a signature that says that all inputs and outputs are signed.
pub const SIGHASH_ALL: u8 = 0x01;

/// The key is one that the signer answers for: it descends from the signer's
/// master key by two steps, the chain (external or change) and an index below
/// `total`.
pub open spec fn spec_candidate(source: KeySource, fingerprint: Fingerprint, total: u32) -> bool {
    &&& source.fingerprint == fingerprint
    &&& source.path@.len() == 2
    &&& source.path@[0] <= 1
    &&& source.path@[1] < total
}

/// Whether the signer answers for the key.
pub fn is_candidate(source: &KeySource, fingerprint: Fingerprint, total: u32) -> (b: bool)
    ensures
        b == spec_candidate(*source, fingerprint, total),
{
    source.fingerprint == fingerprint && source.path.len() == 2 && source.path[0] <= 1
        && source.path[1] < total
}

/// The signer answers for one of the keys.
pub open spec fn spec_has_candidate(sources: Seq<KeySource>, fingerprint: Fingerprint, total: u32) -> bool {
    exists|k: int| 0 <= k < sources.len() && spec_candidate(#[trigger] sources[k], fingerprint, total)
}

/// Whether the signer answers for one of the keys.
pub fn has_candidate(sources: &Vec<KeySource>, fingerprint: Fingerprint, total: u32) -> (b: bool)
    ensures
        b == spec_has_candidate(sources@, fingerprint, total),
{
    let mut k: usize = 0;
    while k < sources.len()
        invariant
            k <= sources.len(),
            forall|j: int| 0 <= j < k ==> !spec_candidate(#[trigger] sources@[j], fingerprint, total),
        decreases sources.len() - k,
    {
        if is_candidate(&sources[k], fingerprint, total) {
            return true;
        }
        k = k + 1;
    }
    false
}

/// The hash that a signature of input `i` commits to. A coin that is given
/// by itself is spent by witness, with the witness script; a coin that is
/// given by its transaction is spent without, with the redeem script or else
/// the script of the coin. There is none if the input does not say which coin
/// it spends, or the witness script is missing.
pub open spec fn spec_sighash(psbt: Psbt, i: int) -> Option<Seq<u8>> {
    let input = psbt.inputs@[i];
    match spec_coin_at(psbt, i) {
        Some(coin) => if input.witness_utxo is Some {
            match input.witness_script {
                Some(script) => Some(
                    spec_witness_sighash(psbt.unsigned_tx, i, script@, coin.value),
                ),
                None => None,
            }
        } else {
            match input.redeem_script {
                Some(script) => Some(
                    spec_legacy_sighash(psbt.unsigned_tx, i, script@, SIGHASH_ALL as u32),
                ),
                None => Some(
                    spec_legacy_sighash(
                        psbt.unsigned_tx,
                        i,
                        coin.script_pubkey@,
                        SIGHASH_ALL as u32,
                    ),
                ),
            }
        },
        None => None,
    }
}

/// The hash that a signature of input `i` commits to.
pub fn sighash(psbt: &Psbt, i: usize) -> (hash: Option<[u8; 32]>)
    requires
        i < psbt.unsigned_tx.input@.len(),
        i < psbt.inputs@.len(),
    ensures
        match hash {
            Some(h) => spec_sighash(*psbt, i as int) == Some(h@),
            None => spec_sighash(*psbt, i as int) is None,
        },
{
    let input = &psbt.inputs[i];
    let coin = match previous_output(&psbt.unsigned_tx.input[i].previous_output, input) {
        Some(c) => c,
        None => {
            return None;
        },
    };
    if input.witness_utxo.is_some() {
        match &input.witness_script {
            Some(script) => Some(witness_sighash(&psbt.unsigned_tx, i, script, coin.value)),
            None => None,
        }
    } else {
        match &input.redeem_script {
            Some(script) => Some(legacy_sighash(&psbt.unsigned_tx, i, script, SIGHASH_ALL as u32)),
            None => Some(
                legacy_sighash(&psbt.unsigned_tx, i, &coin.script_pubkey, SIGHASH_ALL as u32),
            ),
        }
    }
}

/// The signature of the hash with the key that descends from `xprv` along
/// the path, as it goes on the stack: DER, then the byte for signing all.
/// There is none where the path leads deeper than an extended key can count.
pub open spec fn spec_signature(xprv: Seq<char>, path: Seq<ChildNumber>, hash: Seq<u8>) -> Option<
    Seq<u8>,
> {
    if !spec_depth_allows(xprv, path) {
        None
    } else {
        match spec_derived_secret(xprv, path) {
            Some(secret) => match spec_ecdsa(secret, hash) {
                Some(der) => Some(der.push(SIGHASH_ALL)),
                None => None,
            },
            None => None,
        }
    }
}

/// Signs the hash with the key that descends from `xprv` along the path.
pub fn signature(xprv: &str, path: &Vec<ChildNumber>, hash: &[u8; 32]) -> (sig: Option<Vec<u8>>)
    ensures
        match sig {
            Some(s) => spec_signature(xprv@, path@, hash@) == Some(s@),
            None => spec_signature(xprv@, path@, hash@) is None,
        },
{
    match xprv_depth(xprv) {
        Some(depth) => {
            if path.len() > 255 - depth as usize {
                return None;
            }
        },
        None => {},
    }
    let secret = match derived_secret(xprv, path) {
        Some(s) => s,
        None => {
            return None;
        },
    };
    match ecdsa(&secret, hash) {
        Some(der) => {
            let mut sig = der;
            sig.push(SIGHASH_ALL);
            Some(sig)
        },
        None => None,
    }
}

/// Public key and signature of each.
pub open spec fn spec_sig_views(sigs: Seq<PartialSig>) -> Seq<(Seq<u8>, Seq<u8>)> {
    sigs.map_values(|s: PartialSig| (s.public_key@, s.signature@))
}

/// The signatures that the signer adds to an input whose signatures commit to
/// `hash`: one for each key it answers for, in the order of the keys. None if
/// one of them cannot be made.
pub open spec fn spec_new_sigs(
    sources: Seq<KeySource>,
    fingerprint: Fingerprint,
    total: u32,
    xprv: Seq<char>,
    hash: Seq<u8>,
) -> Option<Seq<(Seq<u8>, Seq<u8>)>>
    decreases sources.len(),
{
    if sources.len() == 0 {
        Some(Seq::empty())
    } else {
        match spec_new_sigs(sources.drop_last(), fingerprint, total, xprv, hash) {
            Some(rest) => if spec_candidate(sources.last(), fingerprint, total) {
                match spec_signature(xprv, sources.last().path@, hash) {
                    Some(sig) => Some(rest.push((sources.last().public_key@, sig))),
                    None => None,
                }
            } else {
                Some(rest)
            },
            None => None,
        }
    }
}

/// Where some signatures cannot be made, none can be made of more keys.
pub proof fn lemma_new_sigs_prefix(
    sources: Seq<KeySource>,
    fingerprint: Fingerprint,
    total: u32,
    xprv: Seq<char>,
    hash: Seq<u8>,
    k: int,
)
    requires
        0 <= k <= sources.len(),
        spec_new_sigs(sources.take(k), fingerprint, total, xprv, hash) is None,
    ensures
        spec_new_sigs(sources, fingerprint, total, xprv, hash) is None,
    decreases sources.len(),
{
    if k < sources.len() {
        assert(sources.drop_last().take(k) =~= sources.take(k));
        lemma_new_sigs_prefix(sources.drop_last(), fingerprint, total, xprv, hash, k);
    } else {
        assert(sources.take(k) =~= sources);
    }
}

/// The signatures that the signer adds to an input whose signatures commit to
/// `hash`.
pub fn new_sigs(
    sources: &Vec<KeySource>,
    fingerprint: Fingerprint,
    total: u32,
    xprv: &str,
    hash: &[u8; 32],
) -> (sigs: Option<Vec<PartialSig>>)
    ensures
        match sigs {
            Some(s) => spec_new_sigs(sources@, fingerprint, total, xprv@, hash@) == Some(
                spec_sig_views(s@),
            ),
            None => spec_new_sigs(sources@, fingerprint, total, xprv@, hash@) is None,
        },
{
    let mut sigs: Vec<PartialSig> = Vec::new();
    let mut k: usize = 0;
    assert(sources@.take(0) =~= Seq::<KeySource>::empty());
    assert(spec_sig_views(sigs@) =~= Seq::<(Seq<u8>, Seq<u8>)>::empty());
    while k < sources.len()
        invariant
            k <= sources.len(),
            spec_new_sigs(sources@.take(k as int), fingerprint, total, xprv@, hash@) == Some(
                spec_sig_views(sigs@),
            ),
        decreases sources.len() - k,
    {
        proof {
            assert(sources@.take(k + 1).drop_last() =~= sources@.take(k as int));
        }
        let source = &sources[k];
        if is_candidate(source, fingerprint, total) {
            match signature(xprv, &source.path, hash) {
                Some(sig) => {
                    let ghost before = spec_sig_views(sigs@);
                    let public_key = source.public_key.clone();
                    sigs.push(PartialSig { public_key, signature: sig });
                    assert(spec_sig_views(sigs@) =~= before.push((source.public_key@, sig@)));
                },
                None => {
                    proof {
                        lemma_new_sigs_prefix(sources@, fingerprint, total, xprv@, hash@, k + 1);
                    }
                    return None;
                },
            }
        }
        k = k + 1;
    }
    assert(sources@.take(sources.len() as int) =~= sources@);
    Some(sigs)
}

/// The input carries a signature for a key that descends from the master key
/// with the fingerprint.
pub open spec fn spec_key_signed(input: PsbtInput, fingerprint: Fingerprint) -> bool {
    exists|s: int, k: int|
        0 <= s < input.partial_sigs@.len() && 0 <= k < input.hd_keypaths@.len() && (
        #[trigger] input.hd_keypaths@[k]).fingerprint == fingerprint
            && input.hd_keypaths@[k].public_key@ == (#[trigger] input.partial_sigs@[s]).public_key@
}

/// Some input carries a signature for a key that descends from the master
/// key with the fingerprint.
pub open spec fn spec_signed_by(psbt: Psbt, fingerprint: Fingerprint) -> bool {
    exists|i: int|
        0 <= i < psbt.inputs@.len() && spec_key_signed(#[trigger] psbt.inputs@[i], fingerprint)
}

/// Whether the input carries a signature of the master key's.
pub fn key_signed(input: &PsbtInput, fingerprint: Fingerprint) -> (b: bool)
    ensures
        b == spec_key_signed(*input, fingerprint),
{
    let mut s: usize = 0;
    while s < input.partial_sigs.len()
        invariant
            s <= input.partial_sigs.len(),
            forall|p: int, k: int|
                0 <= p < s && 0 <= k < input.hd_keypaths@.len() && (
                #[trigger] input.hd_keypaths@[k]).fingerprint == fingerprint
                    ==> input.hd_keypaths@[k].public_key@ != (
                #[trigger] input.partial_sigs@[p]).public_key@,
        decreases input.partial_sigs.len() - s,
    {
        let mut k: usize = 0;
        while k < input.hd_keypaths.len()
            invariant
                k <= input.hd_keypaths.len(),
                s < input.partial_sigs.len(),
                forall|j: int|
                    0 <= j < k && (#[trigger] input.hd_keypaths@[j]).fingerprint == fingerprint
                        ==> input.hd_keypaths@[j].public_key@
                        != input.partial_sigs@[s as int].public_key@,
            decreases input.hd_keypaths.len() - k,
        {
            let source = &input.hd_keypaths[k];
            if source.fingerprint == fingerprint && same_bytes(
                &source.public_key,
                &input.partial_sigs[s].public_key,
            ) {
                return true;
            }
            k = k + 1;
        }
        s = s + 1;
    }
    false
}

/// Whether the transaction carries a signature of the master key's.
pub fn signed_by(psbt: &Psbt, fingerprint: Fingerprint) -> (b: bool)
    ensures
        b == spec_signed_by(*psbt, fingerprint),
{
    let mut i: usize = 0;
    while i < psbt.inputs.len()
        invariant
            i <= psbt.inputs.len(),
            forall|j: int| 0 <= j < i ==> !spec_key_signed(#[trigger] psbt.inputs@[j], fingerprint),
        decreases psbt.inputs.len() - i,
    {
        if key_signed(&psbt.inputs[i], fingerprint) {
            return true;
        }
        i = i + 1;
    }
    false
}

/// The name of the field that holds the private key.
pub const XPRV: &'static str = "xprv";

/// Whether the key may sign the transaction for the wallet. Fails with
/// `MissingField` and `xprv` if the key has no private part; else with
/// `UnrelatedKey` if its fingerprint is none of the wallet's; else with
/// `AlreadySigned` if the transaction carries a signature of the key's.
pub fn check_signable(psbt: &Psbt, key: &MasterKeyJson, wallet: &HashSet<Fingerprint>) -> (result:
    Result<(), Error>)
    ensures
        match result {
            Ok(_) => key.xprv is Some && wallet@.contains(key.fingerprint) && !spec_signed_by(
                *psbt,
                key.fingerprint,
            ),
            Err(e) => if key.xprv is None {
                e matches Error::MissingField(field) && field@ == XPRV@
            } else if !wallet@.contains(key.fingerprint) {
                e is UnrelatedKey
            } else {
                e is AlreadySigned && spec_signed_by(*psbt, key.fingerprint)
            },
        },
{
    broadcast use vstd::std_specs::hash::group_hash_axioms;

    if key.xprv.is_none() {
        return Err(Error::MissingField(String::from_str(XPRV)));
    }
    if !wallet.contains(&key.fingerprint) {
        return Err(Error::UnrelatedKey);
    }
    if signed_by(psbt, key.fingerprint) {
        return Err(Error::AlreadySigned);
    }
    Ok(())
}

/// The signatures that the signer adds to input `i`: none where it answers
/// for none of the input's keys, else those over the input's hash. None if
/// the hash is not known or a signature cannot be made.
pub open spec fn spec_input_sigs(
    psbt: Psbt,
    i: int,
    fingerprint: Fingerprint,
    total: u32,
    xprv: Seq<char>,
) -> Option<Seq<(Seq<u8>, Seq<u8>)>> {
    if !spec_has_candidate(psbt.inputs@[i].hd_keypaths@, fingerprint, total) {
        Some(Seq::empty())
    } else {
        match spec_sighash(psbt, i) {
            Some(hash) => spec_new_sigs(
                psbt.inputs@[i].hd_keypaths@,
                fingerprint,
                total,
                xprv,
                hash,
            ),
            None => None,
        }
    }
}

/// The signer answers for a key of some input: signing adds a signature.
pub open spec fn spec_signs_something(psbt: Psbt, fingerprint: Fingerprint, total: u32) -> bool {
    exists|i: int|
        0 <= i < psbt.inputs@.len() && spec_has_candidate(
            (#[trigger] psbt.inputs@[i]).hd_keypaths@,
            fingerprint,
            total,
        )
}

/// The hash of every input with a key that the signer answers for is known.
pub open spec fn spec_hashes_known(psbt: Psbt, fingerprint: Fingerprint, total: u32) -> bool {
    forall|i: int|
        0 <= i < psbt.inputs@.len() && spec_has_candidate(
            (#[trigger] psbt.inputs@[i]).hd_keypaths@,
            fingerprint,
            total,
        ) ==> spec_sighash(psbt, i) is Some
}

/// Every signature that the signer is to add can be made.
pub open spec fn spec_signable(psbt: Psbt, fingerprint: Fingerprint, total: u32, xprv: Seq<char>) -> bool {
    forall|i: int|
        0 <= i < psbt.inputs@.len() ==> (#[trigger] spec_input_sigs(
            psbt,
            i,
            fingerprint,
            total,
            xprv,
        )) is Some
}

/// `after` is the input `before` with the signatures `added` after those it had.
pub open spec fn spec_input_signed_from(
    before: PsbtInput,
    after: PsbtInput,
    added: Seq<(Seq<u8>, Seq<u8>)>,
) -> bool {
    &&& after.non_witness_utxo == before.non_witness_utxo
    &&& after.witness_utxo == before.witness_utxo
    &&& after.redeem_script == before.redeem_script
    &&& after.witness_script == before.witness_script
    &&& after.hd_keypaths == before.hd_keypaths
    &&& spec_sig_views(after.partial_sigs@) == spec_sig_views(before.partial_sigs@) + added
}

/// `after` is the transaction `before` signed: every input has the
/// signatures it had and after them those that the signer adds, and nothing
/// else has changed.
pub open spec fn spec_signed_from(
    before: Psbt,
    after: Psbt,
    fingerprint: Fingerprint,
    total: u32,
    xprv: Seq<char>,
) -> bool {
    &&& after.unsigned_tx == before.unsigned_tx
    &&& after.outputs == before.outputs
    &&& after.inputs@.len() == before.inputs@.len()
    &&& forall|i: int|
        0 <= i < before.inputs@.len() ==> spec_input_sigs(before, i, fingerprint, total, xprv)
            is Some && spec_input_signed_from(
            before.inputs@[i],
            #[trigger] after.inputs@[i],
            spec_input_sigs(before, i, fingerprint, total, xprv).unwrap(),
        )
}

/// Puts the signatures of `added` after those of the inputs, those at each
/// place into the input at that place.
fn attach(psbt: &mut Psbt, added: &mut Vec<Vec<PartialSig>>)
    requires
        old(added)@.len() == old(psbt).inputs@.len(),
    ensures
        final(psbt).unsigned_tx == old(psbt).unsigned_tx,
        final(psbt).outputs == old(psbt).outputs,
        final(psbt).inputs@.len() == old(psbt).inputs@.len(),
        forall|i: int|
            0 <= i < old(psbt).inputs@.len() ==> spec_input_signed_from(
                old(psbt).inputs@[i],
                #[trigger] final(psbt).inputs@[i],
                spec_sig_views(old(added)@[i]@),
            ),
{
    let ghost before = *psbt;
    let ghost given = added@;
    let mut i: usize = 0;
    while i < psbt.inputs.len()
        invariant
            i <= psbt.inputs@.len(),
            psbt.unsigned_tx == before.unsigned_tx,
            psbt.outputs == before.outputs,
            psbt.inputs@.len() == before.inputs@.len(),
            added@.len() == given.len(),
            given.len() == before.inputs@.len(),
            forall|j: int| i <= j < before.inputs@.len() ==> psbt.inputs@[j] == before.inputs@[j],
            forall|j: int| i <= j < given.len() ==> added@[j] == given[j],
            forall|j: int|
                0 <= j < i ==> spec_input_signed_from(
                    before.inputs@[j],
                    #[trigger] psbt.inputs@[j],
                    spec_sig_views(given[j]@),
                ),
        decreases psbt.inputs@.len() - i,
    {
        let ghost had = psbt.inputs@[i as int].partial_sigs@;
        psbt.inputs[i].partial_sigs.append(&mut added[i]);
        proof {
            assert(psbt.inputs@[i as int].partial_sigs@ == had + given[i as int]@);
            assert(spec_sig_views(had + given[i as int]@) =~= spec_sig_views(had) + spec_sig_views(
                given[i as int]@,
            ));
        }
        i = i + 1;
    }
}

/// Signs the transaction with the key, for the wallet: every input gets a
/// signature for each of its keys that descends from the master key by a
/// chain and an index below `total_derivations`. Outputs are not signed.
/// Returns the view of the transaction, which signatures do not change.
///
/// Where the key answers for a key of some input, the transaction then
/// carries a signature of the key, and signing it again with the same key is
/// refused with `AlreadySigned`. Where it answers for none, signing succeeds
/// and adds nothing, and so does signing again.
///
/// Fails, and leaves the transaction as it was, as `check_signable` does;
/// else as `pretty_print` does; else with `PsbtInconsistent` if an input to
/// be signed lacks the script that its signature commits to; else with
/// `Parse` if a signature cannot be made: the text of the private key spells
/// none, or no key descends from it along a path.
pub fn sign(
    psbt: &mut Psbt,
    key: &MasterKeyJson,
    wallet: &HashSet<Fingerprint>,
    network: Network,
    total_derivations: u32,
) -> (result: Result<PsbtPrettyPrint, Error>)
    ensures
        result is Err ==> *final(psbt) == *old(psbt),
        match result {
            Ok(view) => {
                &&& key.xprv is Some
                &&& wallet@.contains(key.fingerprint)
                &&& !spec_signed_by(*old(psbt), key.fingerprint)
                &&& spec_is_view(*old(psbt), network, wallet@, view)
                &&& spec_signed_from(
                    *old(psbt),
                    *final(psbt),
                    key.fingerprint,
                    total_derivations,
                    key.xprv.unwrap()@,
                )
                &&& spec_signs_something(*old(psbt), key.fingerprint, total_derivations)
                    ==> spec_signed_by(*final(psbt), key.fingerprint)
            },
            Err(e) => if key.xprv is None {
                e matches Error::MissingField(field) && field@ == XPRV@
            } else if !wallet@.contains(key.fingerprint) {
                e is UnrelatedKey
            } else if spec_signed_by(*old(psbt), key.fingerprint) {
                e is AlreadySigned
            } else if !spec_inputs_consistent(*old(psbt)) {
                e is PsbtInconsistent
            } else if !spec_addressable(*old(psbt)) {
                e matches Error::Parse(reason) && reason@ == NO_ADDRESS@
            } else if !spec_printable(*old(psbt)) {
                e is PsbtInconsistent
            } else if !spec_hashes_known(*old(psbt), key.fingerprint, total_derivations) {
                e is PsbtInconsistent
            } else {
                e is Parse && !spec_signable(
                    *old(psbt),
                    key.fingerprint,
                    total_derivations,
                    key.xprv.unwrap()@,
                )
            },
        },
{
    match check_signable(psbt, key, wallet) {
        Ok(_) => {},
        Err(e) => {
            return Err(e);
        },
    }
    let xprv: &String = match &key.xprv {
        Some(x) => x,
        None => {
            return Err(Error::MissingField(String::from_str(XPRV)));
        },
    };
    let fingerprint = key.fingerprint;
    let view = match pretty_print(psbt, network, wallet) {
        Ok(v) => v,
        Err(e) => {
            return Err(e);
        },
    };
    let mut hashes: Vec<Option<[u8; 32]>> = Vec::new();
    let mut i: usize = 0;
    while i < psbt.inputs.len()
        invariant
            i <= psbt.inputs@.len(),
            *psbt == *old(psbt),
            psbt.inputs@.len() == psbt.unsigned_tx.input@.len(),
            key.xprv is Some,
            fingerprint == key.fingerprint,
            wallet@.contains(fingerprint),
            !spec_signed_by(*psbt, fingerprint),
            spec_printable(*psbt),
            hashes@.len() == i,
            forall|j: int|
                0 <= j < i ==> if spec_has_candidate(
                    (#[trigger] psbt.inputs@[j]).hd_keypaths@,
                    fingerprint,
                    total_derivations,
                ) {
                    hashes@[j] matches Some(h) && spec_sighash(*psbt, j) == Some(h@)
                } else {
                    hashes@[j] is None
                },
        decreases psbt.inputs@.len() - i,
    {
        if has_candidate(&psbt.inputs[i].hd_keypaths, fingerprint, total_derivations) {
            match sighash(psbt, i) {
                Some(h) => {
                    hashes.push(Some(h));
                },
                None => {
                    assert(spec_has_candidate(
                        psbt.inputs@[i as int].hd_keypaths@,
                        fingerprint,
                        total_derivations,
                    ) && spec_sighash(*psbt, i as int) is None);
                    return Err(Error::PsbtInconsistent);
                },
            }
        } else {
            hashes.push(None);
        }
        i = i + 1;
    }
    assert(spec_hashes_known(*psbt, fingerprint, total_derivations));
    let mut added: Vec<Vec<PartialSig>> = Vec::new();
    let mut i: usize = 0;
    while i < psbt.inputs.len()
        invariant
            i <= psbt.inputs@.len(),
            *psbt == *old(psbt),
            key.xprv == Some(*xprv),
            fingerprint == key.fingerprint,
            wallet@.contains(fingerprint),
            !spec_signed_by(*psbt, fingerprint),
            spec_printable(*psbt),
            spec_hashes_known(*psbt, fingerprint, total_derivations),
            hashes@.len() == psbt.inputs@.len(),
            added@.len() == i,
            forall|j: int|
                0 <= j < psbt.inputs@.len() ==> if spec_has_candidate(
                    (#[trigger] psbt.inputs@[j]).hd_keypaths@,
                    fingerprint,
                    total_derivations,
                ) {
                    hashes@[j] matches Some(h) && spec_sighash(*psbt, j) == Some(h@)
                } else {
                    hashes@[j] is None
                },
            forall|j: int|
                0 <= j < i ==> (#[trigger] spec_input_sigs(
                    *psbt,
                    j,
                    fingerprint,
                    total_derivations,
                    xprv@,
                )) == Some(spec_sig_views(added@[j]@)),
        decreases psbt.inputs@.len() - i,
    {
        match &hashes[i] {
            Some(h) => {
                match new_sigs(
                    &psbt.inputs[i].hd_keypaths,
                    fingerprint,
                    total_derivations,
                    xprv.as_str(),
                    h,
                ) {
                    Some(sigs) => {
                        added.push(sigs);
                    },
                    None => {
                        assert(spec_input_sigs(
                            *psbt,
                            i as int,
                            fingerprint,
                            total_derivations,
                            xprv@,
                        ) is None);
                        return Err(Error::Parse(String::from_str(XPRV)));
                    },
                }
            },
            None => {
                let none: Vec<PartialSig> = Vec::new();
                assert(spec_sig_views(none@) =~= Seq::<(Seq<u8>, Seq<u8>)>::empty());
                added.push(none);
            },
        }
        i = i + 1;
    }
    let ghost given = added@;
    attach(psbt, &mut added);
    proof {
        assert forall|j: int| 0 <= j < old(psbt).inputs@.len() implies spec_input_sigs(
            *old(psbt),
            j,
            fingerprint,
            total_derivations,
            xprv@,
        ) is Some && spec_input_signed_from(
            old(psbt).inputs@[j],
            #[trigger] psbt.inputs@[j],
            spec_input_sigs(*old(psbt), j, fingerprint, total_derivations, xprv@).unwrap(),
        ) by {
            assert(spec_input_sigs(*old(psbt), j, fingerprint, total_derivations, xprv@) == Some(
                spec_sig_views(given[j]@),
            ));
        }
        if spec_signs_something(*old(psbt), fingerprint, total_derivations) {
            lemma_signed_after_signing(*old(psbt), *psbt, fingerprint, total_derivations, xprv@);
        }
    }
    Ok(view)
}

/// Every key that the signer answers for has its signature among those that
/// the signer adds.
pub proof fn lemma_candidate_gets_signature(
    sources: Seq<KeySource>,
    fingerprint: Fingerprint,
    total: u32,
    xprv: Seq<char>,
    hash: Seq<u8>,
    k: int,
)
    requires
        0 <= k < sources.len(),
        spec_candidate(sources[k], fingerprint, total),
        spec_new_sigs(sources, fingerprint, total, xprv, hash) is Some,
    ensures
        exists|s: int|
            0 <= s < spec_new_sigs(sources, fingerprint, total, xprv, hash).unwrap().len() && (
            #[trigger] spec_new_sigs(sources, fingerprint, total, xprv, hash).unwrap()[s]).0
                == sources[k].public_key@,
    decreases sources.len(),
{
    let all = spec_new_sigs(sources, fingerprint, total, xprv, hash).unwrap();
    let rest = spec_new_sigs(sources.drop_last(), fingerprint, total, xprv, hash).unwrap();
    if k == sources.len() - 1 {
        assert(all[all.len() - 1].0 == sources[k].public_key@);
    } else {
        lemma_candidate_gets_signature(sources.drop_last(), fingerprint, total, xprv, hash, k);
        let s = choose|s: int| 0 <= s < rest.len() && (#[trigger] rest[s]).0 == sources[k].public_key@;
        assert(all[s] == rest[s]);
    }
}

/// A transaction that was signed with a key, which answered for a key of one
/// of its inputs, carries a signature of that key: whoever signs it again
/// with the same key is refused with `AlreadySigned`. A key that answers for
/// no key of the transaction leaves no signature, and is not refused.
pub proof fn lemma_signed_after_signing(
    before: Psbt,
    after: Psbt,
    fingerprint: Fingerprint,
    total: u32,
    xprv: Seq<char>,
)
    requires
        spec_signed_from(before, after, fingerprint, total, xprv),
        spec_signs_something(before, fingerprint, total),
    ensures
        spec_signed_by(after, fingerprint),
{
    let i = choose|i: int|
        0 <= i < before.inputs@.len() && spec_has_candidate(
            (#[trigger] before.inputs@[i]).hd_keypaths@,
            fingerprint,
            total,
        );
    let sources = before.inputs@[i].hd_keypaths@;
    let k = choose|k: int| 0 <= k < sources.len() && spec_candidate(#[trigger] sources[k], fingerprint, total);
    let input = after.inputs@[i];
    assert(spec_input_sigs(before, i, fingerprint, total, xprv) is Some);
    assert(spec_sighash(before, i) is Some);
    let hash = spec_sighash(before, i).unwrap();
    let added = spec_input_sigs(before, i, fingerprint, total, xprv).unwrap();
    assert(spec_input_signed_from(before.inputs@[i], input, added));
    lemma_candidate_gets_signature(sources, fingerprint, total, xprv, hash, k);
    let s = choose|s: int| 0 <= s < added.len() && (#[trigger] added[s]).0 == sources[k].public_key@;
    let had = spec_sig_views(before.inputs@[i].partial_sigs@);
    let place = had.len() + s;
    assert(spec_sig_views(input.partial_sigs@).len() == had.len() + added.len());
    assert(0 <= place < input.partial_sigs@.len());
    assert(spec_sig_views(input.partial_sigs@)[place] == added[s]);
    assert(spec_sig_views(input.partial_sigs@)[place].0 == input.partial_sigs@[place].public_key@);
    assert(input.partial_sigs@[place].public_key@ == sources[k].public_key@);
    assert(input.hd_keypaths@[k].fingerprint == fingerprint);
    assert(input.hd_keypaths@[k].public_key@ == input.partial_sigs@[place].public_key@);
    assert(spec_key_signed(input, fingerprint));
}

} // verus!
