//! Output scripts: the standard forms and the address of a script.

use vstd::prelude::*;
use crate::common::psbt::Network;

verus! {

/// Pay to public key: a push of 65 or of 33 bytes, then `OP_CHECKSIG`.
pub open spec fn spec_is_p2pk(s: Seq<u8>) -> bool {
    ||| s.len() == 67 && s[0] == 0x41 && s[66] == 0xac
    ||| s.len() == 35 && s[0] == 0x21 && s[34] == 0xac
}

/// Pay to public key hash: `OP_DUP OP_HASH160`, a push of 20 bytes,
/// `OP_EQUALVERIFY OP_CHECKSIG`.
pub open spec fn spec_is_p2pkh(s: Seq<u8>) -> bool {
    s.len() == 25 && s[0] == 0x76 && s[1] == 0xa9 && s[2] == 0x14 && s[23] == 0x88 && s[24] == 0xac
}

/// Pay to script hash: `OP_HASH160`, a push of 20 bytes, `OP_EQUAL`.
pub open spec fn spec_is_p2sh(s: Seq<u8>) -> bool {
    s.len() == 23 && s[0] == 0xa9 && s[1] == 0x14 && s[22] == 0x87
}

/// Version 0 pay to witness public key hash: `OP_0`, then a push of 20 bytes.
pub open spec fn spec_is_v0_p2wpkh(s: Seq<u8>) -> bool {
    s.len() == 22 && s[0] == 0x00 && s[1] == 0x14
}

/// Version 0 pay to witness script hash: `OP_0`, then a push of 32 bytes.
pub open spec fn spec_is_v0_p2wsh(s: Seq<u8>) -> bool {
    s.len() == 34 && s[0] == 0x00 && s[1] == 0x20
}

/// A witness program: a version (`OP_0` or `OP_1` to `OP_16`), then one push of
/// 2 to 40 bytes that fills the rest of the script.
pub open spec fn spec_is_witness_program(s: Seq<u8>) -> bool {
    &&& 4 <= s.len() <= 42
    &&& (s[0] == 0x00 || 0x51 <= s[0] <= 0x60)
    &&& 0x02 <= s[1] <= 0x28
    &&& s.len() - 2 == s[1]
}

/// The script has an address: it pays to a public key hash, to a script hash
/// or to a witness program.
pub open spec fn spec_has_address(s: Seq<u8>) -> bool {
    spec_is_p2pkh(s) || spec_is_p2sh(s) || spec_is_witness_program(s)
}

/// The address of a script that has one, on the given network: base58check for
/// the hashes, bech32 for a witness program.
pub uninterp spec fn spec_address_text(script: Seq<u8>, network: Network) -> Seq<char>;

/// Calls `bitcoin::Script::is_p2pk`, which tests the length and the bytes at
/// both ends as `spec_is_p2pk` says.
#[verifier::external_body]
pub(crate) fn is_p2pk(script: &Vec<u8>) -> (b: bool)
    ensures
        b == spec_is_p2pk(script@),
{
    bitcoin::Script::from(script.clone()).is_p2pk()
}

/// Calls `bitcoin::Script::is_p2pkh`, which tests the length and five fixed
/// bytes as `spec_is_p2pkh` says.
#[verifier::external_body]
pub(crate) fn is_p2pkh(script: &Vec<u8>) -> (b: bool)
    ensures
        b == spec_is_p2pkh(script@),
{
    bitcoin::Script::from(script.clone()).is_p2pkh()
}

/// Calls `bitcoin::Script::is_p2sh`, which tests the length and three fixed
/// bytes as `spec_is_p2sh` says.
#[verifier::external_body]
pub(crate) fn is_p2sh(script: &Vec<u8>) -> (b: bool)
    ensures
        b == spec_is_p2sh(script@),
{
    bitcoin::Script::from(script.clone()).is_p2sh()
}

/// Calls `bitcoin::Script::is_v0_p2wpkh`, which tests the length and the first
/// two bytes as `spec_is_v0_p2wpkh` says.
#[verifier::external_body]
pub(crate) fn is_v0_p2wpkh(script: &Vec<u8>) -> (b: bool)
    ensures
        b == spec_is_v0_p2wpkh(script@),
{
    bitcoin::Script::from(script.clone()).is_v0_p2wpkh()
}

/// Calls `bitcoin::Script::is_v0_p2wsh`, which tests the length and the first
/// two bytes as `spec_is_v0_p2wsh` says.
#[verifier::external_body]
pub(crate) fn is_v0_p2wsh(script: &Vec<u8>) -> (b: bool)
    ensures
        b == spec_is_v0_p2wsh(script@),
{
    bitcoin::Script::from(script.clone()).is_v0_p2wsh()
}

/// Calls `bitcoin::Address::from_script` and formats the address it gives.
/// There is one exactly for a script that pays to a public key hash, to a
/// script hash or to a witness program; its text is `spec_address_text`.
#[verifier::external_body]
pub(crate) fn address_text(script: &Vec<u8>, network: Network) -> (text: Option<String>)
    ensures
        text is Some <==> spec_has_address(script@),
        text matches Some(t) ==> t@ == spec_address_text(script@, network),
{
    let network = match network {
        Network::Bitcoin => bitcoin::Network::Bitcoin,
        Network::Testnet => bitcoin::Network::Testnet,
        Network::Regtest => bitcoin::Network::Regtest,
    };
    let script = bitcoin::Script::from(script.clone());
    bitcoin::Address::from_script(&script, network).map(|a| a.to_string())
}

/// The class of a standard script, `None` for any other.
pub open spec fn spec_script_type(s: Seq<u8>) -> Option<usize> {
    if spec_is_p2pk(s) {
        Some(0)
    } else if spec_is_p2pkh(s) {
        Some(1)
    } else if spec_is_p2sh(s) {
        Some(2)
    } else if spec_is_v0_p2wpkh(s) {
        Some(3)
    } else if spec_is_v0_p2wsh(s) {
        Some(4)
    } else {
        None
    }
}

/// The class of `script`: 0 for pay to public key, 1 for pay to public key
/// hash, 2 for pay to script hash, 3 and 4 for version 0 pay to witness public
/// key hash and script hash; the first that fits, `None` if none does.
pub fn script_type(script: &Vec<u8>) -> (class: Option<usize>)
    ensures
        class == spec_script_type(script@),
{
    if is_p2pk(script) {
        Some(0)
    } else if is_p2pkh(script) {
        Some(1)
    } else if is_p2sh(script) {
        Some(2)
    } else if is_v0_p2wpkh(script) {
        Some(3)
    } else if is_v0_p2wsh(script) {
        Some(4)
    } else {
        None
    }
}

} // verus!
