//! The wallet: some of several keys sign, and it knows which keys are its own.

use std::collections::HashSet;
use vstd::prelude::*;
use vstd::string::*;
use crate::common::cmd::DaemonOpts;
use crate::common::error::Error;
use crate::common::psbt::Fingerprint;
use crate::common::text::{decimal_text, spec_decimal};

verus! {

/// The fingerprint of the extended public key that the text spells: the first
/// four bytes of the hash of its public key, as a big-endian number. None if
/// the text spells no such key.
pub uninterp spec fn spec_xpub_fingerprint(xpub: Seq<char>) -> Option<Fingerprint>;

/// Parses the text as a `bitcoin::util::bip32::ExtendedPubKey` and calls its
/// `fingerprint`; both depend on the text alone.
#[verifier::external_body]
pub(crate) fn xpub_fingerprint(xpub: &str) -> (fingerprint: Option<Fingerprint>)
    ensures
        fingerprint == spec_xpub_fingerprint(xpub@),
{
    let key: Result<bitcoin::util::bip32::ExtendedPubKey, _> = xpub.parse();
    key.ok().map(|k| u32::from_be_bytes(k.fingerprint().into_bytes()))
}

/// The fingerprints of the keys.
pub open spec fn spec_fingerprints(xpubs: Seq<String>) -> Set<Fingerprint> {
    Set::new(
        |f: Fingerprint|
            exists|i: int|
                0 <= i < xpubs.len() && spec_xpub_fingerprint((#[trigger] xpubs[i])@) == Some(f),
    )
}

/// Every text spells a key.
pub open spec fn spec_all_keys(xpubs: Seq<String>) -> bool {
    forall|i: int| 0 <= i < xpubs.len() ==> spec_xpub_fingerprint((#[trigger] xpubs[i])@) is Some
}

/// The keys of a descriptor: before each a comma, after each a slash, the
/// chain, a slash and a star.
pub open spec fn spec_descriptor_keys(xpubs: Seq<String>, chain: u32) -> Seq<char>
    decreases xpubs.len(),
{
    if xpubs.len() == 0 {
        Seq::<char>::empty()
    } else {
        spec_descriptor_keys(xpubs.drop_last(), chain) + seq![','] + xpubs.last()@ + seq!['/']
            + spec_decimal(chain as nat) + seq!['/', '*']
    }
}

/// The descriptor of one chain of a wallet, without its checksum:
/// `wsh(sortedmulti(<threshold>,<key>/<chain>/*,...))`.
pub open spec fn spec_descriptor(required_sig: usize, xpubs: Seq<String>, chain: u32) -> Seq<char> {
    seq!['w', 's', 'h', '(', 's', 'o', 'r', 't', 'e', 'd', 'm', 'u', 'l', 't', 'i', '(']
        + spec_decimal(required_sig as nat) + spec_descriptor_keys(xpubs, chain) + seq![')', ')']
}

/// The descriptor of one chain of a wallet, without its checksum.
pub fn descriptor(required_sig: usize, xpubs: &Vec<String>, chain: u32) -> (text: String)
    ensures
        text@ == spec_descriptor(required_sig, xpubs@, chain),
{
    proof {
        reveal_strlit("wsh(sortedmulti(");
        reveal_strlit("))");
    }
    let mut text = String::from_str("wsh(sortedmulti(");
    text.append(decimal_text(required_sig as u64).as_str());
    let ghost head = text@;
    let chain_text = decimal_text(chain as u64);
    let mut i: usize = 0;
    assert(xpubs@.take(0) =~= Seq::<String>::empty());
    while i < xpubs.len()
        invariant
            i <= xpubs.len(),
            chain_text@ == spec_decimal(chain as nat),
            text@ == head + spec_descriptor_keys(xpubs@.take(i as int), chain),
        decreases xpubs.len() - i,
    {
        proof {
            reveal_strlit(",");
            reveal_strlit("/");
            reveal_strlit("/*");
            assert(xpubs@.take(i + 1).drop_last() =~= xpubs@.take(i as int));
        }
        let ghost before = text@;
        text.append(",");
        text.append(xpubs[i].as_str());
        text.append("/");
        text.append(chain_text.as_str());
        text.append("/*");
        assert(text@ =~= before + seq![','] + xpubs@[i as int]@ + seq!['/'] + spec_decimal(
            chain as nat,
        ) + seq!['/', '*']);
        assert(text@ =~= head + spec_descriptor_keys(xpubs@.take(i + 1), chain));
        i = i + 1;
    }
    assert(xpubs@.take(xpubs.len() as int) =~= xpubs@);
    text.append("))");
    assert(text@ =~= spec_descriptor(required_sig, xpubs@, chain));
    text
}

/// A multisig wallet as it is stored.
#[derive(Debug)]
pub struct WalletJson {
    pub name: String,
    /// The descriptor of the external chain, with its checksum.
    pub main_descriptor: String,
    /// The descriptor of the change chain, with its checksum.
    pub change_descriptor: String,
    pub daemon_opts: DaemonOpts,
    /// The fingerprints of the wallet's keys.
    pub fingerprints: HashSet<Fingerprint>,
    /// How many of the keys sign.
    pub required_sig: usize,
    /// The extended public keys, in the order of the descriptors.
    pub xpubs: Vec<String>,
    pub created_at_height: u64,
}

impl WalletJson {
    /// What holds of every wallet: at least one key signs and no more than
    /// there are, every key is one, and the fingerprints are those of the keys.
    pub open spec fn well_formed(&self) -> bool {
        &&& 1 <= self.required_sig <= self.xpubs@.len()
        &&& spec_all_keys(self.xpubs@)
        &&& self.fingerprints@ == spec_fingerprints(self.xpubs@)
    }

    /// A wallet of the given keys, `required_sig` of which sign; the
    /// checksums are those that the node gave for the two descriptors.
    /// Fails with `Parse` if the threshold is zero or more than the number of
    /// keys, or one of the texts spells no key.
    pub fn new(
        name: String,
        required_sig: usize,
        xpubs: Vec<String>,
        main_checksum: &str,
        change_checksum: &str,
        daemon_opts: DaemonOpts,
        created_at_height: u64,
    ) -> (wallet: Result<WalletJson, Error>)
        ensures
            match wallet {
                Ok(w) => {
                    &&& w.well_formed()
                    &&& w.name == name
                    &&& w.required_sig == required_sig
                    &&& w.xpubs == xpubs
                    &&& w.daemon_opts == daemon_opts
                    &&& w.created_at_height == created_at_height
                    &&& w.main_descriptor@ == spec_descriptor(required_sig, xpubs@, 0) + seq!['#']
                        + main_checksum@
                    &&& w.change_descriptor@ == spec_descriptor(required_sig, xpubs@, 1) + seq![
                        '#',
                    ] + change_checksum@
                },
                Err(e) => e is Parse && !(1 <= required_sig <= xpubs@.len() && spec_all_keys(
                    xpubs@,
                )),
            },
    {
        broadcast use vstd::std_specs::hash::group_hash_axioms;

        if required_sig < 1 || required_sig > xpubs.len() {
            return Err(Error::Parse(String::from_str("threshold")));
        }
        let mut fingerprints: HashSet<Fingerprint> = HashSet::new();
        let mut i: usize = 0;
        while i < xpubs.len()
            invariant
                i <= xpubs.len(),
                forall|k: int|
                    0 <= k < i ==> spec_xpub_fingerprint((#[trigger] xpubs@[k])@) is Some,
                forall|f: Fingerprint|
                    fingerprints@.contains(f) <==> exists|k: int|
                        0 <= k < i && spec_xpub_fingerprint((#[trigger] xpubs@[k])@) == Some(f),
            decreases xpubs.len() - i,
        {
            let fingerprint = match xpub_fingerprint(xpubs[i].as_str()) {
                Some(f) => f,
                None => {
                    return Err(Error::Parse(String::from_str("xpub")));
                },
            };
            let ghost before = fingerprints@;
            fingerprints.insert(fingerprint);
            proof {
                assert forall|f: Fingerprint| fingerprints@.contains(f) <==> exists|k: int|
                    0 <= k < i + 1 && spec_xpub_fingerprint((#[trigger] xpubs@[k])@) == Some(
                        f,
                    ) by {
                    if before.contains(f) {
                        let k = choose|k: int|
                            0 <= k < i && spec_xpub_fingerprint((#[trigger] xpubs@[k])@) == Some(
                                f,
                            );
                        assert(0 <= k < i + 1);
                    }
                    if f == fingerprint {
                        assert(spec_xpub_fingerprint(xpubs@[i as int]@) == Some(f));
                    }
                }
            }
            i = i + 1;
        }
        proof {
            reveal_strlit("#");
            assert(fingerprints@ =~= spec_fingerprints(xpubs@));
        }
        let mut main_descriptor = descriptor(required_sig, &xpubs, 0);
        main_descriptor.append("#");
        main_descriptor.append(main_checksum);
        let mut change_descriptor = descriptor(required_sig, &xpubs, 1);
        change_descriptor.append("#");
        change_descriptor.append(change_checksum);
        Ok(
            WalletJson {
                name,
                main_descriptor,
                change_descriptor,
                daemon_opts,
                fingerprints,
                required_sig,
                xpubs,
                created_at_height,
            },
        )
    }
}

/// In every well-formed wallet the fingerprints are exactly those of its keys:
/// the key at each place has its fingerprint in the set, and every
/// fingerprint of the set is that of a key.
pub proof fn lemma_fingerprints_are_those_of_keys(wallet: WalletJson)
    requires
        wallet.well_formed(),
    ensures
        forall|i: int|
            0 <= i < wallet.xpubs@.len() ==> wallet.fingerprints@.contains(
                spec_xpub_fingerprint((#[trigger] wallet.xpubs@[i])@).unwrap(),
            ),
        forall|f: Fingerprint|
            wallet.fingerprints@.contains(f) ==> exists|i: int|
                0 <= i < wallet.xpubs@.len() && spec_xpub_fingerprint(
                    (#[trigger] wallet.xpubs@[i])@,
                ) == Some(f),
{
}

} // verus!
