//! A master key as it is stored, with or without its private part.

use vstd::prelude::*;
use crate::common::psbt::{Fingerprint, Network};

verus! {

/// A master key. The file of the signing machine holds the private part, the
/// file that is carried to the online machine does not.
#[derive(Debug, Clone)]
pub struct MasterKeyJson {
    /// The extended public key.
    pub xpub: String,
    /// The extended private key, where this is the private file.
    pub xprv: Option<String>,
    pub fingerprint: Fingerprint,
    pub network: Network,
}

} // verus!
