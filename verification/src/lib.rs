//! Air-gapped multisig wallet toolkit: the wallet's state, the files it lives
//! in, the view of a partially signed transaction that its signer is shown,
//! and the signing itself, with machine-checked contracts.

pub mod common;
pub mod offline;

pub use common::cmd::{Context, DaemonOpts};
pub use common::error::Error;
pub use common::file::{Kind, PathBuilder};
pub use common::indexes::WalletIndexes;
pub use common::key::MasterKeyJson;
pub use common::psbt::{
    Fingerprint, KeySource, Network, OutPoint, PartialSig, Psbt, PsbtInput, PsbtOutput,
    Transaction, TxIn, TxOut, UnsignedTransaction, UnsignedTxIn,
};
pub use common::script::script_type;
pub use common::wallet::WalletJson;
pub use common::weight::estimate_weight;
pub use offline::dice::check_dice;
pub use offline::print::{
    biggest_dividing_pow, derivation_paths, is_mine, pretty_print, Fee, PrintOptions,
    PsbtPrettyPrint, Size,
};
pub use offline::sign::sign;
