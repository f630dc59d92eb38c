//! What every command is told: where the node is and where the files are.

use vstd::prelude::*;
use vstd::string::*;
use crate::common::error::Error;
use crate::common::file::{
    spec_file_path, spec_string, spec_text, spec_type_path, Kind, PathBuilder,
};
use crate::common::indexes::WalletIndexes;
use crate::common::psbt::Network;
use crate::common::wallet::WalletJson;

verus! {

/// How to reach the node.
#[derive(Debug, Clone)]
pub struct DaemonOpts {
    /// Bitcoin node rpc url
    pub url: String,
    /// Bitcoin node cookie file
    pub cookie_file: String,
}

/// Which wallet, on which network, in which data directory.
#[derive(Debug, Clone)]
pub struct Context {
    /// Network (bitcoin, testnet, regtest)
    pub network: Network,
    /// Name of the wallet
    pub wallet_name: String,
    /// Directory where wallet info are saved
    pub firma_datadir: String,
}

/// Why cursors whose change cursor is zero cannot be moved back.
pub const NO_CHANGE_INDEX: &'static str = "no change index to take back";

/// The name of the file that holds a wallet's descriptors.
pub open spec fn spec_descriptor_file() -> Seq<char> {
    seq!['d', 'e', 's', 'c', 'r', 'i', 'p', 't', 'o', 'r', '.', 'j', 's', 'o', 'n']
}

/// The name of the file that holds a wallet's cursors.
pub open spec fn spec_indexes_file() -> Seq<char> {
    seq!['i', 'n', 'd', 'e', 'x', 'e', 's', '.', 'j', 's', 'o', 'n']
}

impl Context {
    /// The path of `file` in the directory of this context's wallet.
    pub open spec fn spec_wallet_file(&self, home: Option<&str>, file: Seq<char>) -> Option<
        Seq<char>,
    > {
        spec_file_path(
            self.firma_datadir@,
            spec_text(home),
            self.network,
            Kind::Wallet,
            Some(self.wallet_name@),
            file,
        )
    }

    fn path_builder_for(&self, kind: Kind, name: Option<String>) -> (builder: PathBuilder)
        ensures
            builder.datadir@ == self.firma_datadir@,
            builder.network == self.network,
            builder.kind == kind,
            builder.name == name,
    {
        PathBuilder::new(self.firma_datadir.as_str(), self.network, kind, name)
    }

    /// Where the QR codes of a file of the given kind and name go. Fails with
    /// `MissingName` if the kind needs a name and none is given, else with
    /// `PathExpansion` if the data directory begins with a tilde and there is
    /// no home.
    pub fn path_for_qr(&self, home: Option<&str>, kind: Kind, name: Option<String>) -> (path:
        Result<String, Error>)
        ensures
            match path {
                Ok(p) => spec_file_path(
                    self.firma_datadir@,
                    spec_text(home),
                    self.network,
                    kind,
                    spec_string(name),
                    seq!['q', 'r'],
                ) == Some(p@),
                Err(e) => spec_file_path(
                    self.firma_datadir@,
                    spec_text(home),
                    self.network,
                    kind,
                    spec_string(name),
                    seq!['q', 'r'],
                ) is None && if kind != Kind::PSBT && name is None {
                    e is MissingName
                } else {
                    e is PathExpansion
                },
            },
    {
        proof {
            reveal_strlit("qr");
            assert("qr"@ =~= seq!['q', 'r']);
        }
        self.path_builder_for(kind, name).file(home, "qr")
    }

    /// Where the QR codes of this context's wallet go.
    pub fn path_for_wallet_qr(&self, home: Option<&str>) -> (path: Result<String, Error>)
        ensures
            match path {
                Ok(p) => self.spec_wallet_file(home, seq!['q', 'r']) == Some(p@),
                Err(e) => e is PathExpansion && self.spec_wallet_file(home, seq!['q', 'r'])
                    is None,
            },
    {
        self.path_for_qr(home, Kind::Wallet, Some(self.wallet_name.clone()))
    }

    /// The path of `name` in the directory of this context's wallet. Fails
    /// with `PathExpansion` if the data directory begins with a tilde and
    /// there is no home.
    pub fn filename_for_wallet(&self, home: Option<&str>, name: &str) -> (path: Result<
        String,
        Error,
    >)
        ensures
            match path {
                Ok(p) => self.spec_wallet_file(home, name@) == Some(p@),
                Err(e) => e is PathExpansion && self.spec_wallet_file(home, name@) is None,
            },
    {
        self.path_builder_for(Kind::Wallet, Some(self.wallet_name.clone())).file(home, name)
    }

    /// The directory of the partially signed transactions. Fails with
    /// `PathExpansion` if the data directory begins with a tilde and there is
    /// no home.
    pub fn psbts_dir(&self, home: Option<&str>) -> (path: Result<String, Error>)
        ensures
            match path {
                Ok(p) => spec_type_path(
                    self.firma_datadir@,
                    spec_text(home),
                    self.network,
                    Kind::PSBT,
                ) == Some(p@),
                Err(e) => e is PathExpansion && spec_type_path(
                    self.firma_datadir@,
                    spec_text(home),
                    self.network,
                    Kind::PSBT,
                ) is None,
            },
    {
        self.path_builder_for(Kind::PSBT, None).type_path(home)
    }

    /// Where to write a new wallet: its descriptor file, which must not be
    /// there yet; `exists` says whether it is. Fails with `PathExpansion` as
    /// `filename_for_wallet` does, else with `FileAlreadyExists` and the path
    /// if the file is there.
    pub fn save_wallet(&self, home: Option<&str>, exists: bool) -> (path: Result<String, Error>)
        ensures
            match path {
                Ok(p) => !exists && self.spec_wallet_file(home, spec_descriptor_file()) == Some(
                    p@,
                ),
                Err(e) => match self.spec_wallet_file(home, spec_descriptor_file()) {
                    Some(p) => exists && (e matches Error::FileAlreadyExists(q) && q@ == p),
                    None => e is PathExpansion,
                },
            },
    {
        proof {
            reveal_strlit("descriptor.json");
            assert("descriptor.json"@ =~= spec_descriptor_file());
        }
        let path = match self.filename_for_wallet(home, "descriptor.json") {
            Ok(p) => p,
            Err(e) => {
                return Err(e);
            },
        };
        if exists {
            Err(Error::FileAlreadyExists(path))
        } else {
            Ok(path)
        }
    }

    /// Where to write the cursors: the wallet's indexes file, replaced as a
    /// whole. Fails with `PathExpansion` as `filename_for_wallet` does.
    pub fn save_index(&self, home: Option<&str>) -> (path: Result<String, Error>)
        ensures
            match path {
                Ok(p) => self.spec_wallet_file(home, spec_indexes_file()) == Some(p@),
                Err(e) => e is PathExpansion && self.spec_wallet_file(home, spec_indexes_file())
                    is None,
            },
    {
        proof {
            reveal_strlit("indexes.json");
            assert("indexes.json"@ =~= spec_indexes_file());
        }
        self.filename_for_wallet(home, "indexes.json")
    }

    /// The wallet and its cursors out of what reading their two files gave:
    /// each either the value or the reason why there is none. Fails with
    /// `PathExpansion` as `filename_for_wallet` does; else with
    /// `FileNotFoundOrCorrupt`, the path of the file and the reason, for the
    /// descriptor file first and the indexes file second.
    pub fn load_wallet_and_index(
        &self,
        home: Option<&str>,
        wallet: Result<WalletJson, String>,
        indexes: Result<WalletIndexes, String>,
    ) -> (loaded: Result<(WalletJson, WalletIndexes), Error>)
        ensures
            match loaded {
                Ok((w, i)) => wallet == Ok::<WalletJson, String>(w) && indexes == Ok::<
                    WalletIndexes,
                    String,
                >(i) && self.spec_wallet_file(home, spec_descriptor_file()) is Some,
                Err(e) => match (
                    self.spec_wallet_file(home, spec_descriptor_file()),
                    self.spec_wallet_file(home, spec_indexes_file()),
                ) {
                    (Some(wallet_path), Some(indexes_path)) => match (wallet, indexes) {
                        (Err(reason), _) => e matches Error::FileNotFoundOrCorrupt(p, r) && p@
                            == wallet_path && r == reason,
                        (Ok(_), Err(reason)) => e matches Error::FileNotFoundOrCorrupt(p, r) && p@
                            == indexes_path && r == reason,
                        (Ok(_), Ok(_)) => false,
                    },
                    _ => e is PathExpansion,
                },
            },
    {
        proof {
            reveal_strlit("descriptor.json");
            reveal_strlit("indexes.json");
            assert("descriptor.json"@ =~= spec_descriptor_file());
            assert("indexes.json"@ =~= spec_indexes_file());
        }
        let wallet_path = match self.filename_for_wallet(home, "descriptor.json") {
            Ok(p) => p,
            Err(e) => {
                return Err(e);
            },
        };
        let indexes_path = match self.filename_for_wallet(home, "indexes.json") {
            Ok(p) => p,
            Err(e) => {
                return Err(e);
            },
        };
        let wallet = match wallet {
            Ok(w) => w,
            Err(reason) => {
                return Err(Error::FileNotFoundOrCorrupt(wallet_path, reason));
            },
        };
        let indexes = match indexes {
            Ok(i) => i,
            Err(reason) => {
                return Err(Error::FileNotFoundOrCorrupt(indexes_path, reason));
            },
        };
        Ok((wallet, indexes))
    }

    /// The cursors to write back when a change index that was handed out is
    /// not used after all: those read, with the change cursor one step back.
    /// Fails as `load_wallet_and_index` does; else, where the change cursor
    /// read is zero and no index can be taken back, with
    /// `FileNotFoundOrCorrupt`, the path of the indexes file and
    /// `NO_CHANGE_INDEX`. Where it fails there is nothing to write: the
    /// stored cursors stay.
    pub fn decrease_change_index(
        &self,
        home: Option<&str>,
        wallet: Result<WalletJson, String>,
        indexes: Result<WalletIndexes, String>,
    ) -> (written: Result<WalletIndexes, Error>)
        ensures
            match written {
                Ok(after) => wallet is Ok && self.spec_wallet_file(home, spec_indexes_file())
                    is Some && (indexes matches Ok(before) && before.change > 0 && after
                    == before.spec_before_change()),
                Err(e) => match (
                    self.spec_wallet_file(home, spec_descriptor_file()),
                    self.spec_wallet_file(home, spec_indexes_file()),
                ) {
                    (Some(wallet_path), Some(indexes_path)) => match (wallet, indexes) {
                        (Err(reason), _) => e matches Error::FileNotFoundOrCorrupt(p, r) && p@
                            == wallet_path && r == reason,
                        (Ok(_), Err(reason)) => e matches Error::FileNotFoundOrCorrupt(p, r) && p@
                            == indexes_path && r == reason,
                        (Ok(_), Ok(read)) => read.change == 0 && (e matches Error::FileNotFoundOrCorrupt(
                            p,
                            r,
                        ) && p@ == indexes_path && r@ == NO_CHANGE_INDEX@),
                    },
                    _ => e is PathExpansion,
                },
            },
    {
        match self.load_wallet_and_index(home, wallet, indexes) {
            Ok((_, loaded)) => {
                let mut indexes = loaded;
                if indexes.change == 0 {
                    match self.save_index(home) {
                        Ok(path) => Err(
                            Error::FileNotFoundOrCorrupt(path, String::from_str(NO_CHANGE_INDEX)),
                        ),
                        Err(e) => Err(e),
                    }
                } else {
                    indexes.decrement_change();
                    Ok(indexes)
                }
            },
            Err(e) => Err(e),
        }
    }
}

} // verus!
