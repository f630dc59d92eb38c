//! Where the files of a data directory are.

use vstd::prelude::*;
use vstd::string::*;
use crate::common::error::Error;
use crate::common::psbt::Network;

verus! {

/// What a file holds.
#[derive(Clone, Copy, Debug, PartialEq, Eq, Structural)]
pub enum Kind {
    Wallet,
    MasterKey,
    PSBT,
}

/// The name of a network, as its directory is called.
pub open spec fn spec_network_text(network: Network) -> Seq<char> {
    match network {
        Network::Bitcoin => seq!['b', 'i', 't', 'c', 'o', 'i', 'n'],
        Network::Testnet => seq!['t', 'e', 's', 't', 'n', 'e', 't'],
        Network::Regtest => seq!['r', 'e', 'g', 't', 'e', 's', 't'],
    }
}

/// The directory of a kind of file.
pub open spec fn spec_kind_dir(kind: Kind) -> Seq<char> {
    match kind {
        Kind::Wallet => seq!['w', 'a', 'l', 'l', 'e', 't', 's'],
        Kind::MasterKey => seq!['k', 'e', 'y', 's'],
        Kind::PSBT => seq!['p', 's', 'b', 't', 's'],
    }
}

/// Files of this kind live in a directory of their own, which has a name.
pub open spec fn spec_needs_name(kind: Kind) -> bool {
    kind != Kind::PSBT
}

/// The data directory with a leading tilde replaced by the home directory;
/// none if there is a tilde and no home.
pub open spec fn spec_expand_tilde(datadir: Seq<char>, home: Option<Seq<char>>) -> Option<
    Seq<char>,
> {
    if datadir.len() > 0 && datadir[0] == '~' {
        match home {
            Some(h) => Some(h + datadir.skip(1)),
            None => None,
        }
    } else {
        Some(datadir)
    }
}

/// `part` below `base`: one slash stands between them.
pub open spec fn spec_below(base: Seq<char>, part: Seq<char>) -> Seq<char> {
    if base.len() > 0 && base.last() == '/' {
        base + part
    } else {
        base + seq!['/'] + part
    }
}

/// The directory of a kind of file on a network: `<datadir>/<network>/<kind>`.
pub open spec fn spec_type_path(
    datadir: Seq<char>,
    home: Option<Seq<char>>,
    network: Network,
    kind: Kind,
) -> Option<Seq<char>> {
    match spec_expand_tilde(datadir, home) {
        Some(root) => Some(
            spec_below(spec_below(root, spec_network_text(network)), spec_kind_dir(kind)),
        ),
        None => None,
    }
}

/// The path of a file: `<datadir>/<network>/<kind>/[<name>/]<file>`.
pub open spec fn spec_file_path(
    datadir: Seq<char>,
    home: Option<Seq<char>>,
    network: Network,
    kind: Kind,
    name: Option<Seq<char>>,
    file: Seq<char>,
) -> Option<Seq<char>> {
    match (spec_type_path(datadir, home, network, kind), name) {
        (Some(dir), Some(n)) => Some(spec_below(spec_below(dir, n), file)),
        (Some(dir), None) => if spec_needs_name(kind) {
            None
        } else {
            Some(spec_below(dir, file))
        },
        (None, _) => None,
    }
}

/// The view of the text, if there is one.
pub open spec fn spec_text(text: Option<&str>) -> Option<Seq<char>> {
    match text {
        Some(t) => Some(t@),
        None => None,
    }
}

/// The view of the string, if there is one.
pub open spec fn spec_string(text: Option<String>) -> Option<Seq<char>> {
    match text {
        Some(t) => Some(t@),
        None => None,
    }
}

/// Formats a `bitcoin::Network` with `{}`, which writes `bitcoin`, `testnet`
/// or `regtest`.
#[verifier::external_body]
pub(crate) fn network_text(network: Network) -> (text: String)
    ensures
        text@ == spec_network_text(network),
{
    let network = match network {
        Network::Bitcoin => bitcoin::Network::Bitcoin,
        Network::Testnet => bitcoin::Network::Testnet,
        Network::Regtest => bitcoin::Network::Regtest,
    };
    format!("{}", network)
}

/// The data directory with a leading tilde replaced by `home`.
pub fn expand_tilde(datadir: &str, home: Option<&str>) -> (path: Result<String, Error>)
    ensures
        match path {
            Ok(p) => spec_expand_tilde(datadir@, spec_text(home)) == Some(p@),
            Err(e) => e is PathExpansion && spec_expand_tilde(datadir@, spec_text(home)) is None,
        },
{
    let len = datadir.unicode_len();
    if len > 0 && datadir.get_char(0) == '~' {
        match home {
            Some(h) => {
                let mut path = String::from_str(h);
                path.append(datadir.substring_char(1, len));
                assert(datadir@.subrange(1, len as int) =~= datadir@.skip(1));
                Ok(path)
            },
            None => Err(Error::PathExpansion),
        }
    } else {
        Ok(String::from_str(datadir))
    }
}

/// Goes down from `base` into `part`.
pub fn below(base: String, part: &str) -> (path: String)
    ensures
        path@ == spec_below(base@, part@),
{
    let len = base.as_str().unicode_len();
    let ghost start = base@;
    let mut path = base;
    if !(len > 0 && path.as_str().get_char(len - 1) == '/') {
        proof {
            reveal_strlit("/");
        }
        path.append("/");
        assert(path@ =~= start + seq!['/']);
    }
    path.append(part);
    path
}

/// The directory of a kind of file.
pub fn kind_dir(kind: Kind) -> (dir: &'static str)
    ensures
        dir@ == spec_kind_dir(kind),
{
    proof {
        reveal_strlit("wallets");
        reveal_strlit("keys");
        reveal_strlit("psbts");
    }
    let dir = match kind {
        Kind::Wallet => "wallets",
        Kind::MasterKey => "keys",
        Kind::PSBT => "psbts",
    };
    assert(dir@ =~= spec_kind_dir(kind));
    dir
}

/// Says where a file of a kind is, on a network, under a name.
#[derive(Debug)]
pub struct PathBuilder {
    pub datadir: String,
    pub network: Network,
    pub kind: Kind,
    pub name: Option<String>,
}

impl PathBuilder {
    pub fn new(datadir: &str, network: Network, kind: Kind, name: Option<String>) -> (builder: Self)
        ensures
            builder.datadir@ == datadir@,
            builder.network == network,
            builder.kind == kind,
            builder.name == name,
    {
        PathBuilder { datadir: String::from_str(datadir), network, kind, name }
    }

    /// The directory of the kind: `<datadir>/<network>/<kind>`. Fails with
    /// `PathExpansion` if the data directory begins with a tilde and there is
    /// no home.
    pub fn type_path(&self, home: Option<&str>) -> (path: Result<String, Error>)
        ensures
            match path {
                Ok(p) => spec_type_path(self.datadir@, spec_text(home), self.network, self.kind)
                    == Some(p@),
                Err(e) => e is PathExpansion && spec_expand_tilde(self.datadir@, spec_text(home))
                    is None,
            },
    {
        let root = match expand_tilde(self.datadir.as_str(), home) {
            Ok(r) => r,
            Err(e) => {
                return Err(e);
            },
        };
        let network = network_text(self.network);
        Ok(below(below(root, network.as_str()), kind_dir(self.kind)))
    }

    /// The path of `file`: `<datadir>/<network>/<kind>/[<name>/]<file>`. Fails
    /// with `MissingName` if the kind needs a name and there is none, else
    /// with `PathExpansion` if the data directory begins with a tilde and
    /// there is no home.
    pub fn file(&self, home: Option<&str>, file: &str) -> (path: Result<String, Error>)
        ensures
            match path {
                Ok(p) => spec_file_path(
                    self.datadir@,
                    spec_text(home),
                    self.network,
                    self.kind,
                    spec_string(self.name),
                    file@,
                ) == Some(p@),
                Err(e) => spec_file_path(
                    self.datadir@,
                    spec_text(home),
                    self.network,
                    self.kind,
                    spec_string(self.name),
                    file@,
                ) is None && if spec_needs_name(self.kind) && self.name is None {
                    e is MissingName
                } else {
                    e is PathExpansion && spec_expand_tilde(self.datadir@, spec_text(home))
                        is None
                },
            },
    {
        if self.name.is_none() && self.kind != Kind::PSBT {
            return Err(Error::MissingName);
        }
        let dir = match self.type_path(home) {
            Ok(d) => d,
            Err(e) => {
                return Err(e);
            },
        };
        match &self.name {
            Some(name) => Ok(below(below(dir, name.as_str()), file)),
            None => Ok(below(dir, file)),
        }
    }
}

} // verus!
