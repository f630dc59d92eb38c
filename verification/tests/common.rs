use firma::common::cmd::{Context, DaemonOpts};
use firma::common::error::Error;
use firma::common::file::{below, expand_tilde, kind_dir, Kind, PathBuilder};
use firma::common::indexes::WalletIndexes;
use firma::common::psbt::Network;
use firma::common::script::script_type;
use firma::common::text::{insert_sorted, join};
use firma::common::wallet::{descriptor, WalletJson};
use firma::offline::print::{biggest_dividing_pow, PrintOptions};

const XPUB_1: &str = "xpub661MyMwAqRbcFtXgS5sYJABqqG9YLmC4Q1Rdap9gSE8NqtwybGhePY2gZ29ESFjqJoCu1Rupje8YtGqsefD265TMg7usUDFdp6W1EGMcet8";
const XPUB_2: &str = "xpub661MyMwAqRbcFW31YEwpkMuc5THy2PSt5bDMsktWQcFF8syAmRUapSCGu8ED9W6oDMSgv6Zz8idoc4a6mr8BDzTJY47LJhkJ8UB7WEGuduB";

fn context(datadir: &str) -> Context {
    Context {
        network: Network::Regtest,
        wallet_name: "n2of2".to_string(),
        firma_datadir: datadir.to_string(),
    }
}

fn daemon() -> DaemonOpts {
    DaemonOpts { url: "http://127.0.0.1:18242".to_string(), cookie_file: "/tmp/.cookie".to_string() }
}

#[test]
fn biggest_dividing_pow_of_large_amounts() {
    assert_eq!(biggest_dividing_pow(1), 0);
    assert_eq!(biggest_dividing_pow(10_000_000_000_000_000_000), 19);
    assert_eq!(biggest_dividing_pow(u64::MAX), 0);
    assert_eq!(biggest_dividing_pow(2_100_000_000_000_000), 14);
    // ten times an amount ends in one zero more
    for v in [1u64, 7, 10, 120, 1100030, 999_000] {
        assert_eq!(biggest_dividing_pow(v * 10), biggest_dividing_pow(v) + 1);
        assert_eq!(biggest_dividing_pow(v) == 0, v % 10 != 0);
    }
}

#[test]
fn script_type_of_other_scripts_is_none() {
    assert_eq!(script_type(&vec![]), None);
    assert_eq!(script_type(&vec![0x6a, 0x01, 0x00]), None);
    let mut taproot = vec![0x51, 0x20];
    taproot.extend([7u8; 32]);
    assert_eq!(script_type(&taproot), None);
    let mut long_key = vec![0x41];
    long_key.extend([4u8; 65]);
    long_key.push(0xac);
    assert_eq!(script_type(&long_key), Some(0));
}

#[test]
fn join_puts_the_separator_between() {
    assert_eq!(join(&vec![], ", "), "");
    assert_eq!(join(&vec!["a".to_string()], ", "), "a");
    assert_eq!(join(&vec!["a".to_string(), "".to_string(), "c".to_string()], ", "), "a, , c");
}

#[test]
fn insert_sorted_keeps_order_and_skips_what_is_there() {
    let mut rows: Vec<String> = vec![];
    for t in ["m/1", "m/0", "m/10", "m/1", "m", "m/0'", "m/é"] {
        insert_sorted(&mut rows, t.to_string());
    }
    assert_eq!(rows, vec!["m", "m/0", "m/0'", "m/1", "m/10", "m/é"]);
}

#[test]
fn paths_follow_datadir_network_kind_name_file() {
    let c = context("/data/firma");
    assert_eq!(
        c.filename_for_wallet(None, "descriptor.json").unwrap(),
        "/data/firma/regtest/wallets/n2of2/descriptor.json"
    );
    assert_eq!(c.path_for_wallet_qr(None).unwrap(), "/data/firma/regtest/wallets/n2of2/qr");
    assert_eq!(c.psbts_dir(None).unwrap(), "/data/firma/regtest/psbts");
    assert_eq!(
        c.path_for_qr(None, Kind::MasterKey, Some("r1".to_string())).unwrap(),
        "/data/firma/regtest/keys/r1/qr"
    );
    assert_eq!(c.path_for_qr(None, Kind::PSBT, None).unwrap(), "/data/firma/regtest/psbts/qr");
    assert_eq!(
        c.path_for_qr(None, Kind::PSBT, Some("tx1".to_string())).unwrap(),
        "/data/firma/regtest/psbts/tx1/qr"
    );
    assert_eq!(c.save_index(None).unwrap(), "/data/firma/regtest/wallets/n2of2/indexes.json");
}

#[test]
fn paths_expand_a_leading_tilde() {
    let c = context("~/.firma/");
    assert_eq!(
        c.filename_for_wallet(Some("/home/alice"), "indexes.json").unwrap(),
        "/home/alice/.firma/regtest/wallets/n2of2/indexes.json"
    );
    assert!(matches!(c.filename_for_wallet(None, "indexes.json"), Err(Error::PathExpansion)));
    assert!(matches!(c.psbts_dir(None), Err(Error::PathExpansion)));
    assert_eq!(expand_tilde("~", Some("/root")).unwrap(), "/root");
    assert_eq!(expand_tilde("", None).unwrap(), "");
    assert_eq!(expand_tilde("a~", None).unwrap(), "a~");
}

#[test]
fn paths_need_a_name_for_wallets_and_keys() {
    let c = context("/d");
    assert!(matches!(c.path_for_qr(None, Kind::Wallet, None), Err(Error::MissingName)));
    assert!(matches!(c.path_for_qr(None, Kind::MasterKey, None), Err(Error::MissingName)));
    let t = context("~/d");
    assert!(matches!(t.path_for_qr(None, Kind::Wallet, None), Err(Error::MissingName)));
    let b = PathBuilder::new("/d", Network::Bitcoin, Kind::MasterKey, Some("k".to_string()));
    assert_eq!(b.file(None, "PRIVATE.json").unwrap(), "/d/bitcoin/keys/k/PRIVATE.json");
    assert_eq!(b.type_path(None).unwrap(), "/d/bitcoin/keys");
    let b = PathBuilder::new("/d/", Network::Testnet, Kind::Wallet, Some("w".to_string()));
    assert_eq!(b.file(None, "public.json").unwrap(), "/d/testnet/wallets/w/public.json");
    assert_eq!(below("".to_string(), "x"), "/x");
    assert_eq!(kind_dir(Kind::PSBT), "psbts");
}

#[test]
fn save_wallet_refuses_to_overwrite() {
    let c = context("/d");
    assert_eq!(c.save_wallet(None, false).unwrap(), "/d/regtest/wallets/n2of2/descriptor.json");
    match c.save_wallet(None, true) {
        Err(Error::FileAlreadyExists(path)) => {
            assert_eq!(path, "/d/regtest/wallets/n2of2/descriptor.json")
        }
        other => panic!("{:?}", other),
    }
    assert!(matches!(context("~").save_wallet(None, false), Err(Error::PathExpansion)));
}

fn sample_wallet() -> WalletJson {
    WalletJson::new(
        "n2of2".to_string(),
        2,
        vec![XPUB_1.to_string(), XPUB_2.to_string()],
        "abcdefgh",
        "stuvwxyz",
        daemon(),
        101,
    )
    .unwrap()
}

#[test]
fn load_wallet_and_index_names_the_file_and_the_reason() {
    let c = context("/d");
    let indexes = WalletIndexes { main: 3, change: 1 };
    let (w, i) = c.load_wallet_and_index(None, Ok(sample_wallet()), Ok(indexes)).unwrap();
    assert_eq!(w.name, "n2of2");
    assert_eq!(i, indexes);
    match c.load_wallet_and_index(None, Err("no such file".to_string()), Ok(indexes)) {
        Err(Error::FileNotFoundOrCorrupt(path, reason)) => {
            assert_eq!(path, "/d/regtest/wallets/n2of2/descriptor.json");
            assert_eq!(reason, "no such file");
        }
        other => panic!("{:?}", other.map(|_| ())),
    }
    match c.load_wallet_and_index(None, Ok(sample_wallet()), Err("EOF at line 1".to_string())) {
        Err(Error::FileNotFoundOrCorrupt(path, reason)) => {
            assert_eq!(path, "/d/regtest/wallets/n2of2/indexes.json");
            assert_eq!(reason, "EOF at line 1");
        }
        other => panic!("{:?}", other.map(|_| ())),
    }
    match c.load_wallet_and_index(None, Err("first".to_string()), Err("second".to_string())) {
        Err(Error::FileNotFoundOrCorrupt(_, reason)) => assert_eq!(reason, "first"),
        other => panic!("{:?}", other.map(|_| ())),
    }
}

#[test]
fn indexes_advance_by_one_and_change_can_be_taken_back() {
    let mut indexes = WalletIndexes::new();
    assert_eq!(indexes, WalletIndexes { main: 0, change: 0 });
    assert_eq!(indexes.next_external(), Some(0));
    assert_eq!(indexes.next_external(), Some(1));
    assert_eq!(indexes, WalletIndexes { main: 2, change: 0 });
    assert_eq!(indexes.next_change(), Some(0));
    assert_eq!(indexes, WalletIndexes { main: 2, change: 1 });
    indexes.decrement_change();
    assert_eq!(indexes, WalletIndexes { main: 2, change: 0 });
    let mut last = WalletIndexes { main: u32::MAX, change: u32::MAX };
    assert_eq!(last.next_external(), None);
    assert_eq!(last.next_change(), None);
    assert_eq!(last, WalletIndexes { main: u32::MAX, change: u32::MAX });
}

#[test]
fn decrease_change_index_gives_the_cursors_to_write() {
    let c = context("/d");
    let written = c
        .decrease_change_index(None, Ok(sample_wallet()), Ok(WalletIndexes { main: 4, change: 2 }))
        .unwrap();
    assert_eq!(written, WalletIndexes { main: 4, change: 1 });
    match c.decrease_change_index(None, Ok(sample_wallet()), Err("gone".to_string())) {
        Err(Error::FileNotFoundOrCorrupt(path, reason)) => {
            assert_eq!(path, "/d/regtest/wallets/n2of2/indexes.json");
            assert_eq!(reason, "gone");
        }
        other => panic!("{:?}", other),
    }
    match c.decrease_change_index(None, Err("absent".to_string()), Err("gone".to_string())) {
        Err(Error::FileNotFoundOrCorrupt(path, reason)) => {
            assert_eq!(path, "/d/regtest/wallets/n2of2/descriptor.json");
            assert_eq!(reason, "absent");
        }
        other => panic!("{:?}", other),
    }
    let home = context("~/d");
    assert!(matches!(
        home.decrease_change_index(None, Ok(sample_wallet()), Ok(WalletIndexes { main: 4, change: 2 })),
        Err(Error::PathExpansion)
    ));
}

#[test]
fn decrease_change_index_refuses_a_cursor_of_zero() {
    let c = context("/d");
    match c.decrease_change_index(None, Ok(sample_wallet()), Ok(WalletIndexes { main: 4, change: 0 })) {
        Err(Error::FileNotFoundOrCorrupt(path, reason)) => {
            assert_eq!(path, "/d/regtest/wallets/n2of2/indexes.json");
            assert_eq!(reason, "no change index to take back");
        }
        other => panic!("{:?}", other),
    }
    let one = c
        .decrease_change_index(None, Ok(sample_wallet()), Ok(WalletIndexes { main: 0, change: 1 }))
        .unwrap();
    assert_eq!(one, WalletIndexes { main: 0, change: 0 });
}

#[test]
fn wallet_fingerprints_are_those_of_its_keys() {
    let w = sample_wallet();
    assert_eq!(w.required_sig, 2);
    assert_eq!(w.fingerprints.len(), 2);
    assert!(w.fingerprints.contains(&0x3442193e));
    assert!(w.fingerprints.contains(&0xbd16bee5));
    for x in &w.xpubs {
        let key: bitcoin::util::bip32::ExtendedPubKey = x.parse().unwrap();
        let f = u32::from_be_bytes(key.fingerprint().into_bytes());
        assert!(w.fingerprints.contains(&f));
    }
    assert_eq!(w.main_descriptor, format!("wsh(sortedmulti(2,{}/0/*,{}/0/*))#abcdefgh", XPUB_1, XPUB_2));
    assert_eq!(w.change_descriptor, format!("wsh(sortedmulti(2,{}/1/*,{}/1/*))#stuvwxyz", XPUB_1, XPUB_2));
    assert_eq!(w.created_at_height, 101);
    assert_eq!(w.daemon_opts.url, "http://127.0.0.1:18242");
}

#[test]
fn wallet_needs_a_threshold_within_the_keys_and_real_keys() {
    let keys = || vec![XPUB_1.to_string(), XPUB_2.to_string()];
    for threshold in [0usize, 3] {
        let w = WalletJson::new("w".to_string(), threshold, keys(), "a", "b", daemon(), 0);
        assert!(matches!(w, Err(Error::Parse(_))));
    }
    let w = WalletJson::new("w".to_string(), 1, keys(), "a", "b", daemon(), 0);
    assert!(w.is_ok());
    let bad = vec![XPUB_1.to_string(), "xpub661MyMwAqRbc".to_string()];
    let w = WalletJson::new("w".to_string(), 1, bad, "a", "b", daemon(), 0);
    assert!(matches!(w, Err(Error::Parse(_))));
    let w = WalletJson::new("w".to_string(), 1, vec![], "a", "b", daemon(), 0);
    assert!(matches!(w, Err(Error::Parse(_))));
}

#[test]
fn descriptor_lists_the_keys_of_one_chain() {
    assert_eq!(descriptor(1, &vec![], 0), "wsh(sortedmulti(1))");
    assert_eq!(descriptor(2, &vec!["A".to_string(), "B".to_string()], 1), "wsh(sortedmulti(2,A/1/*,B/1/*))");
}

#[test]
fn print_options_hold_the_two_files() {
    let opt = PrintOptions {
        psbt_file: "psbt.json".to_string(),
        wallet_descriptor_file: "descriptor.json".to_string(),
    };
    assert_eq!(opt.clone().psbt_file, "psbt.json");
    assert_eq!(opt.wallet_descriptor_file, "descriptor.json");
}

#[test]
fn release_change_takes_back_only_the_last_index() {
    let mut indexes = WalletIndexes { main: 5, change: 7 };
    let allocated = indexes.next_change().unwrap();
    assert_eq!(allocated, 7);
    assert!(indexes.release_change(allocated));
    assert_eq!(indexes, WalletIndexes { main: 5, change: 7 });
    // released once, it is not there to release again
    assert!(!indexes.release_change(allocated));
    assert_eq!(indexes, WalletIndexes { main: 5, change: 7 });
    let first = indexes.next_change().unwrap();
    let second = indexes.next_change().unwrap();
    assert!(!indexes.release_change(first));
    assert_eq!(indexes, WalletIndexes { main: 5, change: 9 });
    assert!(indexes.release_change(second));
    assert_eq!(indexes, WalletIndexes { main: 5, change: 8 });
    let mut fresh = WalletIndexes::new();
    assert!(!fresh.release_change(0));
    assert!(!fresh.release_change(u32::MAX));
    assert_eq!(fresh, WalletIndexes::new());
}
