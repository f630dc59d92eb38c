use firma::offline::print::{biggest_dividing_pow, script_type};

fn hex_script(s: &str) -> Vec<u8> {
    bitcoin::blockdata::script::Script::from(hex::decode(s).unwrap()).into_bytes()
}

#[test]
fn test_biggest_dividing_pow() {
    assert_eq!(biggest_dividing_pow(3), 0);
    assert_eq!(biggest_dividing_pow(10), 1);
    assert_eq!(biggest_dividing_pow(11), 0);
    assert_eq!(biggest_dividing_pow(110), 1);
    assert_eq!(biggest_dividing_pow(1100), 2);
    assert_eq!(biggest_dividing_pow(1100030), 1);
}

#[test]
fn test_script_type() {
    let s = hex_script("21021aeaf2f8638a129a3156fbe7e5ef635226b0bafd495ff03afe2c843d7e3a4b51ac");
    assert_eq!(script_type(&s), Some(0usize));

    let s = hex_script("76a91402306a7c23f3e8010de41e9e591348bb83f11daa88ac");
    assert_eq!(script_type(&s), Some(1usize));

    let s = hex_script("a914acc91e6fef5c7f24e5c8b3f11a664aa8f1352ffd87");
    assert_eq!(script_type(&s), Some(2usize));

    let s = hex_script("00140c3e2a4e0911aac188fe1cba6ef3d808326e6d0a");
    assert_eq!(script_type(&s), Some(3usize));

    let s = hex_script("00201775ead41acefa14d2d534d6272da610cc35855d0de4cab0f5c1a3f894921989");
    assert_eq!(script_type(&s), Some(4usize));
}
