use firma::common::error::Error;
use firma::offline::dice::check_dice;

#[test]
fn dice_throws_at_the_threshold_pass_and_one_fewer_fails() {
    // the least number of throws is 256 / log2(sides), rounded up
    for (sides, least) in [(2u32, 256usize), (4, 128), (6, 100), (8, 86), (10, 78), (12, 72), (20, 60)] {
        assert!(check_dice(least, sides).is_ok(), "{} sides", sides);
        assert!(check_dice(least + 1, sides).is_ok());
        assert!(matches!(check_dice(least - 1, sides), Err(Error::InsufficientEntropy)), "{} sides", sides);
    }
}

#[test]
fn dice_with_many_sides_need_few_throws() {
    assert!(check_dice(8, u32::MAX).is_err());
    assert!(check_dice(9, u32::MAX).is_ok());
    assert!(check_dice(16, 65_536).is_ok());
    assert!(check_dice(15, 65_536).is_err());
    assert!(check_dice(usize::MAX, 3).is_ok());
}

#[test]
fn dice_with_less_than_two_sides_never_do() {
    assert!(matches!(check_dice(0, 6), Err(Error::InsufficientEntropy)));
    assert!(matches!(check_dice(1_000_000, 1), Err(Error::InsufficientEntropy)));
    assert!(matches!(check_dice(1_000_000, 0), Err(Error::InsufficientEntropy)));
    assert!(matches!(check_dice(0, 0), Err(Error::InsufficientEntropy)));
}
