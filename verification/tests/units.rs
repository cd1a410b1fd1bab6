use guessing_game::compare::{equality_match, GuessResult};
use guessing_game::level::{lvl_checker, upper_bound_for_level};
use guessing_game::parse::{parse_i32, parse_u8};

#[test]
fn valid_levels_pass_unchanged() {
    for lvl in 1u8..=4 {
        assert_eq!(lvl_checker(&lvl), Ok(lvl));
    }
}

#[test]
fn invalid_levels_are_rejected() {
    for lvl in [0u8, 5, 6, 9, 100, 255] {
        assert_eq!(
            lvl_checker(&lvl),
            Err(String::from("Invalid lvl : must be between 1 and 4"))
        );
    }
}

#[test]
fn levels_map_to_fixed_bounds() {
    assert_eq!(upper_bound_for_level(1), 500);
    assert_eq!(upper_bound_for_level(2), 1000);
    assert_eq!(upper_bound_for_level(3), 5000);
    assert_eq!(upper_bound_for_level(4), 10000);
}

#[test]
fn comparator_reports_target_side() {
    assert_eq!(equality_match(1, 2), GuessResult::Greater);
    assert_eq!(equality_match(2, 1), GuessResult::Less);
    assert_eq!(equality_match(5, 5), GuessResult::Equal);
    assert_eq!(equality_match(-3, 7), GuessResult::Greater);
    assert_eq!(equality_match(7, -3), GuessResult::Less);
    assert_eq!(equality_match(-10, -10), GuessResult::Equal);
    assert_eq!(equality_match(i32::MIN, i32::MAX), GuessResult::Greater);
    assert_eq!(equality_match(i32::MAX, i32::MIN), GuessResult::Less);
    assert_eq!(equality_match(i32::MIN, i32::MIN), GuessResult::Equal);
}

#[test]
fn parse_u8_accepts_plain_numbers() {
    assert_eq!(parse_u8(b"0"), Some(0));
    assert_eq!(parse_u8(b"4"), Some(4));
    assert_eq!(parse_u8(b"255"), Some(255));
    assert_eq!(parse_u8(b"+7"), Some(7));
    assert_eq!(parse_u8(b"  42  \n"), Some(42));
    assert_eq!(parse_u8(b"007"), Some(7));
}

#[test]
fn parse_u8_rejects_bad_input() {
    assert_eq!(parse_u8(b""), None);
    assert_eq!(parse_u8(b"   "), None);
    assert_eq!(parse_u8(b"abc"), None);
    assert_eq!(parse_u8(b"-1"), None);
    assert_eq!(parse_u8(b"+"), None);
    assert_eq!(parse_u8(b"256"), None);
    assert_eq!(parse_u8(b"300"), None);
    assert_eq!(parse_u8(b"4 2"), None);
    assert_eq!(parse_u8(b"12a"), None);
}

#[test]
fn parse_i32_accepts_signed_numbers() {
    assert_eq!(parse_i32(b"250"), Some(250));
    assert_eq!(parse_i32(b"-17"), Some(-17));
    assert_eq!(parse_i32(b"+17"), Some(17));
    assert_eq!(parse_i32(b"0"), Some(0));
    assert_eq!(parse_i32(b" \t-8\r\n"), Some(-8));
    assert_eq!(parse_i32(b"2147483647"), Some(i32::MAX));
    assert_eq!(parse_i32(b"-2147483648"), Some(i32::MIN));
}

#[test]
fn parse_i32_rejects_bad_input() {
    assert_eq!(parse_i32(b""), None);
    assert_eq!(parse_i32(b"notanumber"), None);
    assert_eq!(parse_i32(b"--5"), None);
    assert_eq!(parse_i32(b"+-5"), None);
    assert_eq!(parse_i32(b"-"), None);
    assert_eq!(parse_i32(b"2147483648"), None);
    assert_eq!(parse_i32(b"-2147483649"), None);
    assert_eq!(parse_i32(b"12.5"), None);
}
