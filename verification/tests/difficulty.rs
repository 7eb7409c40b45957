use block_miner::difficulty::meets_difficulty;

#[test]
fn any_text_meets_difficulty_zero() {
    assert!(meets_difficulty("", 0));
    assert!(meets_difficulty("ff", 0));
    assert!(meets_difficulty("00", 0));
}

#[test]
fn counts_leading_zero_characters() {
    assert!(meets_difficulty("00ab", 1));
    assert!(meets_difficulty("00ab", 2));
    assert!(!meets_difficulty("00ab", 3));
    assert!(!meets_difficulty("a00b", 1));
    assert!(!meets_difficulty("0a0b", 2));
}

#[test]
fn a_difficulty_beyond_the_length_is_never_met() {
    assert!(meets_difficulty("000", 3));
    assert!(!meets_difficulty("000", 4));
    assert!(!meets_difficulty("", 1));
    assert!(!meets_difficulty("0000", u64::MAX));
}

#[test]
fn zeros_are_counted_in_characters_not_bytes() {
    assert!(meets_difficulty("0\u{e9}0", 1));
    assert!(!meets_difficulty("0\u{e9}0", 2));
    assert!(!meets_difficulty("\u{e9}00", 1));
    assert!(!meets_difficulty("\u{2713}", 1));
    assert!(meets_difficulty("00\u{1f600}", 2));
    assert!(!meets_difficulty("00\u{1f600}", 3));
}

#[test]
fn agrees_with_a_prefix_of_repeated_zeros() {
    let samples = ["", "0", "00", "000a", "0a00", "a", "0000000000", "00\u{e9}"];
    for text in samples {
        for difficulty in 0..12u64 {
            let prefix = "0".repeat(difficulty as usize);
            assert_eq!(meets_difficulty(text, difficulty), text.starts_with(&prefix));
        }
    }
}
