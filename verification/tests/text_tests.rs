use stopwatch::text::decimal;
use stopwatch::text::digit;
use stopwatch::text::hundredths;
use stopwatch::text::repeat;
use stopwatch::text::rounded_quotient;
use stopwatch::text::tenths;

#[test]
fn digits_are_their_characters() {
    let mut d: u8 = 0;
    while d < 10 {
        assert_eq!(digit(d), format!("{}", d));
        d += 1;
    }
}

#[test]
fn decimal_writes_numbers() {
    assert_eq!(decimal(0), "0");
    assert_eq!(decimal(7), "7");
    assert_eq!(decimal(10), "10");
    assert_eq!(decimal(12345), "12345");
    assert_eq!(decimal(1_000_000), "1000000");
    assert_eq!(decimal(u128::MAX), format!("{}", u128::MAX));
}

#[test]
fn rounded_quotient_rounds_half_to_even() {
    assert_eq!(rounded_quotient(0, 7), 0);
    assert_eq!(rounded_quotient(7, 2), 4);
    assert_eq!(rounded_quotient(5, 2), 2);
    assert_eq!(rounded_quotient(1, 2), 0);
    assert_eq!(rounded_quotient(3, 2), 2);
    assert_eq!(rounded_quotient(10, 4), 2);
    assert_eq!(rounded_quotient(14, 4), 4);
    assert_eq!(rounded_quotient(9, 4), 2);
    assert_eq!(rounded_quotient(11, 4), 3);
    assert_eq!(rounded_quotient(10_000, 45), 222);
    assert_eq!(rounded_quotient(30_000, 45), 667);
    assert_eq!(rounded_quotient(u128::MAX, 1), u128::MAX);
    assert_eq!(rounded_quotient(u128::MAX, 2), u128::MAX / 2 + 1);
    assert_eq!(rounded_quotient(u128::MAX - 1, 2), u128::MAX / 2);
    assert_eq!(rounded_quotient(u128::MAX, u128::MAX), 1);
    assert_eq!(rounded_quotient(1, u128::MAX), 0);
}

#[test]
fn tenths_have_one_decimal_place() {
    assert_eq!(tenths(0), "0.0");
    assert_eq!(tenths(5), "0.5");
    assert_eq!(tenths(222), "22.2");
    assert_eq!(tenths(1000), "100.0");
}

#[test]
fn hundredths_have_two_decimal_places() {
    assert_eq!(hundredths(0), "0.00");
    assert_eq!(hundredths(7), "0.07");
    assert_eq!(hundredths(70), "0.70");
    assert_eq!(hundredths(2222), "22.22");
    assert_eq!(hundredths(100_000), "1000.00");
}

#[test]
fn repeat_copies_the_piece() {
    assert_eq!(repeat("%", 0), "");
    assert_eq!(repeat("%", 3), "%%%");
    assert_eq!(repeat("ab", 2), "abab");
    assert_eq!(repeat("%", 26).len(), 26);
}
