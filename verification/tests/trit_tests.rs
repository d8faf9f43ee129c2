use minitri::BalancedTrit;
use minitri::TrinaryError;

#[test]
fn create_trits_from_chars() {
    assert_eq!(BalancedTrit::PlusOne, BalancedTrit::from_char('1').unwrap());
    assert_eq!(BalancedTrit::Zero, BalancedTrit::from_char('0').unwrap());
    assert_eq!(BalancedTrit::MinusOne, BalancedTrit::from_char('-').unwrap());
}

#[test]
fn create_trits_from_values() {
    assert_eq!(BalancedTrit::PlusOne, BalancedTrit::from_i8(1).unwrap());
    assert_eq!(BalancedTrit::Zero, BalancedTrit::from_i8(0).unwrap());
    assert_eq!(BalancedTrit::MinusOne, BalancedTrit::from_i8(-1).unwrap());
}

#[test]
#[should_panic]
fn trit_fail_for_invalid_char() {
    let _ = BalancedTrit::from_char('2').unwrap();
}

#[test]
#[should_panic]
fn trit_fail_for_invalid_value() {
    let _ = BalancedTrit::from_i8(2).unwrap();
}

#[test]
fn trit_symbol_round_trip() {
    for c in ['1', '0', '-'] {
        let t = BalancedTrit::from_char(c).unwrap();
        assert_eq!(c, t.to_char());
    }
}

#[test]
fn trit_values_and_indices() {
    assert_eq!(-1, BalancedTrit::MinusOne.value());
    assert_eq!(0, BalancedTrit::Zero.value());
    assert_eq!(1, BalancedTrit::PlusOne.value());
    assert_eq!(2, BalancedTrit::MinusOne.index());
    assert_eq!(0, BalancedTrit::Zero.index());
    assert_eq!(1, BalancedTrit::PlusOne.index());
}

#[test]
fn trit_rejects_one_beyond_alphabet() {
    assert!(matches!(
        BalancedTrit::from_char('2'),
        Err(TrinaryError::InvalidTritChar)
    ));
    assert!(matches!(
        BalancedTrit::from_i8(2),
        Err(TrinaryError::InvalidTritChar)
    ));
    assert!(matches!(
        BalancedTrit::from_i8(-2),
        Err(TrinaryError::InvalidTritChar)
    ));
}
