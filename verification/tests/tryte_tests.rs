use minitri::BalancedTryte;
use minitri::TrinaryError;

#[test]
fn create_trytes_from_chars() {
    let tryte = BalancedTryte::from_char('A').unwrap();
    assert_eq!(1, tryte.value());

    let tryte = BalancedTryte::from_char('M').unwrap();
    assert_eq!(13, tryte.value());

    let tryte = BalancedTryte::from_char('9').unwrap();
    assert_eq!(0, tryte.value());

    let tryte = BalancedTryte::from_char('N').unwrap();
    assert_eq!(-13, tryte.value());

    let tryte = BalancedTryte::from_char('Z').unwrap();
    assert_eq!(-1, tryte.value());
}

#[test]
fn create_trytes_from_values() {
    assert_eq!(BalancedTryte::A, BalancedTryte::from_i8(1).unwrap());
    assert_eq!(BalancedTryte::M, BalancedTryte::from_i8(13).unwrap());
    assert_eq!(BalancedTryte::Nine, BalancedTryte::from_i8(0).unwrap());
    assert_eq!(BalancedTryte::N, BalancedTryte::from_i8(-13).unwrap());
    assert_eq!(BalancedTryte::Z, BalancedTryte::from_i8(-1).unwrap());
}

#[test]
#[should_panic]
fn tryte_fail_for_invalid_char() {
    let _ = BalancedTryte::from_char('a').unwrap();
}

#[test]
#[should_panic]
fn tryte_fail_for_invalid_value() {
    let _ = BalancedTryte::from_i8(14).unwrap();
}

#[test]
fn tryte_symbol_round_trip() {
    let alphabet = "9ABCDEFGHIJKLMNOPQRSTUVWXYZ";
    for c in alphabet.chars() {
        let t = BalancedTryte::from_char(c).unwrap();
        assert_eq!(c, t.to_char());
    }
}

#[test]
fn tryte_decomposition() {
    assert_eq!([1, 0, 0], BalancedTryte::from_char('A').unwrap().as_trits());
    assert_eq!([-1, 0, 0], BalancedTryte::from_char('Z').unwrap().as_trits());
    assert_eq!([0, 0, 0], BalancedTryte::from_char('9').unwrap().as_trits());
    assert_eq!([1, 1, 1], BalancedTryte::from_char('M').unwrap().as_trits());
    assert_eq!(
        [-1, -1, -1],
        BalancedTryte::from_char('N').unwrap().as_trits()
    );
}

#[test]
fn tryte_decomposition_sums_to_value() {
    for v in -13..=13 {
        let t = BalancedTryte::from_i8(v).unwrap();
        let ds = t.as_trits();
        assert_eq!(v, ds[0] + 3 * ds[1] + 9 * ds[2]);
        for d in ds {
            assert!(d == -1 || d == 0 || d == 1);
        }
    }
}

#[test]
fn tryte_index_round_trip() {
    for i in 0..=26 {
        let t = BalancedTryte::from_index(i).unwrap();
        assert_eq!(i, t.index());
    }
}

#[test]
fn tryte_rejects_one_beyond_alphabet() {
    assert!(matches!(
        BalancedTryte::from_char('a'),
        Err(TrinaryError::InvalidTryteChar)
    ));
    assert!(matches!(
        BalancedTryte::from_i8(14),
        Err(TrinaryError::InvalidTryteChar)
    ));
    assert!(matches!(
        BalancedTryte::from_i8(-14),
        Err(TrinaryError::InvalidTryteChar)
    ));
    assert!(matches!(
        BalancedTryte::from_index(27),
        Err(TrinaryError::InvalidTryteIndex)
    ));
}
