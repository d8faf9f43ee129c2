use minitri::Trits;
use minitri::TrinaryError;
use minitri::T1B1;
use minitri::T3B1;
use minitri::T5B1;
use minitri::T9B2;

#[test]
fn generic_sequence_over_t1b1() {
    let mut trits: Trits<T1B1> = Trits::new();
    trits.add_trits("10-").unwrap();
    trits.add_trytes("ABC").unwrap();
    assert_eq!(12, trits.len());
}

#[test]
fn generic_sequence_over_t3b1() {
    let mut trits: Trits<T3B1> = Trits::new();
    trits.add_trits("10-").unwrap();
    trits.add_trytes("ABC").unwrap();
    assert_eq!(4, trits.len());
}

#[test]
fn generic_sequence_over_t5b1() {
    let mut trits: Trits<T5B1> = Trits::new();
    trits.add_trits("10-1-10-1-").unwrap();
    trits.add_trytes("ABCDE").unwrap();
    assert_eq!(5, trits.len());
}

#[test]
fn generic_sequence_over_t9b2() {
    let mut trits: Trits<T9B2> = Trits::new();
    trits.add_trits("10--110-0").unwrap();
    trits.add_trytes("ABC").unwrap();
    assert_eq!(4, trits.len());
}

#[test]
fn generic_sequence_default_and_capacity() {
    let trits = Trits::default();
    assert_eq!(0, trits.len());

    let trits: Trits<T5B1> = Trits::with_capacity(16);
    assert_eq!(0, trits.len());
}

#[test]
fn generic_sequence_rejects_incompatible_lengths() {
    let mut trits: Trits<T5B1> = Trits::new();
    assert!(matches!(
        trits.add_trits("1"),
        Err(TrinaryError::IncompatibleLength)
    ));
    assert!(matches!(
        trits.add_trytes("A"),
        Err(TrinaryError::IncompatibleLength)
    ));
    assert_eq!(0, trits.len());
}

#[test]
fn generic_sequence_rejects_bad_symbols() {
    let mut trits: Trits<T1B1> = Trits::new();
    assert!(matches!(
        trits.add_trits("102"),
        Err(TrinaryError::InvalidTritChar)
    ));
    assert!(matches!(
        trits.add_trytes("AbC"),
        Err(TrinaryError::InvalidTryteChar)
    ));
    assert_eq!(0, trits.len());
}
