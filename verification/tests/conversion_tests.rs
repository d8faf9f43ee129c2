use minitri::decode5;
use minitri::encode5;
use minitri::Encoding;
use minitri::T1B1;
use minitri::T3B1;
use minitri::T5B1;
use minitri::ToT5B1;
use minitri::TrinaryError;

#[test]
fn trit_tryte_round_trip() {
    let trits = T1B1::from_str("10-01-110").unwrap();
    let trytes = trits.to_t3b1().unwrap();
    assert_eq!(3, trytes.len());
    let back = trytes.to_t1b1();
    assert_eq!("10-01-110", back.display());
}

#[test]
fn t5b1_round_trip() {
    let trits = T1B1::from_str("10-01-1100-011").unwrap();
    assert!(matches!(
        trits.to_t5b1(),
        Err(TrinaryError::IncompatibleLength)
    ));

    let trits = T1B1::from_str("10-01-1100-0110").unwrap();
    let bytes = trits.to_t5b1().unwrap();
    assert_eq!(3, bytes.len());
    let back = bytes.to_t1b1();
    assert_eq!("10-01-1100-0110", back.display());
}

#[test]
fn t9b2_round_trip() {
    let trits = T1B1::from_str("10--110-0").unwrap();
    let pairs = trits.to_t9b2().unwrap();
    assert_eq!(2, pairs.len());
    let back = pairs.to_t1b1();
    assert_eq!("10--110-0", back.display());
}

#[test]
fn t3b1_to_t5b1_fast_path() {
    let trytes = T3B1::from_str("ABCDE").unwrap();
    let bytes = trytes.to_t5b1().unwrap();
    assert_eq!(3, bytes.len());

    let back = bytes.to_t1b1().to_t3b1().unwrap();
    assert_eq!("ABCDE", back.display());

    let pivot = trytes.to_t1b1().to_t5b1().unwrap();
    assert_eq!(bytes.get(0), pivot.get(0));
    assert_eq!(bytes.get(1), pivot.get(1));
    assert_eq!(bytes.get(2), pivot.get(2));
}

#[test]
fn t3b1_to_t9b2_fast_path() {
    let trytes = T3B1::from_str("ABC").unwrap();
    let pairs = trytes.to_t9b2().unwrap();
    assert_eq!(2, pairs.len());

    let back = pairs.to_t1b1().to_t3b1().unwrap();
    assert_eq!("ABC", back.display());
}

#[test]
fn t5b1_biased_encoding_of_boundary_sums() {
    let bytes = T1B1::from_str("00000").unwrap().to_t5b1().unwrap();
    assert_eq!(1, bytes.len());
    assert_eq!(0, bytes.get(0));

    let bytes = T1B1::from_str("-0000").unwrap().to_t5b1().unwrap();
    assert_eq!(242, bytes.get(0));

    let bytes = T1B1::from_str("10000").unwrap().to_t5b1().unwrap();
    assert_eq!(1, bytes.get(0));

    let bytes = T1B1::from_str("10-01").unwrap().to_t5b1().unwrap();
    assert_eq!(73, bytes.get(0));
}

#[test]
fn every_t5b1_byte_survives_decode_and_encode() {
    for b in 0..=242u8 {
        let ds = decode5(b).unwrap();
        assert_eq!(b, encode5(&ds).unwrap());
    }
}

#[test]
fn decode5_rejects_byte_beyond_range() {
    assert!(matches!(decode5(243), Err(TrinaryError::InvalidT5B1Byte)));
    assert!(matches!(decode5(255), Err(TrinaryError::InvalidT5B1Byte)));
    assert!(matches!(
        encode5(&[2, 0, 0, 0, 0]),
        Err(TrinaryError::InvalidTritChar)
    ));
}

#[test]
fn t5b1_from_u8_checks_the_buffer() {
    let bytes = T5B1::from_u8(&[0, 121, 242]).unwrap();
    assert_eq!(3, bytes.len());
    assert_eq!(242, bytes.get(2));

    assert!(matches!(
        T5B1::from_u8(&[0, 243]),
        Err(TrinaryError::InvalidT5B1Byte)
    ));
}

#[test]
fn incompatible_lengths_are_rejected() {
    let four = T1B1::from_str("10-1").unwrap();
    assert!(matches!(
        four.to_t3b1(),
        Err(TrinaryError::IncompatibleLength)
    ));
    assert!(matches!(
        four.to_t5b1(),
        Err(TrinaryError::IncompatibleLength)
    ));
    assert!(matches!(
        four.to_t9b2(),
        Err(TrinaryError::IncompatibleLength)
    ));

    let two = T3B1::from_str("AB").unwrap();
    assert!(matches!(
        two.to_t9b2(),
        Err(TrinaryError::IncompatibleLength)
    ));
    let three = T3B1::from_str("ABC").unwrap();
    assert!(matches!(
        three.to_t5b1(),
        Err(TrinaryError::IncompatibleLength)
    ));
}

#[test]
fn empty_inputs_convert_to_empty_containers() {
    let empty = T1B1::from_str("").unwrap();
    assert_eq!(0, empty.to_t3b1().unwrap().len());
    assert_eq!(0, empty.to_t5b1().unwrap().len());
    assert_eq!(0, empty.to_t9b2().unwrap().len());
    assert_eq!(0, T5B1::from_u8(&[]).unwrap().len());
}
