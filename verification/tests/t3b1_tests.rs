use minitri::Encoding;
use minitri::T3B1;

#[test]
fn new_t3b1() {
    let _ = T3B1::new();
}

#[test]
fn t3b1_from_i8() {
    let input = vec![13, 9, -13, 9, -7, -9, 9];
    let _ = T3B1::from_i8(&input).unwrap();
}

#[test]
fn new_t3b1_from_str() {
    let trytes = T3B1::from_str("MINI9TRI").unwrap();

    assert_eq!(8, trytes.len());
}

#[test]
fn push_and_pop() {
    let mut trytes = T3B1::new();
    assert_eq!(0, trytes.len());

    trytes.push('9').unwrap();
    trytes.push('A').unwrap();
    assert_eq!(2, trytes.len());

    trytes.pop();
    assert_eq!(1, trytes.len());
}

#[test]
fn display_t3b1() {
    let trytes = T3B1::from_str("MINI9TRI").unwrap();

    assert_eq!("MINI9TRI", trytes.display());
}

#[test]
fn t3b1_resize_with_push_and_pop() {
    let mut trytes = T3B1::new();
    assert_eq!(0, trytes.len());

    trytes.push('9').expect("error pushing tryte");
    trytes.push('A').expect("error pushing tryte");
    assert_eq!(2, trytes.len());

    trytes.pop();
    assert_eq!(1, trytes.len());
}

#[test]
fn t3b1_initialize_from_str() {
    let trytes = T3B1::from_str("I9LUV9BEE").expect("error parsing tryte sequence");

    assert_eq!(9, trytes.len());
}

#[test]
fn t3b1_empty_input() {
    let trytes = T3B1::from_str("").unwrap();
    assert_eq!(0, trytes.len());
    assert_eq!("", trytes.display());
}

#[test]
fn t3b1_pop_on_empty_is_a_no_op() {
    let mut trytes = T3B1::new();
    trytes.pop();
    assert_eq!(0, trytes.len());
}

#[test]
fn t3b1_random_access() {
    let trytes = T3B1::from_str("M9N").unwrap();
    assert_eq!(13, trytes.get_as_i8(0));
    assert_eq!(0, trytes.get_as_i8(1));
    assert_eq!(-13, trytes.get(2).value());
}

#[test]
fn t3b1_from_str_rejects_bad_char() {
    assert!(T3B1::from_str("ABa").is_err());
    assert!(T3B1::from_i8(&[1, 14]).is_err());
}
