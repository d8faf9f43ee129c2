use minitri::Encoding;
use minitri::T1B1;
use minitri::T3B1;

#[test]
fn new_t1b1() {
    let _ = T1B1::new();
}

#[test]
fn t1b1_from_i8() {
    let input = vec![-1, -1, 1, 0, -1, 1];
    let _ = T1B1::from_i8(&input).unwrap();
}

#[test]
fn t1b1_resize_with_push_and_pop() {
    let mut trits = T1B1::new();
    assert_eq!(0, trits.len());

    trits.push('1').expect("error pushing trit");
    trits.push('-').expect("error pushing trit");
    assert_eq!(2, trits.len());

    trits.pop();
    assert_eq!(1, trits.len());
}

#[test]
fn t1b1_initialize_from_str() {
    let trits = T1B1::from_str("10-01-110").expect("error parsing trit sequence");

    assert_eq!(9, trits.len());
}

#[test]
fn display_t1b1() {
    let trits = T1B1::from_str("10-01-110").unwrap();

    assert_eq!("10-01-110", trits.display());
}

#[test]
fn from_t3b1() {
    let trytes = T3B1::from_str("MINI9TRI").unwrap();
    let trits = trytes.to_t1b1();

    assert_eq!(24, trits.len());
}

#[test]
fn resize_with_push_and_pop() {
    let mut trits = T1B1::new();
    assert_eq!(0, trits.len());

    trits.push('1').unwrap();
    trits.push('-').unwrap();
    assert_eq!(2, trits.len());

    trits.pop();
    assert_eq!(1, trits.len());
}

#[test]
fn initialize_from_str() {
    let trits = T1B1::from_str("10-01-110").unwrap();

    assert_eq!(9, trits.len());
}

#[test]
fn t1b1_random_access() {
    let trits = T1B1::from_str("10-").unwrap();
    assert_eq!(1, trits.get_as_i8(0));
    assert_eq!(0, trits.get_as_i8(1));
    assert_eq!(-1, trits.get_as_i8(2));
    assert_eq!(-1, trits.get(2).value());
}

#[test]
fn t1b1_empty_input() {
    let trits = T1B1::from_str("").unwrap();
    assert_eq!(0, trits.len());
    assert_eq!("", trits.display());

    let trits = T1B1::from_i8(&[]).unwrap();
    assert_eq!(0, trits.len());
}

#[test]
fn t1b1_pop_on_empty_is_a_no_op() {
    let mut trits = T1B1::new();
    trits.pop();
    assert_eq!(0, trits.len());
}

#[test]
fn t1b1_from_str_rejects_bad_char() {
    assert!(T1B1::from_str("10-2").is_err());
    assert!(T1B1::from_i8(&[1, 0, 2]).is_err());
}
