use linalg::{Integer, Number};

#[test]
fn identities_of_integer_types() {
    assert_eq!(<u8 as Number>::zero(), 0);
    assert_eq!(<u8 as Number>::one(), 1);
    assert_eq!(<i64 as Number>::zero(), 0);
    assert_eq!(<i64 as Number>::one(), 1);
    assert_eq!(<usize as Number>::one(), 1);
}

#[test]
fn integer_powers() {
    assert_eq!(Integer::pow(2u8, 7), 128);
    assert_eq!(Integer::pow(3i32, 4), 81);
    assert_eq!(Integer::pow(-2i16, 3), -8);
    assert_eq!(Integer::pow(-2i8, 7), -128);
    assert_eq!(Integer::pow(10u64, 0), 1);
    assert_eq!(Integer::pow(0i128, 5), 0);
    assert_eq!(Integer::pow(7usize, 2), 49);
}
