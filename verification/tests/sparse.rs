#![allow(non_snake_case)]
use rola::{IdentityMatrix, ZeroMatrix};

#[test]
fn test_identity_iter() {
    let I2 = IdentityMatrix::new(2);
    let mut iter = I2.into_iter();
    assert_eq!(iter.next(), Some(1));
    assert_eq!(iter.next(), Some(0));
    assert_eq!(iter.next(), Some(0));
    assert_eq!(iter.next(), Some(1));
    assert_eq!(iter.next(), None);
}

#[test]
fn test_zero_iter() {
    let Z2 = ZeroMatrix::new(2, 2);
    let mut iter = Z2.into_iter();
    assert_eq!(iter.next(), Some(0));
    assert_eq!(iter.next(), Some(0));
    assert_eq!(iter.next(), Some(0));
    assert_eq!(iter.next(), Some(0));
    assert_eq!(iter.next(), None);
}
