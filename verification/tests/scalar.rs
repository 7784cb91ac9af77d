use rola::Scalar;

#[test]
fn units() {
    assert_eq!(<i32 as Scalar>::zero(), 0);
    assert_eq!(<i32 as Scalar>::one(), 1);
    assert_eq!(<i64 as Scalar>::zero(), 0);
    assert_eq!(<i64 as Scalar>::one(), 1);
    assert_eq!(<usize as Scalar>::zero(), 0);
    assert_eq!(<usize as Scalar>::one(), 1);
}

#[test]
fn from_usize_converts_what_fits() {
    assert_eq!(<i32 as Scalar>::from_usize(0), Some(0));
    assert_eq!(<i32 as Scalar>::from_usize(7), Some(7));
    assert_eq!(<i32 as Scalar>::from_usize(2147483647), Some(i32::MAX));
    assert_eq!(<i32 as Scalar>::from_usize(2147483648), None);
    assert_eq!(<i32 as Scalar>::from_usize(usize::MAX), None);
    assert_eq!(<i64 as Scalar>::from_usize(7), Some(7));
    assert_eq!(<i64 as Scalar>::from_usize(2147483648), Some(2147483648));
    assert_eq!(<i64 as Scalar>::from_usize(usize::MAX), None);
    assert_eq!(<usize as Scalar>::from_usize(7), Some(7));
    assert_eq!(<usize as Scalar>::from_usize(usize::MAX), Some(usize::MAX));
}

#[test]
fn arithmetic() {
    assert_eq!(Scalar::add(20i32, 22), 42);
    assert_eq!(Scalar::sub(20i32, 22), -2);
    assert_eq!(Scalar::mul(-6i32, 7), -42);
    assert!(Scalar::equals(5i32, 5));
    assert!(!Scalar::equals(5i32, 6));
    assert_eq!(Scalar::add(i64::MAX - 1, 1), i64::MAX);
    assert_eq!(Scalar::sub(i64::MIN + 1, 1), i64::MIN);
    assert_eq!(Scalar::mul(1i64 << 31, 1 << 31), 1i64 << 62);
    assert_eq!(Scalar::add(20usize, 22), 42);
    assert_eq!(Scalar::sub(22usize, 20), 2);
    assert_eq!(Scalar::mul(6usize, 7), 42);
    assert!(Scalar::equals(0usize, 0));
}

#[test]
fn to_usize_converts_what_fits() {
    assert_eq!(Scalar::to_usize(0i32), Some(0));
    assert_eq!(Scalar::to_usize(7i32), Some(7));
    assert_eq!(Scalar::to_usize(i32::MAX), Some(2147483647));
    assert_eq!(Scalar::to_usize(-1i32), None);
    assert_eq!(Scalar::to_usize(i32::MIN), None);
    assert_eq!(Scalar::to_usize(7i64), Some(7));
    assert_eq!(Scalar::to_usize(-7i64), None);
    assert_eq!(Scalar::to_usize(i64::MIN), None);
    assert_eq!(Scalar::to_usize(7usize), Some(7));
    assert_eq!(Scalar::to_usize(usize::MAX), Some(usize::MAX));
}
