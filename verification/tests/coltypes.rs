use rusql_alchemy::types::{Boolean, False, IsTrue, True};

#[test]
fn boolean_encoding_constants() {
    assert_eq!(<Boolean as True>::true_value(), 1);
    assert_eq!(<Boolean as False>::false_value(), 0);
    let b: Boolean = 1;
    assert!(b.is_true());
    let b: Boolean = 0;
    assert!(!b.is_true());
    let b: Boolean = 2;
    assert!(!b.is_true());
}
