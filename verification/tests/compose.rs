use macro_kit::compose;

#[test]
fn composed_twice_then_stringified() {
    assert_eq!(compose::stringify(compose::add_one(compose::add_one(7))), "9");
}

#[test]
fn add_one_adds_one() {
    assert_eq!(compose::add_one(0), 1);
    assert_eq!(compose::add_one(-1), 0);
    assert_eq!(compose::add_one(i32::MAX - 1), i32::MAX);
    assert_eq!(compose::add_one(i32::MIN), i32::MIN + 1);
}

#[test]
fn stringify_writes_decimal_numerals() {
    assert_eq!(compose::stringify(0), "0");
    assert_eq!(compose::stringify(42), "42");
    assert_eq!(compose::stringify(-305), "-305");
    assert_eq!(compose::stringify(i32::MAX), "2147483647");
    assert_eq!(compose::stringify(i32::MIN), "-2147483648");
}
