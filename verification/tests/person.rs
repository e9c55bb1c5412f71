use macro_kit::person::{always_errs_creating_person, create_person};

#[test]
fn happy_path() {
    let actual = create_person("Sam".to_string(), 22).unwrap();

    assert_eq!(actual.name, "Sam".to_string());
    assert_eq!(actual.age, 22);
}

#[test]
fn should_err_on_invalid_age() {
    let actual = create_person("S".to_string(), 32);

    assert_eq!(
        actual.expect_err("this should be an error"),
        "I hope I die before I get old".to_string()
    );
}

#[test]
fn what_errs_always_errs() {
    let result = always_errs_creating_person("Mike".to_string(), 81);

    assert_eq!(
        result.expect_err("this should be an error"),
        "don't wanna create person",
    );
}

#[test]
fn thirty_is_not_too_old() {
    let p = create_person("Ann".to_string(), 30).unwrap();
    assert_eq!(p.age, 30);
    assert!(create_person("Ann".to_string(), 31).is_err());
}
