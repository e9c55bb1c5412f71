use macro_kit::error::{Diagnostic, MacroError};
use macro_kit::panic_result::{panic_to_result, try_panic_to_result};
use macro_kit::syntax::read_fn;

const CREATE_PERSON: &str = r#"
fn create_person(name: String, age: u32) -> Person {
    if age > 30 {
        panic!("I hope I die before I get old");
    }

    Person { name, age }
}
"#;

const ALWAYS_ERRS: &str = r#"
fn always_errs_creating_person(name: String, age: u32) -> Person {
    while true {
        panic!("don't wanna create person");
    }
    Person { name, age }
}
"#;

fn tokens(text: &str) -> String {
    let f: syn::ItemFn = syn::parse_str(text).expect("the output parses as a function");
    quote::ToTokens::to_token_stream(&f).to_string()
}

#[test]
fn create_person_is_rewritten_into_a_result() {
    let out = panic_to_result(CREATE_PERSON).ok().expect("no diagnostics");
    let expected = r#"
fn create_person(name: String, age: u32) -> Result<Person, String> {
    if age > 30 {
        return Err("I hope I die before I get old".to_string());
    }

    Ok(Person { name, age })
}
"#;
    assert_eq!(tokens(&out), tokens(expected));
}

#[test]
fn while_body_panics_are_rewritten() {
    let out = panic_to_result(ALWAYS_ERRS).ok().expect("no diagnostics");
    let expected = r#"
fn always_errs_creating_person(name: String, age: u32) -> Result<Person, String> {
    while true {
        return Err("don't wanna create person".to_string());
    }
    Ok(Person { name, age })
}
"#;
    assert_eq!(tokens(&out), tokens(expected));
}

#[test]
fn no_return_type_becomes_unit_result() {
    let out = panic_to_result("fn f() { let x = 1; x; () }").ok().expect("no diagnostics");
    assert_eq!(tokens(&out), tokens("fn f() -> Result<(), String> { let x = 1; x; Ok(()) }"));
}

#[test]
fn attributes_where_clause_and_else_are_kept() {
    let src = r#"
#[inline]
pub fn pick<T>(a: T, b: T, first: bool) -> T where T: Clone {
    #[allow(unused)]
    if first { panic!("no"); } else { let _ = 1; }
    b
}
"#;
    let out = panic_to_result(src).ok().expect("no diagnostics");
    let expected = r#"
#[inline]
pub fn pick<T>(a: T, b: T, first: bool) -> Result<T, String> where T: Clone {
    #[allow(unused)]
    if first { return Err("no".to_string()); } else { let _ = 1; }
    Ok(b)
}
"#;
    assert_eq!(tokens(&out), tokens(expected));
}

#[test]
fn result_signature_is_diagnosed() {
    let src = r#"
fn create_person_with_result(age: u8, name: String) -> Result<Person, String> {
    if age > 30 {
        panic!("I hope I die before I get old")
    }

    Ok(Person { age, name })
}
"#;
    match panic_to_result(src) {
        Err(MacroError::Diagnostics(d)) => {
            assert_eq!(d.len(), 1);
            match &d[0] {
                Diagnostic::ResultSignature { signature } => assert!(signature.contains("Result")),
                _ => panic!("expected a signature diagnostic"),
            }
            assert!(d[0].message().starts_with("this macro can only be applied to a function that does not yet return a Result. Signature: "));
        }
        _ => panic!("expected diagnostics"),
    }
}

#[test]
fn empty_panic_is_diagnosed() {
    let src = r#"
fn create_person_with_empty_panic(age: u8, name: String) -> Person {
    if age > 30 {
        panic!();
    }

    Person { age, name }
}
"#;
    match panic_to_result(src) {
        Err(MacroError::Diagnostics(d)) => {
            assert_eq!(d.len(), 1);
            assert!(matches!(d[0], Diagnostic::EmptyPanic));
            assert_eq!(d[0].message(), "panic needs a message!");
            assert_eq!(d[0].help(), Some("try to add a message".to_string()));
            assert_eq!(d[0].note(), Some("we will add the message to Result's Err".to_string()));
        }
        _ => panic!("expected diagnostics"),
    }
}

#[test]
fn two_issues_are_both_diagnosed_in_order() {
    let src = r#"
fn create_person_with_two_issues(name: String, age: u32) -> Result<Person, String> {
    if age > 30 {
        panic!();
    }
    Ok(Person { name, age })
}
"#;
    match panic_to_result(src) {
        Err(MacroError::Diagnostics(d)) => {
            assert_eq!(d.len(), 2);
            assert!(matches!(d[0], Diagnostic::ResultSignature { .. }));
            assert!(matches!(d[1], Diagnostic::EmptyPanic));
            let tokens = MacroError::Diagnostics(d).into_compile_error();
            assert_eq!(tokens.matches("compile_error !").count(), 2);
            assert!(!tokens.contains("::core"));
        }
        _ => panic!("expected diagnostics"),
    }
}

#[test]
fn other_macros_are_left_alone() {
    let out = panic_to_result("fn f(x: u8) -> u8 { if x > 1 { println!(\"big\"); } x }").ok().expect("no diagnostics");
    assert_eq!(tokens(&out), tokens("fn f(x: u8) -> Result<u8, String> { if x > 1 { println!(\"big\"); } Ok(x) }"));
}

#[test]
fn a_syntax_error_is_reported() {
    match panic_to_result("struct NotAFunction;") {
        Err(MacroError::Syntax(m)) => {
            assert!(m.starts_with("expected"), "{m}");
            assert_ne!(m, "struct NotAFunction;");
        }
        _ => panic!("expected a syntax error"),
    }
}

#[test]
fn an_empty_body_panics() {
    assert!(try_panic_to_result("fn f() {}").is_none());
    assert!(try_panic_to_result("fn f() -> u8 { let x = 1; }").is_none());
    assert!(try_panic_to_result("fn f() -> u8 { 1 }").is_some());
}

#[test]
fn a_panic_whose_rewriting_does_not_parse_panics() {
    assert!(try_panic_to_result("fn f(x: u8) -> u8 { if x > 1 { panic!(=); } x }").is_none());
    assert!(try_panic_to_result("fn f(x: u8) -> u8 { while x > 1 { panic!(\"a\" b); } x }").is_none());
    assert!(try_panic_to_result("fn f(x: u8) -> u8 { if x > 1 { panic!(\"a\", x); } x }").is_some());
}

#[test]
fn reading_a_function_sees_its_statements() {
    let f = read_fn(CREATE_PERSON).ok().expect("parses");
    assert_eq!(f.stmts.len(), 2);
    assert_eq!(f.output.as_deref(), Some("Person"));
    assert!(f.prefix.contains("create_person"));
}
