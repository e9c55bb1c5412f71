use macro_kit::analyze::{analyze, try_analyze};
use macro_kit::error::MacroError;

const COMMENTED: &str = r#"
    /// outer comment
    /** comment block */
    struct Example {
        //! inner comment
        /*! inner comment block */
        val: String
    }
"#;

fn refused(item: &str) -> String {
    match try_analyze(item) {
        Some(Err(MacroError::Syntax(m))) => m,
        other => panic!("expected a parse error, got {:?}", other.map(|r| r.is_ok())),
    }
}

#[test]
fn struct_with_comments_is_accepted_and_expands_to_nothing() {
    assert_eq!(analyze(COMMENTED).ok().unwrap(), "");
}

#[test]
fn plain_struct_is_accepted() {
    assert_eq!(analyze("struct S { val: Vec<u8> }").ok().unwrap(), "");
    assert_eq!(analyze("#[derive(Debug)] struct S { #![allow(unused)] val: std::string::String }").ok().unwrap(), "");
}

#[test]
fn missing_braces_are_refused() {
    assert_eq!(refused("struct S"), "unexpected end of input, expected curly braces");
    assert_eq!(refused("struct S (u8)"), "expected curly braces");
}

#[test]
fn tokens_left_over_are_refused() {
    assert_eq!(refused("struct S { val: String, }"), "unexpected token, expected `}`");
    assert_eq!(refused("struct S { val: String } extra"), "unexpected token");
    assert_eq!(refused("#[doc = \"a\" b] struct S { val: u8 }"), "unexpected token, expected `]`");
}

#[test]
fn malformed_pieces_panic() {
    assert!(try_analyze("enum S { val: u8 }").is_none());
    assert!(try_analyze("struct fn { val: u8 }").is_none());
    assert!(try_analyze("struct S { val u8 }").is_none());
    assert!(try_analyze("struct S { val: }").is_none());
    assert!(try_analyze("struct S { }").is_none());
    assert!(try_analyze("# struct S { val: u8 }").is_none());
}
