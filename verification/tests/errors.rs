use macro_kit::error::{Diagnostic, MacroError};
use macro_kit::text::decimal_string;

#[test]
fn a_syntax_error_is_one_compile_error() {
    assert_eq!(MacroError::Syntax("bad".to_string()).into_compile_error(), ":: core :: compile_error ! { \"bad\" }");
    assert_eq!(MacroError::Unsupported("no".to_string()).into_compile_error(), ":: core :: compile_error ! { \"no\" }");
}

#[test]
fn diagnostics_become_one_compile_error_each() {
    let e = MacroError::Diagnostics(vec![
        Diagnostic::ResultSignature { signature: "Result < u8 , String >".to_string() },
        Diagnostic::EmptyPanic,
    ]);
    let expected = [
        "compile_error ! { \"this macro can only be applied to a function that does not yet return a Result. ",
        "Signature: Result < u8 , String >\" } ",
        "compile_error ! { \"panic needs a message!\\n\\n  = help: try to add a message\\n",
        "  = note: we will add the message to Result's Err\\n\\n\" } ",
    ]
    .concat();
    assert_eq!(e.into_compile_error(), expected);
    assert_eq!(MacroError::Diagnostics(vec![]).into_compile_error(), "");
}

#[test]
fn diagnostic_parts() {
    assert_eq!(Diagnostic::EmptyPanic.message(), "panic needs a message!");
    assert_eq!(Diagnostic::EmptyPanic.help(), Some("try to add a message".to_string()));
    assert_eq!(Diagnostic::EmptyPanic.note(), Some("we will add the message to Result's Err".to_string()));
    let s = Diagnostic::ResultSignature { signature: "Result<(), ()>".to_string() };
    assert_eq!(s.help(), None);
    assert_eq!(s.note(), None);
    assert_eq!(
        s.into_compile_error(),
        "compile_error ! { \"this macro can only be applied to a function that does not yet return a Result. Signature: Result<(), ()>\" }"
    );
}

#[test]
fn compile_error_literal_is_escaped() {
    assert_eq!(
        MacroError::Syntax("a \"b\"\n".to_string()).into_compile_error(),
        ":: core :: compile_error ! { \"a \\\"b\\\"\\n\" }"
    );
}

#[test]
fn decimal_numerals() {
    assert_eq!(decimal_string(0), "0");
    assert_eq!(decimal_string(i64::MIN), "-9223372036854775808");
    assert_eq!(decimal_string(i64::MAX), "9223372036854775807");
}
