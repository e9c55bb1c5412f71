use macro_kit::error::MacroError;
use macro_kit::hello::{hello, hello_no_dep, try_hello_no_dep};

fn tokens(text: &str) -> String {
    let ts: proc_macro2::TokenStream = text.parse().expect("the text lexes");
    ts.to_string()
}

#[test]
fn hello_writes_an_impl_for_the_type() {
    let out = hello("struct Example;").ok().unwrap();
    assert_eq!(tokens(&out), tokens("impl Example { fn hello_world(&self) { println!(\"Hello, World!\"); } }"));
}

#[test]
fn hello_works_on_enums_too() {
    let out = hello("enum Colour { Red, Green }").ok().unwrap();
    assert!(out.starts_with("impl Colour "));
}

#[test]
fn hello_reports_what_does_not_parse() {
    assert!(matches!(hello("fn f() {}"), Err(MacroError::Syntax(_))));
}

#[test]
fn hello_no_dep_takes_the_second_token() {
    let out = hello_no_dep("struct Example;");
    assert_eq!(
        out,
        "\n          impl Example {\n            fn hello_world(&self) {\n              println!(\"Hello, World\")\n            }\n          } \n        "
    );
}

#[test]
fn hello_no_dep_panics_without_a_name() {
    assert!(try_hello_no_dep("struct").is_none());
    assert!(try_hello_no_dep("struct ;").is_none());
    assert_eq!(try_hello_no_dep("pub Example").unwrap(), hello_no_dep("pub Example"));
}

#[test]
fn the_parse_error_is_syn_s_message() {
    match hello("fn f() {}") {
        Err(MacroError::Syntax(m)) => {
            assert!(m.starts_with("expected"), "{m}");
            assert_ne!(m, "fn f() {}");
        }
        _ => panic!("a function is not a derive input"),
    }
}
