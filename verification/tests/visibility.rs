use macro_kit::error::MacroError;
use macro_kit::visibility::{private, public, try_private, try_public, Example, ExcludedFields};

fn tokens(text: &str) -> String {
    let ts: proc_macro2::TokenStream = text.parse().expect("the text lexes");
    ts.to_string()
}

const EXAMPLE: &str = "#[allow(dead_code)] pub struct Example { first: String, pub second: u32, third: bool, fourth: String, }";

#[test]
fn example_fields_are_public_except_excluded() {
    let out = public("exclude(fourth, third)", EXAMPLE).ok().expect("the struct is rewritten");
    let expected = "#[allow(dead_code)] pub struct Example { pub first: String, pub second: u32, third: bool, fourth: String, }";
    assert_eq!(tokens(&out), tokens(expected));
}

#[test]
fn example_new_reads_its_public_fields() {
    let e = Example::new();
    assert_eq!(e.first, "first");
    assert_eq!(e.second, 9);
}

#[test]
fn without_exclusions_every_field_is_public() {
    let out = public("", "struct S { a: u8, pub(crate) b: u8 }").ok().unwrap();
    assert_eq!(tokens(&out), tokens("struct S { pub a: u8, pub b: u8 }"));
}

#[test]
fn public_keeps_a_trailing_comma_only_where_there_was_one() {
    let with = public("", "struct S { a: u8, }").ok().unwrap();
    assert_eq!(tokens(&with), tokens("struct S { pub a: u8, }"));
    let empty = public("", "struct E {}").ok().unwrap();
    assert_eq!(tokens(&empty), tokens("struct E {}"));
}

#[test]
fn public_keeps_generics_and_where_clause() {
    let out = public("", "struct W<T> where T: Clone { t: T }").ok().unwrap();
    assert_eq!(tokens(&out), tokens("struct W<T> where T: Clone { pub t: T }"));
}

#[test]
fn public_is_idempotent_on_an_example() {
    let once = public("exclude(b)", "struct S { a: u8, b: u8 }").ok().unwrap();
    let twice = public("exclude(b)", &once).ok().unwrap();
    assert_eq!(tokens(&once), tokens(&twice));
}

#[test]
fn public_refuses_what_is_not_a_struct_with_named_fields() {
    match public("", "enum E { A, B }") {
        Err(MacroError::Unsupported(m)) => assert_eq!(m, "only works on structs with named fields"),
        _ => panic!("an enum is refused"),
    }
    assert!(matches!(public("", "struct T(u8);"), Err(MacroError::Unsupported(_))));
    assert!(matches!(public("", "fn f() {}"), Err(MacroError::Syntax(_))));
}

#[test]
fn an_exclude_list_that_is_not_identifiers_panics() {
    assert!(try_public("exclude(1)", EXAMPLE).is_none());
    assert!(try_public("exclude(fourth)", EXAMPLE).is_some());
}

#[test]
fn excluded_fields_are_read_from_the_exclude_list() {
    assert_eq!(ExcludedFields::parse("exclude(a, b,)").unwrap().fields, vec!["a", "b"]);
    assert!(ExcludedFields::parse("").unwrap().fields.is_empty());
    assert!(ExcludedFields::parse("other(a)").unwrap().fields.is_empty());
    assert!(ExcludedFields::try_parse("exclude(\"a\")").is_none());
    assert!(ExcludedFields::parse("a::b").unwrap().fields.is_empty());
    assert_eq!(ExcludedFields::parse("exclude(a) b").err().unwrap(), "unexpected token");
    let e = ExcludedFields::parse("exclude(third)").unwrap();
    assert!(e.matches_ident(&Some("third".to_string())));
    assert!(!e.matches_ident(&Some("first".to_string())));
    assert!(!e.matches_ident(&None));
}

#[test]
fn tokens_left_after_the_attribute_are_reported() {
    let item = "struct S { a: u8 }";
    assert_eq!(tokens(&public("foo", item).ok().unwrap()), tokens("struct S { pub a: u8 }"));
    for attr in ["a = 1", "exclude(a) extra", "\"x\"", "exclude(a), other(b)"] {
        match public(attr, item) {
            Err(MacroError::Syntax(m)) => assert_eq!(m, "unexpected token", "{attr}"),
            _ => panic!("tokens after `{attr}` are reported"),
        }
    }
    assert!(try_public("exclude(1) extra", item).is_none());
    assert!(matches!(public("", "fn f() {}"), Err(MacroError::Syntax(m)) if m != "unexpected token"));
}

#[test]
fn private_hides_fields_and_adds_getters() {
    let out = private("#[allow(dead_code)] struct Privy { pub public_var: u8, priv_var: u8, }").ok().unwrap();
    let expected = "#[allow(dead_code)] struct Privy { public_var: u8, priv_var: u8, } \
        impl Privy { pub fn get_public_var(&self) -> &u8 { &self.public_var } \
        pub fn get_priv_var(&self) -> &u8 { &self.priv_var } }";
    assert_eq!(tokens(&out), tokens(expected));
}

#[test]
fn private_after_public_hides_every_field() {
    let published = public("", "struct S { a: u8 }").ok().unwrap();
    let out = private(&published).ok().unwrap();
    assert_eq!(tokens(&out), tokens("struct S { a: u8, } impl S { pub fn get_a(&self) -> &u8 { &self.a } }"));
}

#[test]
fn private_panics_on_a_tuple_struct_and_reports_parse_errors() {
    assert!(try_private("struct Lol(u8);").is_none());
    assert!(matches!(try_private("fn f() {}"), Some(Err(MacroError::Syntax(_)))));
}

#[test]
fn a_raw_field_name_loses_its_prefix_in_the_getter_name() {
    let out = private("struct S { r#type: u8 }").ok().unwrap();
    assert_eq!(tokens(&out), tokens("struct S { r#type: u8, } impl S { pub fn get_type(&self) -> &u8 { &self.r#type } }"));
}
