use macro_kit::builder::{builder_field_definitions, builder_field_init, builder_methods, create_builder, original_struct_setters, try_create_builder};
use macro_kit::error::MacroError;
use macro_kit::item::Field;
use macro_kit::typestate::get_name_and_type;

fn tokens(text: &str) -> String {
    let ts: proc_macro2::TokenStream = text.parse().expect("the text lexes");
    ts.to_string()
}

fn field(name: &str, ty: &str) -> Field {
    Field {
        attrs: vec![],
        vis: String::new(),
        name: name.to_string(),
        ty: ty.to_string(),
        ty_head: Some(ty.to_string()),
    }
}

#[test]
fn builder_struct_name_should_be_present_in_output() {
    let input = "struct StructWithNoFields {}";

    let actual = create_builder(input);

    assert!(actual.to_string().contains("StructWithNoFieldsBuilder"));
}

#[test]
fn get_name_and_type_give_back_name() {
    let f = field("example", "String");

    let (actual_name, _) = get_name_and_type(&f);

    assert_eq!(actual_name.to_string(), "example".to_string());
}

#[test]
fn builder_struct_with_expected_methods_should_be_present_in_output() {
    let input = "struct Struct { field: String }";
    let expected_builder = "struct StructBuilder { field: Option<String>, }";

    let expected_builder_methods = r#"
        impl StructBuilder {
            pub fn field(mut self, input: String) -> Self {
                self.field = Some(input);
                self
            }

            pub fn build(self) -> Struct {
                Struct {
                    field: self.field.expect(concat!("field not set: ", "field")),
                }
            }
        }
    "#;

    let actual = create_builder(input);

    println!("actual: {actual}");
    println!("expected builder methods: {expected_builder_methods}");
    assert!(tokens(&actual).contains(&tokens(expected_builder)));
    assert!(tokens(&actual).contains(&tokens(expected_builder_methods)));
}

#[test]
fn builder_for_two_fields_is_written_in_full() {
    let actual = create_builder("struct Gleipnir { roots_of: String, breath_of_a_fish: u8 }");
    let expected = r#"
        struct GleipnirBuilder {
            roots_of: Option<String>,
            breath_of_a_fish: Option<u8>,
        }
        impl GleipnirBuilder {
            pub fn roots_of(mut self, input: String) -> Self { self.roots_of = Some(input); self }
            pub fn breath_of_a_fish(mut self, input: u8) -> Self { self.breath_of_a_fish = Some(input); self }
            pub fn build(self) -> Gleipnir {
                Gleipnir {
                    roots_of: self.roots_of.expect(concat!("field not set: ", "roots_of")),
                    breath_of_a_fish: self.breath_of_a_fish.expect(&format!("field {} not set", "breath_of_a_fish")),
                }
            }
        }
        impl Gleipnir {
            pub fn builder() -> GleipnirBuilder {
                GleipnirBuilder { roots_of: None, breath_of_a_fish: None, }
            }
        }
    "#;
    assert_eq!(tokens(&actual), tokens(expected));
}

#[test]
fn field_pieces_come_one_per_field_in_order() {
    let fields = vec![field("a", "String"), field("b", "u32")];
    assert_eq!(builder_field_definitions(&fields), vec!["a: Option<String>", "b: Option<u32>"]);
    assert_eq!(builder_field_init(&fields), vec!["a: None", "b: None"]);
    assert_eq!(
        builder_methods(&fields),
        vec![
            "pub fn a(mut self, input: String) -> Self { self.a = Some(input); self }",
            "pub fn b(mut self, input: u32) -> Self { self.b = Some(input); self }",
        ]
    );
    assert_eq!(
        original_struct_setters(&fields),
        vec![
            "a: self.a.expect(concat!(\"field not set: \", \"a\"))",
            "b: self.b.expect(&format!(\"field {} not set\", \"b\"))",
        ]
    );
}

#[test]
fn only_a_string_field_is_expected_with_the_concat_message() {
    let out = tokens(&create_builder("struct P { s: String, v: Vec<String>, t: std::string::String }"));
    assert!(out.contains(&tokens("s: self.s.expect(concat!(\"field not set: \", \"s\"))")));
    assert!(out.contains(&tokens("v: self.v.expect(&format!(\"field {} not set\", \"v\"))")));
    assert!(out.contains(&tokens("t: self.t.expect(&format!(\"field {} not set\", \"t\"))")));
}

#[test]
fn no_fields_give_no_pieces() {
    let fields: Vec<Field> = vec![];
    assert!(builder_field_definitions(&fields).is_empty());
    assert!(original_struct_setters(&fields).is_empty());
}

#[test]
fn tuple_structs_are_not_supported() {
    match try_create_builder("struct Pair(u8, u8);") {
        Err(MacroError::Unsupported(m)) => assert_eq!(m, "only implemented for structs with named fields"),
        _ => panic!("a tuple struct is refused"),
    }
}

#[test]
fn unparsable_input_is_a_syntax_error() {
    assert!(matches!(try_create_builder("fn f() {}"), Err(MacroError::Syntax(_))));
}

#[test]
fn try_create_builder_agrees_with_create_builder() {
    let item = "struct S { x: u8 }";
    assert_eq!(try_create_builder(item).ok().unwrap(), create_builder(item));
}

#[test]
fn a_raw_struct_name_loses_its_prefix_in_the_builder_name() {
    let out = create_builder("struct r#Match { a: u8 }");
    assert!(out.starts_with("struct MatchBuilder {"));
    assert!(out.contains("impl r#Match { pub fn builder() -> MatchBuilder"));
}

#[test]
fn build_expects_every_field_to_be_set() {
    let out = tokens(&create_builder("struct Gleipnir { _roots_of: String, }"));
    let build = tokens(
        "pub fn build(self) -> Gleipnir { Gleipnir { \
         _roots_of: self._roots_of.expect(concat!(\"field not set: \", \"_roots_of\")), } }",
    );
    assert!(out.contains(&build));
    assert!(out.contains(&tokens("pub fn builder() -> GleipnirBuilder { GleipnirBuilder { _roots_of: None, } }")));
}
