use macro_kit::item::{Attr, Field};
use macro_kit::syntax::read_struct;
use macro_kit::typestate::{
    builder_definition, builder_impl_for_struct, builder_methods, create_builder_ident, create_field_struct_name,
    marker_trait_and_structs, ConcreteFallbackStrategy, FieldModifiers, FieldWrapper,
};

fn tokens(text: &str) -> String {
    let ts: proc_macro2::TokenStream = text.parse().expect("the text lexes");
    ts.to_string()
}

/// The tokens of `text`, which opens one brace that it does not close.
fn open_tokens(text: &str) -> String {
    let closed = tokens(&format!("{text} }}"));
    closed.strip_suffix(" }").expect("the closing brace comes last").to_string()
}

fn wrappers(item: &str) -> (String, Vec<FieldWrapper>) {
    let s = read_struct(item).ok().expect("the struct parses");
    let fields = s.fields.expect("named fields");
    (s.name, fields.into_iter().map(FieldWrapper::from).collect())
}

fn expand(item: &str) -> String {
    let (name, fields) = wrappers(item);
    [
        marker_trait_and_structs(&name, &fields),
        builder_definition(&name, &fields),
        builder_impl_for_struct(&name, &fields),
        builder_methods(&name, &fields),
    ]
    .join(" ")
}

fn builder_attr(list: &str) -> Attr {
    Attr {
        text: format!("#[builder({list})]"),
        leading_colon: false,
        path: vec!["builder".to_string()],
        list: Some(list.to_string()),
    }
}

#[test]
fn should_generate_builder_for_struct_with_one_renamed_property() {
    let out = expand("struct Gleipnir { roots_of: String, }");
    let expected = r#"
        pub trait MarkerTraitForBuilder {}
        #[allow(non_camel_case_types)] pub struct roots_ofOfGleipnirBuilder {}
        impl MarkerTraitForBuilder for roots_ofOfGleipnirBuilder {}
        pub struct FinalBuilder {} impl MarkerTraitForBuilder for FinalBuilder {}
        pub struct GleipnirBuilder<T: MarkerTraitForBuilder> {
            marker: std::marker::PhantomData<T>,
            roots_of: Option<String>,
        }
        impl Gleipnir {
            pub fn builder() -> GleipnirBuilder<roots_ofOfGleipnirBuilder> {
                GleipnirBuilder { marker: Default::default(), roots_of: None, }
            }
        }
        impl GleipnirBuilder<roots_ofOfGleipnirBuilder> {
            pub fn roots_of(mut self, input: String) -> GleipnirBuilder<FinalBuilder> {
                self.roots_of = Some(input);
                GleipnirBuilder { marker: Default::default(), roots_of: self.roots_of, }
            }
        }
        impl GleipnirBuilder<FinalBuilder> {
            pub fn build(self) -> Gleipnir {
                Gleipnir { roots_of: self.roots_of.expect(concat!("field not set: ", "roots_of")), }
            }
        }
    "#;
    assert_eq!(tokens(&out), tokens(expected));
}

#[test]
fn should_generate_builder_for_struct_with_two_props_one_custom_name() {
    let out = tokens(&expand("struct Gleipnir { roots_of: String, breath_of_a_fish: u8, }"));
    let first = "impl GleipnirBuilder<roots_ofOfGleipnirBuilder> { \
        pub fn roots_of(mut self, input: String) -> GleipnirBuilder<breath_of_a_fishOfGleipnirBuilder> { \
        self.roots_of = Some(input); \
        GleipnirBuilder { marker: Default::default(), roots_of: self.roots_of, breath_of_a_fish: self.breath_of_a_fish, } } }";
    let second = "impl GleipnirBuilder<breath_of_a_fishOfGleipnirBuilder> { \
        pub fn breath_of_a_fish(mut self, input: u8) -> GleipnirBuilder<FinalBuilder> { \
        self.breath_of_a_fish = Some(input); \
        GleipnirBuilder { marker: Default::default(), roots_of: self.roots_of, breath_of_a_fish: self.breath_of_a_fish, } } }";
    assert!(out.contains(&tokens(first)));
    assert!(out.contains(&tokens(second)));
}

#[test]
fn should_work_with_correct_order() {
    let out = tokens(&expand("struct Gleipnir { roots_of: String, breath_of_a_fish: u8, anything_else: bool, }"));
    let start = tokens("pub fn builder() -> GleipnirBuilder<roots_ofOfGleipnirBuilder>");
    let steps = [
        "impl GleipnirBuilder<roots_ofOfGleipnirBuilder> { pub fn roots_of(mut self, input: String) -> GleipnirBuilder<breath_of_a_fishOfGleipnirBuilder>",
        "impl GleipnirBuilder<breath_of_a_fishOfGleipnirBuilder> { pub fn breath_of_a_fish(mut self, input: u8) -> GleipnirBuilder<anything_elseOfGleipnirBuilder>",
        "impl GleipnirBuilder<anything_elseOfGleipnirBuilder> { pub fn anything_else(mut self, input: bool) -> GleipnirBuilder<FinalBuilder>",
    ];
    assert!(out.contains(&start));
    for s in steps {
        assert!(out.contains(&open_tokens(s)), "missing: {s}");
    }
    assert!(out.contains(&open_tokens("impl GleipnirBuilder<FinalBuilder> { pub fn build(self) -> Gleipnir")));
}

#[test]
fn setters_come_last_field_first() {
    let (name, fields) = wrappers("struct P { a: u8, b: u8 }");
    let methods = builder_methods(&name, &fields);
    let b = methods.find("pub fn b(").unwrap();
    let a = methods.find("pub fn a(").unwrap();
    assert!(b < a);
}

#[test]
fn builder_names() {
    assert_eq!(create_builder_ident("Gleipnir"), "GleipnirBuilder");
    assert_eq!(create_field_struct_name("GleipnirBuilder", "roots_of"), "roots_ofOfGleipnirBuilder");
}

#[test]
fn renamed_setter_and_uppercased_value() {
    let item = "struct G { #[builder(rename = \"tops_of\")] roots_of: String, #[builder(uppercase)] name: String, }";
    let (name, fields) = wrappers(item);
    assert_eq!(fields[0].modifiers.rename.as_deref(), Some("tops_of"));
    assert!(fields[1].modifiers.uppercase);
    let methods = tokens(&builder_methods(&name, &fields));
    assert!(methods.contains(&tokens("pub fn tops_of(mut self, input: String)")));
    assert!(methods.contains(&tokens("name: self.name.expect(concat!(\"field not set: \", \"name\")).to_ascii_uppercase()")));
}

#[test]
fn the_last_field_keeps_its_name_even_when_renamed() {
    let item = "struct G { #[builder(rename = \"other\")] only: u8 }";
    let (name, fields) = wrappers(item);
    let methods = tokens(&builder_methods(&name, &fields));
    assert!(methods.contains(&tokens("pub fn only(mut self, input: u8)")));
    assert!(!methods.contains("other"));
}

#[test]
fn modifiers_read_in_order_and_combined() {
    let m = FieldModifiers::parse(&vec![builder_attr("uppercase, rename = \"x\""), builder_attr("rename = \"y\",")]);
    assert!(m.uppercase);
    assert_eq!(m.rename.as_deref(), Some("y"));
    let none = FieldModifiers::parse(&vec![Attr {
        text: "#[doc = \"x\"]".to_string(),
        leading_colon: false,
        path: vec!["doc".to_string()],
        list: None,
    }]);
    assert!(!none.uppercase);
    assert!(none.rename.is_none());
}

#[test]
fn unknown_or_malformed_modifiers_panic() {
    assert!(FieldModifiers::try_parse(&vec![builder_attr("lowercase")]).is_none());
    assert!(FieldModifiers::try_parse(&vec![builder_attr("rename = \"tops of\"")]).is_none());
    assert!(FieldModifiers::try_parse(&vec![builder_attr("rename = \"\"")]).is_none());
    assert!(FieldModifiers::try_parse(&vec![builder_attr("uppercase,,")]).is_none());
    assert!(FieldModifiers::try_parse(&vec![builder_attr("rename = 1")]).is_none());
    assert!(FieldModifiers::try_parse(&vec![builder_attr("uppercase uppercase")]).is_none());
    let not_a_list = Attr {
        text: "#[builder]".to_string(),
        leading_colon: false,
        path: vec!["builder".to_string()],
        list: None,
    };
    assert!(FieldModifiers::try_parse(&vec![not_a_list]).is_none());
    let f = Field { attrs: vec![builder_attr("nope")], vis: String::new(), name: "a".into(), ty: "u8".into(), ty_head: Some("u8".into()) };
    assert!(FieldWrapper::try_from(f).is_none());
}

#[test]
fn an_empty_modifier_list_asks_for_nothing() {
    let m = FieldModifiers::try_parse(&vec![builder_attr("uppercase"), builder_attr("")]).unwrap();
    assert!(m.uppercase);
    assert!(m.rename.is_none());
}

#[test]
fn a_raw_identifier_is_a_valid_new_name() {
    let m = FieldModifiers::parse(&vec![builder_attr("rename = \"r#type\"")]);
    assert_eq!(m.rename.as_deref(), Some("r#type"));
}

#[test]
fn only_the_plain_builder_path_carries_modifiers() {
    let (_, fields) = wrappers("struct G { #[other::builder(nonsense)] #[::builder(nonsense)] a: u8, #[builder(uppercase)] b: String }");
    assert!(!fields[0].modifiers.uppercase);
    assert!(fields[0].modifiers.rename.is_none());
    assert!(fields[1].modifiers.uppercase);
    let s = read_struct("struct G { #[builder(uppercase)] b: String }").ok().unwrap();
    let a = &s.fields.unwrap()[0].attrs[0];
    assert_eq!(a.path, vec!["builder"]);
    assert!(!a.leading_colon);
}

#[test]
fn fallback_strategies() {
    assert_eq!(ConcreteFallbackStrategy::Default.fallback("a".to_string()), "unwrap_or_default()");
    assert_eq!(
        ConcreteFallbackStrategy::Panic.fallback("a".to_string()),
        "expect(concat!(\"field not set: \", \"a\"))"
    );
}

#[test]
fn raw_identifiers_are_pasted_without_their_prefix() {
    assert_eq!(create_builder_ident("r#Struct"), "StructBuilder");
    assert_eq!(create_field_struct_name("GBuilder", "r#type"), "typeOfGBuilder");
    let (name, fields) = wrappers("struct G { r#type: u8 }");
    let methods = tokens(&builder_methods(&name, &fields));
    assert!(methods.contains(&tokens("impl GBuilder<typeOfGBuilder> { pub fn r#type(mut self, input: u8) -> GBuilder<FinalBuilder> { self.r#type = Some(input); GBuilder { marker: Default::default(), r#type: self.r#type, } } }")));
}
