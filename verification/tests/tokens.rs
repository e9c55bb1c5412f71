use macro_kit::tokens::{print_tokens, Tok};

#[test]
fn tokens_print_as_they_lex() {
    let t = vec![
        Tok::Ident("a".to_string()),
        Tok::Punct(':', true),
        Tok::Punct(':', false),
        Tok::Ident("b".to_string()),
        Tok::Group('(', "c".to_string()),
        Tok::Group('[', "d".to_string()),
        Tok::Group('{', "e".to_string()),
        Tok::Group('{', String::new()),
        Tok::Literal("\"x\"".to_string()),
    ];
    assert_eq!(print_tokens(&t, 0, t.len()), "a :: b (c) [d] { e } { } \"x\"");
    assert_eq!(print_tokens(&t, 3, 5), "b (c)");
    assert_eq!(print_tokens(&t, 2, 2), "");
    let printed = print_tokens(&t, 0, t.len());
    let relexed: proc_macro2::TokenStream = printed.parse().unwrap();
    assert_eq!(relexed.to_string(), printed);
}
