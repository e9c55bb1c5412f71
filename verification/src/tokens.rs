//! Tokens: string literal tokens and the compile errors that carry a
//! message, made with `proc_macro2`. Every trusted function of the crate
//! forces proc-macro2's own implementation of lexing and printing, so the
//! texts named here are those of proc-macro2's code in every process, inside
//! a procedural macro as well.

use vstd::prelude::*;
use crate::text::push_char;
use proc_macro2::{Delimiter, Spacing, TokenStream, TokenTree};

verus! {

/// The text of the string literal token that `proc_macro2::Literal::string`
/// makes of `s` (the characters of `s` between double quotes, escaped), as
/// proc-macro2's own implementation prints it.
pub uninterp spec fn string_literal_of(s: Seq<char>) -> Seq<char>;

/// Makes the token `proc_macro2::Literal::string(s)` and prints it.
/// Claimed: the text is a function of `s`.
/// proc-macro2's own implementation is forced first (`proc_macro2::fallback::force`),
/// so lexing and printing are those of its own code in every process, not the compiler's.
#[verifier::external_body]
pub(crate) fn string_literal(s: &str) -> (res: String)
    ensures
        res@ == string_literal_of(s@),
{
    proc_macro2::fallback::force();
    proc_macro2::Literal::string(s).to_string()
}

/// The tokens of the `compile_error!` invocation that carries `message`, as
/// `syn::Error::to_compile_error` writes them and proc-macro2's own
/// implementation prints them.
pub open spec fn error_invocation_of(message: Seq<char>) -> Seq<char> {
    ":: core :: compile_error ! { "@ + string_literal_of(message) + " }"@
}

/// Prints `syn::Error::new(Span::call_site(), message).to_compile_error()`.
/// Claimed: `::core::compile_error!` applied to the string literal of
/// `message` in braces, printed token by token as the sources of both
/// crates show (`::` joint, a space after every other token).
/// proc-macro2's own implementation is forced first (`proc_macro2::fallback::force`),
/// so lexing and printing are those of its own code in every process, not the compiler's.
#[verifier::external_body]
pub(crate) fn error_invocation(message: &str) -> (res: String)
    ensures
        res@ == error_invocation_of(message@),
{
    proc_macro2::fallback::force();
    syn::Error::new(proc_macro2::Span::call_site(), message).to_compile_error().to_string()
}

/// A token tree: an identifier, a punctuation character (and whether it is
/// joined to the punctuation that follows it, as in `::`), a literal, or a
/// delimited group by its opening delimiter (`(`, `[`, `{`, or a space for
/// an invisible group) and the text of the tokens inside it.
pub enum Tok {
    Ident(String),
    Punct(char, bool),
    Literal(String),
    Group(char, String),
}

pub enum TokView {
    Ident(Seq<char>),
    Punct(char, bool),
    Literal(Seq<char>),
    Group(char, Seq<char>),
}

impl View for Tok {
    type V = TokView;

    open spec fn view(&self) -> TokView {
        match self {
            Tok::Ident(s) => TokView::Ident(s@),
            Tok::Punct(c, joint) => TokView::Punct(*c, *joint),
            Tok::Literal(s) => TokView::Literal(s@),
            Tok::Group(d, s) => TokView::Group(*d, s@),
        }
    }
}

pub open spec fn tok_views(t: Seq<Tok>) -> Seq<TokView> {
    t.map_values(|x: Tok| x@)
}

/// Whether a token is the punctuation character `c`, joined or not.
pub open spec fn is_punct(t: TokView, c: char) -> bool {
    t matches TokView::Punct(p, _) && p == c
}

/// A token tree as it is printed: a group by its delimiters around its
/// inner text (braces with a space inside, `{ }` when empty).
pub open spec fn tok_text(t: TokView) -> Seq<char> {
    match t {
        TokView::Ident(s) => s,
        TokView::Punct(c, _) => seq![c],
        TokView::Literal(s) => s,
        TokView::Group(d, s) => if d == '(' {
            "("@ + s + ")"@
        } else if d == '[' {
            "["@ + s + "]"@
        } else if d == '{' {
            if s.len() == 0 { "{ }"@ } else { "{ "@ + s + " }"@ }
        } else {
            s
        },
    }
}

/// What separates a printed token from the next one: nothing after a joined
/// punctuation character, a space otherwise.
pub open spec fn tok_gap(t: TokView) -> Seq<char> {
    if t matches TokView::Punct(_, true) { Seq::empty() } else { " "@ }
}

/// Token trees as they are printed one after the other.
pub open spec fn printed(t: Seq<TokView>) -> Seq<char>
    decreases t.len(),
{
    if t.len() == 0 {
        Seq::empty()
    } else if t.len() == 1 {
        tok_text(t[0])
    } else {
        printed(t.drop_last()) + tok_gap(t[t.len() - 2]) + tok_text(t.last())
    }
}

fn push_tok(out: &mut String, t: &Tok)
    ensures
        final(out)@ == old(out)@ + tok_text(t@),
{
    match t {
        Tok::Ident(s) => out.append(s.as_str()),
        Tok::Punct(c, _) => push_char(out, *c),
        Tok::Literal(s) => out.append(s.as_str()),
        Tok::Group(d, s) => {
            if *d == '(' {
                out.append("(");
                out.append(s.as_str());
                out.append(")");
            } else if *d == '[' {
                out.append("[");
                out.append(s.as_str());
                out.append("]");
            } else if *d == '{' {
                if s.unicode_len() == 0 {
                    out.append("{ }");
                } else {
                    out.append("{ ");
                    out.append(s.as_str());
                    out.append(" }");
                }
            } else {
                out.append(s.as_str());
            }
        },
    }
}

/// The text of the token trees `t[from..to]`, printed as `proc_macro2`'s
/// own implementation prints them, so that it lexes back into them.
pub fn print_tokens(t: &Vec<Tok>, from: usize, to: usize) -> (res: String)
    requires
        from <= to <= t.len(),
    ensures
        res@ == printed(tok_views(t@).subrange(from as int, to as int)),
{
    let ghost v = tok_views(t@);
    let mut out = String::new();
    let mut i: usize = from;
    proof { assert(v.subrange(from as int, from as int).len() == 0); }
    while i < to
        invariant
            from <= i <= to,
            to <= t.len(),
            v == tok_views(t@),
            out@ == printed(v.subrange(from as int, i as int)),
        decreases to - i,
    {
        proof {
            assert(v.subrange(from as int, i + 1).drop_last() =~= v.subrange(from as int, i as int));
            assert(v[i as int] == t@[i as int]@);
        }
        if i > from {
            proof { assert(v[i - 1] == t@[i - 1]@); }
            let joint = match &t[i - 1] {
                Tok::Punct(_, j) => *j,
                _ => false,
            };
            if !joint {
                out.append(" ");
            }
        }
        push_tok(&mut out, &t[i]);
        i = i + 1;
    }
    out
}

/// The token trees of `text` as proc-macro2's own implementation lexes it,
/// or `None` when it does not lex.
pub uninterp spec fn lexed_of(text: Seq<char>) -> Option<Seq<TokView>>;

/// The value of the string literal token `lit` (its characters, unescaped),
/// or `None` when `lit` is not a string literal.
pub uninterp spec fn string_value_of(lit: Seq<char>) -> Option<Seq<char>>;

/// Lexes `text` into a `proc_macro2::TokenStream` and gives its top-level
/// token trees, each identifier, literal and group stream printed with
/// `to_string`, each group with its delimiter. Claimed: a function of `text`.
/// proc-macro2's own implementation is forced first (`proc_macro2::fallback::force`),
/// so lexing and printing are those of its own code in every process, not the compiler's.
#[verifier::external_body]
pub(crate) fn lex(text: &str) -> (res: Option<Vec<Tok>>)
    ensures
        res matches Some(t) ==> lexed_of(text@) == Some(tok_views(t@)),
        res is None ==> lexed_of(text@) is None,
{
    proc_macro2::fallback::force();
    let ts: TokenStream = text.parse().ok()?;
    Some(ts.into_iter().map(|t| match t {
        TokenTree::Ident(i) => Tok::Ident(i.to_string()),
        TokenTree::Punct(p) => Tok::Punct(p.as_char(), p.spacing() == Spacing::Joint),
        TokenTree::Literal(l) => Tok::Literal(l.to_string()),
        TokenTree::Group(g) => Tok::Group(match g.delimiter() {
            Delimiter::Parenthesis => '(',
            Delimiter::Bracket => '[',
            Delimiter::Brace => '{',
            Delimiter::None => ' ',
        }, g.stream().to_string()),
    }).collect())
}

/// Parses `lit` with `syn::parse_str::<syn::LitStr>` and gives its `value()`.
/// Claimed: a function of `lit`.
/// proc-macro2's own implementation is forced first (`proc_macro2::fallback::force`),
/// so lexing and printing are those of its own code in every process, not the compiler's.
#[verifier::external_body]
pub(crate) fn string_value(lit: &str) -> (res: Option<String>)
    ensures
        res matches Some(v) ==> string_value_of(lit@) == Some(v@),
        res is None ==> string_value_of(lit@) is None,
{
    proc_macro2::fallback::force();
    syn::parse_str::<syn::LitStr>(lit).ok().map(|l| l.value())
}

} // verus!
