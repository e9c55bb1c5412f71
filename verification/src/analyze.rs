//! The `analyze!` function-like macro: it reads a struct with outer and inner
//! attributes (doc comments among them) and a single field, and expands to
//! nothing. What it decides is whether the input is accepted, refused with a
//! parse error, or makes the macro panic.

use vstd::prelude::*;
use crate::error::{MacroError, MacroErrorView};
use crate::text::same_text;
use crate::tokens::{Tok, TokView, is_punct, lex, lexed_of, print_tokens, printed, tok_views};

verus! {

/// The error message of `syn::parse_str::<syn::Meta>(text)`, or `None` when
/// it parses.
pub uninterp spec fn meta_error_of(text: Seq<char>) -> Option<Seq<char>>;

/// The error message of `syn::parse_str::<syn::Type>(text)`, or `None` when
/// it parses.
pub uninterp spec fn type_error_of(text: Seq<char>) -> Option<Seq<char>>;

/// Whether `syn::parse_str::<syn::Ident>(word)` succeeds (an identifier that
/// is not a keyword).
pub uninterp spec fn ident_parses(word: Seq<char>) -> bool;

/// Parses `text` as a `syn::Meta` and gives the error's message.
/// Claimed: a function of `text`.
/// proc-macro2's own implementation is forced first (`proc_macro2::fallback::force`),
/// so lexing and printing are those of its own code in every process, not the compiler's.
#[verifier::external_body]
fn meta_error(text: &str) -> (res: Option<String>)
    ensures
        res matches Some(m) ==> meta_error_of(text@) == Some(m@),
        res is None ==> meta_error_of(text@) is None,
{
    proc_macro2::fallback::force();
    syn::parse_str::<syn::Meta>(text).err().map(|e| e.to_string())
}

/// Parses `text` as a `syn::Type` and gives the error's message, with
/// proc-macro2's own implementation forced. Claimed: a function of `text`.
#[verifier::external_body]
fn type_error(text: &str) -> (res: Option<String>)
    ensures
        res matches Some(m) ==> type_error_of(text@) == Some(m@),
        res is None ==> type_error_of(text@) is None,
{
    proc_macro2::fallback::force();
    syn::parse_str::<syn::Type>(text).err().map(|e| e.to_string())
}

/// The error message of `syn::parse_str::<syn::Block>(text)`, or `None`
/// when it parses.
pub uninterp spec fn block_error_of(text: Seq<char>) -> Option<Seq<char>>;

/// Parses `text` as a `syn::Block`, which opens with `syn::braced!`, and
/// gives the error's message. Claimed: a function of `text`.
/// proc-macro2's own implementation is forced first (`proc_macro2::fallback::force`),
/// so lexing and printing are those of its own code in every process, not the compiler's.
#[verifier::external_body]
fn block_error(text: &str) -> (res: Option<String>)
    ensures
        res matches Some(m) ==> block_error_of(text@) == Some(m@),
        res is None ==> block_error_of(text@) is None,
{
    proc_macro2::fallback::force();
    syn::parse_str::<syn::Block>(text).err().map(|e| e.to_string())
}

/// The message with which syn's `braced!` refuses the tokens `rest`, which do
/// not open with a brace group: that of a block parsed from them, since a
/// block opens with `braced!`.
pub open spec fn brace_message(rest: Seq<char>) -> Seq<char> {
    match block_error_of(rest) {
        Some(m) => m,
        None => Seq::empty(),
    }
}

/// Whether `word` parses as a `syn::Ident`. Claimed: a function of `word`.
/// proc-macro2's own implementation is forced first (`proc_macro2::fallback::force`),
/// so lexing and printing are those of its own code in every process, not the compiler's.
#[verifier::external_body]
fn is_identifier(word: &str) -> (res: bool)
    ensures
        res == ident_parses(word@),
{
    proc_macro2::fallback::force();
    syn::parse_str::<syn::Ident>(word).is_ok()
}

/// How syn's parse of one piece of the input ended: with every token used,
/// with tokens left over (and the message that syn reports for them), or
/// with an error.
pub enum PieceView {
    Clean,
    Leftover(Seq<char>),
    Failed,
}

/// The messages that syn gives for tokens left after a parse, by the
/// delimiter of the group in which they stand (`err_unexpected_token` in
/// syn's `parse.rs`). syn reports left-over tokens by these messages alone,
/// so they are what tells a parse that stopped early from one that failed.
pub open spec fn is_leftover_message(m: Seq<char>) -> bool {
    ||| m == "unexpected token"@
    ||| m == "unexpected token, expected `)`"@
    ||| m == "unexpected token, expected `}`"@
    ||| m == "unexpected token, expected `]`"@
}

/// A piece that syn parsed on its own, read from its error: tokens left at
/// the top level of the piece are reported with `closing`, the message for
/// the group that encloses the piece in the whole input.
pub open spec fn piece_of(err: Option<Seq<char>>, closing: Seq<char>) -> PieceView {
    match err {
        None => PieceView::Clean,
        Some(m) => if m == "unexpected token"@ {
            PieceView::Leftover(closing)
        } else if is_leftover_message(m) {
            PieceView::Leftover(m)
        } else {
            PieceView::Failed
        },
    }
}

/// The first report of left-over tokens: the piece's own, else the later one.
pub open spec fn first_leftover(p: PieceView, later: Option<Seq<char>>) -> Option<Seq<char>> {
    match p {
        PieceView::Leftover(m) => Some(m),
        _ => later,
    }
}

pub open spec fn bracket_leftover() -> Seq<char> {
    "unexpected token, expected `]`"@
}

pub open spec fn brace_leftover() -> Seq<char> {
    "unexpected token, expected `}`"@
}

/// Reads the attributes that start at `t[i]`: outer ones (`#[...]`) when
/// `inner` is false, inner ones (`#![...]`) otherwise. Gives where they end
/// and the first report of left-over tokens inside them, or `None` when one
/// of them does not parse.
pub open spec fn attrs_end(t: Seq<TokView>, i: int, inner: bool) -> Option<(int, Option<Seq<char>>)>
    decreases t.len() - i,
{
    let k: int = if inner { 2 } else { 1 };
    if 0 <= i && i < t.len() && is_punct(t[i], '#')
        && (inner ==> i + 1 < t.len() && is_punct(t[i + 1], '!')) {
        if i + k < t.len() && t[i + k] is Group && t[i + k]->Group_0 == '[' {
            let p = piece_of(meta_error_of(t[i + k]->Group_1), bracket_leftover());
            if p is Failed {
                None
            } else {
                match attrs_end(t, i + k + 1, inner) {
                    None => None,
                    Some((e, l)) => Some((e, first_leftover(p, l))),
                }
            }
        } else {
            None
        }
    } else {
        Some((i, None))
    }
}

/// Whether `t[i]` is an identifier that is not a keyword.
pub open spec fn ident_at(t: Seq<TokView>, i: int) -> bool {
    0 <= i < t.len() && t[i] is Ident && ident_parses(t[i]->Ident_0)
}

/// What the analysis makes of an input.
pub enum AnalysisView {
    /// The macro panics.
    Panics,
    /// The macro reports this parse error.
    Refused(Seq<char>),
    /// The macro accepts the input and expands to nothing.
    Accepted,
}

/// What the analysis makes of the tokens inside the struct's braces,
/// `body`, given the first report of left-over tokens before them and
/// whether tokens follow the braces.
pub open spec fn body_analysis(body: Seq<char>, before: Option<Seq<char>>, trailing: bool) -> AnalysisView {
    match lexed_of(body) {
        None => AnalysisView::Panics,
        Some(c) => match attrs_end(c, 0, true) {
            None => AnalysisView::Panics,
            Some((j, inner)) => {
                let ty = piece_of(type_error_of(printed(c.skip(j + 2))), brace_leftover());
                if !ident_at(c, j) || !(j + 1 < c.len() && is_punct(c[j + 1], ':')) || ty is Failed {
                    AnalysisView::Panics
                } else {
                    match before {
                        Some(m) => AnalysisView::Refused(m),
                        None => match inner {
                            Some(m) => AnalysisView::Refused(m),
                            None => match ty {
                                PieceView::Leftover(m) => AnalysisView::Refused(m),
                                _ => if trailing {
                                    AnalysisView::Refused("unexpected token"@)
                                } else {
                                    AnalysisView::Accepted
                                },
                            },
                        },
                    }
                }
            },
        },
    }
}

/// What the analysis makes of `item`: its outer attributes, the keyword
/// `struct`, the struct's name, and a brace group holding the inner
/// attributes, one field's name, a colon and the field's type.
pub open spec fn analysis_of(item: Seq<char>) -> AnalysisView {
    match lexed_of(item) {
        None => AnalysisView::Panics,
        Some(t) => match attrs_end(t, 0, false) {
            None => AnalysisView::Panics,
            Some((i, outer)) => if !(i < t.len() && t[i] == TokView::Ident("struct"@)) || !ident_at(t, i + 1) {
                AnalysisView::Panics
            } else if !(i + 2 < t.len() && t[i + 2] is Group && t[i + 2]->Group_0 == '{') {
                AnalysisView::Refused(brace_message(printed(t.skip(i + 2))))
            } else {
                body_analysis(t[i + 2]->Group_1, outer, i + 3 < t.len())
            },
        },
    }
}

/// Whether the analysis panics on `item`.
pub open spec fn analyze_panics(item: Seq<char>) -> bool {
    analysis_of(item) is Panics
}

/// A piece of the input as syn's parse of it ended.
enum Piece {
    Clean,
    Leftover(String),
    Failed,
}

impl View for Piece {
    type V = PieceView;

    closed spec fn view(&self) -> PieceView {
        match self {
            Piece::Clean => PieceView::Clean,
            Piece::Leftover(m) => PieceView::Leftover(m@),
            Piece::Failed => PieceView::Failed,
        }
    }
}

spec fn message_view(m: Option<String>) -> Option<Seq<char>> {
    match m {
        Some(s) => Some(s@),
        None => None,
    }
}

fn piece(err: Option<String>, closing: &str) -> (res: Piece)
    ensures
        res@ == piece_of(message_view(err), closing@),
{
    match err {
        None => Piece::Clean,
        Some(m) => {
            if same_text(m.as_str(), "unexpected token") {
                Piece::Leftover(String::from_str(closing))
            } else if same_text(m.as_str(), "unexpected token, expected `)`")
                || same_text(m.as_str(), "unexpected token, expected `}`")
                || same_text(m.as_str(), "unexpected token, expected `]`") {
                Piece::Leftover(m)
            } else {
                Piece::Failed
            }
        },
    }
}

fn tok_at(t: &Vec<Tok>, i: usize) -> (res: &Tok)
    requires
        i < t.len(),
    ensures
        res@ == tok_views(t@)[i as int],
{
    &t[i]
}

fn punct_is(t: &Tok, c: char) -> (res: bool)
    ensures
        res == is_punct(t@, c),
{
    match t {
        Tok::Punct(p, _) => *p == c,
        _ => false,
    }
}

/// Reads the attributes that start at `t[i]`, as `attrs_end` describes.
fn read_attrs(t: &Vec<Tok>, i: usize, inner: bool) -> (res: Option<(usize, Option<String>)>)
    requires
        i <= t.len(),
    ensures
        res is None ==> attrs_end(tok_views(t@), i as int, inner) is None,
        res matches Some((e, l)) ==> attrs_end(tok_views(t@), i as int, inner)
            == Some((e as int, message_view(l))),
        res matches Some((e, _)) ==> e <= t.len(),
    decreases t.len() - i,
{
    let n = t.len();
    let k: usize = if inner { 2 } else { 1 };
    let opens = i < n && punct_is(tok_at(t, i), '#')
        && (!inner || (i + 1 < n && punct_is(tok_at(t, i + 1), '!')));
    if !opens {
        return Some((i, None));
    }
    if i + k >= n {
        return None;
    }
    let text = match tok_at(t, i + k) {
        Tok::Group(d, text) => {
            if *d != '[' {
                return None;
            }
            text
        },
        _ => return None,
    };
    let p = piece(meta_error(text.as_str()), "unexpected token, expected `]`");
    proof {
        reveal_strlit("unexpected token, expected `]`");
    }
    match p {
        Piece::Failed => None,
        Piece::Clean => read_attrs(t, i + k + 1, inner),
        Piece::Leftover(m) => match read_attrs(t, i + k + 1, inner) {
            None => None,
            Some((e, _)) => Some((e, Some(m))),
        },
    }
}

fn is_identifier_at(t: &Vec<Tok>, i: usize) -> (res: bool)
    ensures
        res == ident_at(tok_views(t@), i as int),
{
    if i >= t.len() {
        return false;
    }
    match tok_at(t, i) {
        Tok::Ident(w) => is_identifier(w.as_str()),
        _ => false,
    }
}

/// The expansion or the error that an analysis outcome is reported as.
pub open spec fn analysis_result(a: AnalysisView) -> Result<Seq<char>, MacroErrorView> {
    match a {
        AnalysisView::Refused(m) => Err(MacroErrorView::Syntax(m)),
        _ => Ok(Seq::empty()),
    }
}

fn analyze_body(body: &str, before: Option<String>, trailing: bool) -> (res: Option<Result<String, MacroError>>)
    ensures
        res is None <==> body_analysis(body@, message_view(before), trailing) is Panics,
        res matches Some(r) ==> match r {
            Ok(o) => analysis_result(body_analysis(body@, message_view(before), trailing)) == Ok::<Seq<char>, MacroErrorView>(o@),
            Err(e) => analysis_result(body_analysis(body@, message_view(before), trailing)) == Err::<Seq<char>, MacroErrorView>(e@),
        },
{
    let c = match lex(body) {
        Some(c) => c,
        None => return None,
    };
    let (j, inner) = match read_attrs(&c, 0, true) {
        Some(r) => r,
        None => return None,
    };
    if !is_identifier_at(&c, j) || j + 1 >= c.len() || !punct_is(tok_at(&c, j + 1), ':') {
        return None;
    }
    let rest = print_tokens(&c, j + 2, c.len());
    proof { assert(tok_views(c@).subrange(j + 2, c.len() as int) =~= tok_views(c@).skip(j + 2)); }
    let ty = piece(type_error(rest.as_str()), "unexpected token, expected `}`");
    proof {
        reveal_strlit("unexpected token, expected `}`");
    }
    if matches!(ty, Piece::Failed) {
        return None;
    }
    match before {
        Some(m) => Some(Err(MacroError::Syntax(m))),
        None => match inner {
            Some(m) => Some(Err(MacroError::Syntax(m))),
            None => match ty {
                Piece::Leftover(m) => Some(Err(MacroError::Syntax(m))),
                _ => if trailing {
                    Some(Err(MacroError::Syntax(String::from_str("unexpected token"))))
                } else {
                    Some(Ok(String::new()))
                },
            },
        },
    }
}

/// The `analyze!` macro on any input: `None` where it panics, else the
/// empty expansion or the parse error that it reports.
pub fn try_analyze(item: &str) -> (res: Option<Result<String, MacroError>>)
    ensures
        res is None <==> analyze_panics(item@),
        res matches Some(r) ==> match r {
            Ok(o) => analysis_result(analysis_of(item@)) == Ok::<Seq<char>, MacroErrorView>(o@),
            Err(e) => analysis_result(analysis_of(item@)) == Err::<Seq<char>, MacroErrorView>(e@),
        },
{
    let t = match lex(item) {
        Some(t) => t,
        None => return None,
    };
    let (i, outer) = match read_attrs(&t, 0, false) {
        Some(r) => r,
        None => return None,
    };
    let n = t.len();
    if i >= n {
        return None;
    }
    let is_struct = match tok_at(&t, i) {
        Tok::Ident(w) => same_text(w.as_str(), "struct"),
        _ => false,
    };
    proof {
        reveal_strlit("struct");
    }
    if !is_struct || !is_identifier_at(&t, i + 1) {
        return None;
    }
    if i + 2 < n {
        if let Tok::Group(d, body) = tok_at(&t, i + 2) {
            if *d == '{' {
                return analyze_body(body.as_str(), outer, i + 3 < n);
            }
        }
    }
    let rest = print_tokens(&t, i + 2, n);
    proof { assert(tok_views(t@).subrange(i + 2, n as int) =~= tok_views(t@).skip(i + 2)); }
    let message = match block_error(rest.as_str()) {
        Some(m) => m,
        None => String::new(),
    };
    Some(Err(MacroError::Syntax(message)))
}

/// The `analyze!` macro: reads a struct with outer and inner attributes and
/// one field, and expands to nothing; refuses input that does not parse.
pub fn analyze(item: &str) -> (res: Result<String, MacroError>)
    requires
        !analyze_panics(item@),
    ensures
        res matches Ok(o) ==> analysis_result(analysis_of(item@)) == Ok::<Seq<char>, MacroErrorView>(o@),
        res matches Err(e) ==> analysis_result(analysis_of(item@)) == Err::<Seq<char>, MacroErrorView>(e@),
{
    match try_analyze(item) {
        Some(r) => r,
        None => Ok(String::new()),
    }
}

} // verus!
