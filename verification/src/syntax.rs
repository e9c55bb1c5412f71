//! Reading Rust items with `syn`. Every trusted function here parses the
//! item's source text anew and hands back plain values; the verified readers
//! assemble them into the descriptions of `item`. The texts are printed by
//! proc-macro2's own implementation, which each trusted function forces.

use vstd::prelude::*;
use quote::ToTokens;
use syn::{Data, DataStruct, DeriveInput, Expr, Fields, Stmt};
use crate::item::{
    Attr, AttrView, Field, FieldView, StructItem, StructView, attr_views, field_views, FnItem, FnView,
    InnerStmt, InnerStmtView, TopStmt, TopStmtView, inner_views, top_views,
};
use crate::text::views;

verus! {

/// The message of the error that `syn` reports when `src` does not parse as
/// a derive input (a struct, enum or union), or `None` when it parses.
pub uninterp spec fn derive_error_of(src: Seq<char>) -> Option<Seq<char>>;

/// The outer attributes, visibility, name, generic parameters and where
/// clause of the derive input in `src`, each by its tokens.
pub uninterp spec fn derive_header_of(src: Seq<char>) -> Option<(Seq<Seq<char>>, Seq<char>, Seq<char>, Seq<char>, Seq<char>)>;

/// The number of fields when `src` is a struct with named fields.
pub uninterp spec fn derive_field_count_of(src: Seq<char>) -> Option<nat>;

/// Whether a comma follows the last named field of the struct in `src`.
pub uninterp spec fn derive_trailing_comma_of(src: Seq<char>) -> bool;

/// The visibility, name and type of field `i`, and the identifier of the
/// first segment of the type when the type is a path.
pub uninterp spec fn derive_field_of(src: Seq<char>, i: nat) -> Option<(Seq<char>, Seq<char>, Seq<char>, Option<Seq<char>>)>;

/// The attributes of field `i`.
pub uninterp spec fn derive_field_attrs_of(src: Seq<char>, i: nat) -> Option<Seq<AttrView>>;

/// Parses `src` with `syn::parse_str::<DeriveInput>` and returns the
/// error's message (`Display`) when that fails. Claimed: the result is a
/// function of `src` alone.
/// proc-macro2's own implementation is forced first (`proc_macro2::fallback::force`),
/// so lexing and printing are those of its own code in every process, not the compiler's.
#[verifier::external_body]
fn derive_error(src: &str) -> (res: Option<String>)
    ensures
        res matches Some(e) ==> derive_error_of(src@) == Some(e@),
        res is None ==> derive_error_of(src@) is None,
{
    proc_macro2::fallback::force();
    syn::parse_str::<DeriveInput>(src).err().map(|e| e.to_string())
}

/// Parses `src` as a `syn::DeriveInput` and prints its attributes,
/// visibility, identifier, generics and where clause with `ToTokens`.
/// Claimed: a function of `src`, present exactly when the parse succeeds.
/// proc-macro2's own implementation is forced first (`proc_macro2::fallback::force`),
/// so lexing and printing are those of its own code in every process, not the compiler's.
#[verifier::external_body]
fn derive_header(src: &str) -> (res: Option<(Vec<String>, String, String, String, String)>)
    ensures
        res is Some <==> derive_error_of(src@) is None,
        res matches Some(h) ==> derive_header_of(src@) == Some((views(h.0@), h.1@, h.2@, h.3@, h.4@)),
        res is None ==> derive_header_of(src@) is None,
{
    proc_macro2::fallback::force();
    syn::parse_str::<DeriveInput>(src).ok().map(|d| (
        d.attrs.iter().map(|a| a.to_token_stream().to_string()).collect(),
        d.vis.to_token_stream().to_string(),
        d.ident.to_string(),
        d.generics.to_token_stream().to_string(),
        d.generics.where_clause.to_token_stream().to_string(),
    ))
}

/// Parses `src` as a `syn::DeriveInput` and returns the number of named
/// fields when its data is `Data::Struct` with `Fields::Named`, with their
/// `Punctuated::trailing_punct`.
/// Claimed: a function of `src`, present only when the parse succeeds.
/// proc-macro2's own implementation is forced first (`proc_macro2::fallback::force`),
/// so lexing and printing are those of its own code in every process, not the compiler's.
#[verifier::external_body]
fn derive_field_count(src: &str) -> (res: Option<(usize, bool)>)
    ensures
        res matches Some(n) ==> derive_field_count_of(src@) == Some(n.0 as nat)
            && derive_trailing_comma_of(src@) == n.1,
        res is None ==> derive_field_count_of(src@) is None,
        res is Some ==> derive_error_of(src@) is None,
{
    proc_macro2::fallback::force();
    match syn::parse_str::<DeriveInput>(src).ok()?.data {
        Data::Struct(DataStruct { fields: Fields::Named(n), .. }) =>
            Some((n.named.len(), n.named.trailing_punct())),
        _ => None,
    }
}

/// Field `i` of the named fields of the struct in `src`: its visibility and
/// type printed with `ToTokens`, its identifier, and the identifier of the
/// first segment of its type when the type is `Type::Path`.
/// Claimed: a function of `src` and `i`, present exactly for `i` below the
/// field count.
/// proc-macro2's own implementation is forced first (`proc_macro2::fallback::force`),
/// so lexing and printing are those of its own code in every process, not the compiler's.
#[verifier::external_body]
fn derive_field(src: &str, i: usize) -> (res: Option<(String, String, String, Option<String>)>)
    ensures
        res is Some <==> (derive_field_count_of(src@) matches Some(n) && i < n),
        res matches Some(f) ==> derive_field_of(src@, i as nat) == Some((f.0@, f.1@, f.2@,
            match f.3 { Some(h) => Some(h@), None => None })),
        res is None ==> derive_field_of(src@, i as nat) is None,
{
    proc_macro2::fallback::force();
    let d = syn::parse_str::<DeriveInput>(src).ok()?;
    let Data::Struct(DataStruct { fields: Fields::Named(n), .. }) = d.data else { return None };
    let f = n.named.iter().nth(i)?;
    let head = match &f.ty { syn::Type::Path(p) => p.path.segments.first().map(|s| s.ident.to_string()), _ => None };
    Some((f.vis.to_token_stream().to_string(), f.ident.as_ref()?.to_string(), f.ty.to_token_stream().to_string(), head))
}

/// The attributes of field `i`: each printed with `ToTokens`, whether its
/// path has a `leading_colon`, its path's segments each printed with
/// `ToTokens` (identifier and arguments), and the tokens of
/// `Meta::require_list` when that succeeds.
/// Claimed: a function of `src` and `i`, present exactly for `i` below the
/// field count.
/// proc-macro2's own implementation is forced first (`proc_macro2::fallback::force`),
/// so lexing and printing are those of its own code in every process, not the compiler's.
#[verifier::external_body]
fn derive_field_attrs(src: &str, i: usize) -> (res: Option<Vec<Attr>>)
    ensures
        res is Some <==> (derive_field_count_of(src@) matches Some(n) && i < n),
        res matches Some(a) ==> derive_field_attrs_of(src@, i as nat) == Some(attr_views(a@)),
        res is None ==> derive_field_attrs_of(src@, i as nat) is None,
{
    proc_macro2::fallback::force();
    let d = syn::parse_str::<DeriveInput>(src).ok()?;
    let Data::Struct(DataStruct { fields: Fields::Named(n), .. }) = d.data else { return None };
    Some(n.named.iter().nth(i)?.attrs.iter().map(|a| Attr {
        text: a.to_token_stream().to_string(),
        leading_colon: a.path().leading_colon.is_some(),
        path: a.path().segments.iter().map(|s| s.to_token_stream().to_string()).collect(),
        list: a.meta.require_list().ok().map(|l| l.tokens.to_string()),
    }).collect())
}

/// Field `i` of the struct in `src`, assembled from what `syn` reports.
pub open spec fn field_at(src: Seq<char>, i: nat) -> FieldView {
    let f = derive_field_of(src, i)->0;
    FieldView {
        attrs: derive_field_attrs_of(src, i)->0,
        vis: f.0,
        name: f.1,
        ty: f.2,
        ty_head: f.3,
    }
}

/// The description of the derive input in `src`, or the parse error.
pub open spec fn struct_of(src: Seq<char>) -> Result<StructView, Seq<char>> {
    match derive_header_of(src) {
        None => Err(derive_error_of(src)->0),
        Some(h) => Ok(StructView {
            attrs: h.0,
            vis: h.1,
            name: h.2,
            generics: h.3,
            where_clause: h.4,
            fields: match derive_field_count_of(src) {
                Some(n) => Some(Seq::new(n, |i: int| field_at(src, i as nat))),
                None => None,
            },
            trailing_comma: derive_field_count_of(src) is Some && derive_trailing_comma_of(src),
        }),
    }
}

fn read_field(src: &str, i: usize, Ghost(n): Ghost<nat>) -> (res: Field)
    requires
        derive_field_count_of(src@) == Some(n),
        i < n,
    ensures
        res@ == field_at(src@, i as nat),
{
    let parts = derive_field(src, i);
    let attrs = derive_field_attrs(src, i);
    match (parts, attrs) {
        (Some((vis, name, ty, ty_head)), Some(attrs)) => Field { attrs, vis, name, ty, ty_head },
        _ => {
            proof { assert(false); }
            Field { attrs: Vec::new(), vis: String::new(), name: String::new(), ty: String::new(), ty_head: None }
        },
    }
}

/// Reads the struct, enum or union in `src`.
pub fn read_struct(src: &str) -> (res: Result<StructItem, String>)
    ensures
        res matches Ok(s) ==> struct_of(src@) == Ok::<StructView, Seq<char>>(s@),
        res matches Err(e) ==> struct_of(src@) == Err::<StructView, Seq<char>>(e@),
{
    match derive_header(src) {
        None => {
            match derive_error(src) {
                Some(e) => Err(e),
                None => {
                    proof { assert(false); }
                    Err(String::new())
                },
            }
        },
        Some((attrs, vis, name, generics, where_clause)) => {
            let mut trailing_comma = false;
            let fields = match derive_field_count(src) {
                None => None,
                Some((n, trailing)) => {
                    trailing_comma = trailing;
                    let mut fields: Vec<Field> = Vec::new();
                    let mut i: usize = 0;
                    while i < n
                        invariant
                            derive_field_count_of(src@) == Some(n as nat),
                            i <= n,
                            fields@.len() == i,
                            forall|k: int| 0 <= k < i ==> #[trigger] fields@[k]@ == field_at(src@, k as nat),
                        decreases n - i,
                    {
                        let f = read_field(src, i, Ghost(n as nat));
                        fields.push(f);
                        i = i + 1;
                    }
                    proof {
                        assert(field_views(fields@) =~= Seq::new(n as nat, |i: int| field_at(src@, i as nat)));
                    }
                    Some(fields)
                },
            };
            let s = StructItem { attrs, vis, name, generics, where_clause, fields, trailing_comma };
            proof {
                assert(struct_of(src@) == Ok::<StructView, Seq<char>>(s@));
            }
            Ok(s)
        },
    }
}


/// What kind of statement a statement of a function's body is, as far as the
/// panic-to-result rewriting looks at it.
pub enum StmtShape {
    /// An `if` expression statement with its condition, the number of
    /// statements of its first block and its `else` branch.
    If { cond: String, count: usize, else_branch: Option<String> },
    /// A `while` loop statement with its label, condition and the number of
    /// statements of its body.
    While { label: String, cond: String, count: usize },
    Other,
}

pub enum StmtShapeView {
    If { cond: Seq<char>, count: nat, else_branch: Option<Seq<char>> },
    While { label: Seq<char>, cond: Seq<char>, count: nat },
    Other,
}

impl View for StmtShape {
    type V = StmtShapeView;

    open spec fn view(&self) -> StmtShapeView {
        match self {
            StmtShape::If { cond, count, else_branch } => StmtShapeView::If {
                cond: cond@,
                count: *count as nat,
                else_branch: match else_branch {
                    Some(e) => Some(e@),
                    None => None,
                },
            },
            StmtShape::While { label, cond, count } => StmtShapeView::While {
                label: label@,
                cond: cond@,
                count: *count as nat,
            },
            StmtShape::Other => StmtShapeView::Other,
        }
    }
}

/// The views of attributes given with their style (`true` for inner ones).
pub open spec fn styled_views(a: Seq<(bool, String)>) -> Seq<(bool, Seq<char>)> {
    a.map_values(|x: (bool, String)| (x.0, x.1@))
}

/// The message of the error that `syn` reports when `src` does not parse as
/// a function item, or `None` when it parses.
pub uninterp spec fn fn_error_of(src: Seq<char>) -> Option<Seq<char>>;

/// The attributes of the function in `src`, with their style.
pub uninterp spec fn fn_attrs_of(src: Seq<char>) -> Option<Seq<(bool, Seq<char>)>>;

/// The visibility of the function in `src`, then its signature's `const`,
/// `async`, `unsafe` and `extern` qualifiers (each empty when absent), its
/// name and its generic parameters.
pub uninterp spec fn fn_head_of(src: Seq<char>) -> Option<Seq<Seq<char>>>;

/// The parameters of the function in `src`, whether they are non-empty
/// without a trailing comma, and its variadic argument.
pub uninterp spec fn fn_params_of(src: Seq<char>) -> Option<(Seq<char>, bool, Option<Seq<char>>)>;

/// The return type of the function in `src` (`None` for the default), its
/// where clause, and the number of statements of its body.
pub uninterp spec fn fn_output_of(src: Seq<char>) -> Option<(Option<Seq<char>>, Seq<char>, nat)>;

/// The kind of statement `i` of the function's body.
pub uninterp spec fn fn_stmt_of(src: Seq<char>, i: nat) -> Option<StmtShapeView>;

/// The tokens of statement `i`, and whether it is an expression statement
/// ended by a semicolon.
pub uninterp spec fn fn_stmt_text_of(src: Seq<char>, i: nat) -> Option<(Seq<char>, bool)>;

/// The attributes of statement `i` when it is an `if` or a `while`.
pub uninterp spec fn fn_stmt_attrs_of(src: Seq<char>, i: nat) -> Option<Seq<(bool, Seq<char>)>>;

/// Statement `j` of the block of the `if` or `while` that is statement `i`.
pub uninterp spec fn fn_inner_stmt_of(src: Seq<char>, i: nat, j: nat) -> Option<InnerStmtView>;

/// Whether `text` parses as a Rust expression.
pub uninterp spec fn expression_parses(text: Seq<char>) -> bool;

/// Whether `text` parses as a Rust statement.
pub uninterp spec fn statement_parses(text: Seq<char>) -> bool;

/// Parses `src` with `syn::parse_str::<syn::ItemFn>` and returns the
/// error's message when that fails. Claimed: a function of `src`.
/// proc-macro2's own implementation is forced first (`proc_macro2::fallback::force`),
/// so lexing and printing are those of its own code in every process, not the compiler's.
#[verifier::external_body]
fn fn_error(src: &str) -> (res: Option<String>)
    ensures
        res matches Some(e) ==> fn_error_of(src@) == Some(e@),
        res is None ==> fn_error_of(src@) is None,
{
    proc_macro2::fallback::force();
    syn::parse_str::<syn::ItemFn>(src).err().map(|e| e.to_string())
}

/// The attributes of the `syn::ItemFn` in `src`, each printed with
/// `ToTokens` and marked when its style is `AttrStyle::Inner`.
/// Claimed: a function of `src`, present exactly when the parse succeeds.
/// proc-macro2's own implementation is forced first (`proc_macro2::fallback::force`),
/// so lexing and printing are those of its own code in every process, not the compiler's.
#[verifier::external_body]
fn fn_attrs(src: &str) -> (res: Option<Vec<(bool, String)>>)
    ensures
        res is Some <==> fn_error_of(src@) is None,
        res matches Some(a) ==> fn_attrs_of(src@) == Some(styled_views(a@)),
        res is None ==> fn_attrs_of(src@) is None,
{
    proc_macro2::fallback::force();
    syn::parse_str::<syn::ItemFn>(src).ok().map(|f| f.attrs.iter().map(|a|
        (matches!(a.style, syn::AttrStyle::Inner(_)), a.to_token_stream().to_string())).collect())
}

/// The visibility of the `syn::ItemFn` in `src`, and its signature's
/// `constness`, `asyncness`, `unsafety`, `abi`, identifier and generics,
/// seven texts printed with `ToTokens`. Claimed: a function of `src`,
/// present exactly when the parse succeeds.
/// proc-macro2's own implementation is forced first (`proc_macro2::fallback::force`),
/// so lexing and printing are those of its own code in every process, not the compiler's.
#[verifier::external_body]
fn fn_head(src: &str) -> (res: Option<Vec<String>>)
    ensures
        res is Some <==> fn_error_of(src@) is None,
        res matches Some(h) ==> fn_head_of(src@) == Some(views(h@)) && h@.len() == 7,
        res is None ==> fn_head_of(src@) is None,
{
    proc_macro2::fallback::force();
    let f = syn::parse_str::<syn::ItemFn>(src).ok()?;
    let s = &f.sig;
    Some(vec![f.vis.to_token_stream().to_string(), s.constness.to_token_stream().to_string(),
        s.asyncness.to_token_stream().to_string(), s.unsafety.to_token_stream().to_string(),
        s.abi.to_token_stream().to_string(), s.ident.to_string(), s.generics.to_token_stream().to_string()])
}

/// The part of a signature before its parameters, from the parts that
/// `fn_head_of` gives: the qualifiers, `fn`, the name and the generics.
pub open spec fn head_prefix(h: Seq<Seq<char>>) -> Seq<char> {
    h[1] + " "@ + h[2] + " "@ + h[3] + " "@ + h[4] + " fn "@ + h[5] + " "@ + h[6]
}

fn assemble_prefix(h: &Vec<String>) -> (res: String)
    requires
        h.len() == 7,
    ensures
        res@ == head_prefix(views(h@)),
{
    let mut out = h[1].clone();
    out.append(" ");
    out.append(h[2].as_str());
    out.append(" ");
    out.append(h[3].as_str());
    out.append(" ");
    out.append(h[4].as_str());
    out.append(" fn ");
    out.append(h[5].as_str());
    out.append(" ");
    out.append(h[6].as_str());
    out
}

/// The signature's inputs printed with `ToTokens`, `!empty_or_trailing()`
/// of them, and its variadic argument. Claimed: a function of `src`,
/// present exactly when the parse succeeds.
/// proc-macro2's own implementation is forced first (`proc_macro2::fallback::force`),
/// so lexing and printing are those of its own code in every process, not the compiler's.
#[verifier::external_body]
fn fn_params(src: &str) -> (res: Option<(String, bool, Option<String>)>)
    ensures
        res is Some <==> fn_error_of(src@) is None,
        res matches Some(p) ==> fn_params_of(src@) == Some((p.0@, p.1,
            match p.2 { Some(v) => Some(v@), None => None })),
        res is None ==> fn_params_of(src@) is None,
{
    proc_macro2::fallback::force();
    let s = syn::parse_str::<syn::ItemFn>(src).ok()?.sig;
    Some((s.inputs.to_token_stream().to_string(), !s.inputs.empty_or_trailing(),
        s.variadic.as_ref().map(|v| v.to_token_stream().to_string())))
}

/// The signature's return type (`None` for `ReturnType::Default`), where
/// clause, and the length of the block's statements. Claimed: a function of
/// `src`, present exactly when the parse succeeds.
/// proc-macro2's own implementation is forced first (`proc_macro2::fallback::force`),
/// so lexing and printing are those of its own code in every process, not the compiler's.
#[verifier::external_body]
fn fn_output(src: &str) -> (res: Option<(Option<String>, String, usize)>)
    ensures
        res is Some <==> fn_error_of(src@) is None,
        res matches Some(o) ==> fn_output_of(src@) == Some((
            match o.0 { Some(t) => Some(t@), None => None }, o.1@, o.2 as nat)),
        res is None ==> fn_output_of(src@) is None,
{
    proc_macro2::fallback::force();
    let f = syn::parse_str::<syn::ItemFn>(src).ok()?;
    let output = match &f.sig.output {
        syn::ReturnType::Default => None,
        syn::ReturnType::Type(_, ty) => Some(ty.to_token_stream().to_string()),
    };
    Some((output, f.sig.generics.where_clause.to_token_stream().to_string(), f.block.stmts.len()))
}

/// Statement `i` of the function's block: `Stmt::Expr` of `Expr::If` or
/// `Expr::While`, with the parts printed with `ToTokens` and the number of
/// statements of the then-block or body; `Other` for every other statement.
/// Claimed: a function of `src` and `i`, present exactly for `i` below the
/// number of statements.
/// proc-macro2's own implementation is forced first (`proc_macro2::fallback::force`),
/// so lexing and printing are those of its own code in every process, not the compiler's.
#[verifier::external_body]
fn fn_stmt(src: &str, i: usize) -> (res: Option<StmtShape>)
    ensures
        res is Some <==> (fn_output_of(src@) matches Some(o) && i < o.2),
        res matches Some(s) ==> fn_stmt_of(src@, i as nat) == Some(s@),
        res is None ==> fn_stmt_of(src@, i as nat) is None,
{
    proc_macro2::fallback::force();
    let f = syn::parse_str::<syn::ItemFn>(src).ok()?;
    Some(match f.block.stmts.get(i)? {
        Stmt::Expr(Expr::If(e), _) => StmtShape::If { cond: e.cond.to_token_stream().to_string(),
            count: e.then_branch.stmts.len(), else_branch: e.else_branch.as_ref().map(|b| b.1.to_token_stream().to_string()) },
        Stmt::Expr(Expr::While(e), _) => StmtShape::While { label: e.label.to_token_stream().to_string(),
            cond: e.cond.to_token_stream().to_string(), count: e.body.stmts.len() },
        _ => StmtShape::Other,
    })
}

/// Statement `i` printed with `ToTokens`, and whether it is `Stmt::Expr`
/// with a semicolon. Claimed: a function of `src` and `i`, present exactly
/// for `i` below the number of statements.
/// proc-macro2's own implementation is forced first (`proc_macro2::fallback::force`),
/// so lexing and printing are those of its own code in every process, not the compiler's.
#[verifier::external_body]
fn fn_stmt_text(src: &str, i: usize) -> (res: Option<(String, bool)>)
    ensures
        res is Some <==> (fn_output_of(src@) matches Some(o) && i < o.2),
        res matches Some(t) ==> fn_stmt_text_of(src@, i as nat) == Some((t.0@, t.1)),
        res is None ==> fn_stmt_text_of(src@, i as nat) is None,
{
    proc_macro2::fallback::force();
    let f = syn::parse_str::<syn::ItemFn>(src).ok()?;
    f.block.stmts.get(i).map(|s| (s.to_token_stream().to_string(), matches!(s, Stmt::Expr(_, Some(_)))))
}

/// The attributes of statement `i` when it is `Expr::If` or `Expr::While`
/// (empty otherwise), each printed with `ToTokens` and marked when inner.
/// Claimed: a function of `src` and `i`, present exactly for `i` below the
/// number of statements.
/// proc-macro2's own implementation is forced first (`proc_macro2::fallback::force`),
/// so lexing and printing are those of its own code in every process, not the compiler's.
#[verifier::external_body]
fn fn_stmt_attrs(src: &str, i: usize) -> (res: Option<Vec<(bool, String)>>)
    ensures
        res is Some <==> (fn_output_of(src@) matches Some(o) && i < o.2),
        res matches Some(a) ==> fn_stmt_attrs_of(src@, i as nat) == Some(styled_views(a@)),
        res is None ==> fn_stmt_attrs_of(src@, i as nat) is None,
{
    proc_macro2::fallback::force();
    let f = syn::parse_str::<syn::ItemFn>(src).ok()?;
    let attrs = match f.block.stmts.get(i)? {
        Stmt::Expr(Expr::If(e), _) => &e.attrs,
        Stmt::Expr(Expr::While(e), _) => &e.attrs,
        _ => return Some(Vec::new()),
    };
    Some(attrs.iter().map(|a| (matches!(a.style, syn::AttrStyle::Inner(_)), a.to_token_stream().to_string())).collect())
}

/// Statement `j` of the then-block (of an `if`) or body (of a `while`) that
/// statement `i` holds: for `Stmt::Macro` the identifiers of the macro's
/// path segments, its tokens and its own tokens; otherwise its tokens.
/// Claimed: a function of `src`, `i` and `j`, present exactly for `j` below
/// the count that `fn_stmt_of` gives.
/// proc-macro2's own implementation is forced first (`proc_macro2::fallback::force`),
/// so lexing and printing are those of its own code in every process, not the compiler's.
#[verifier::external_body]
fn fn_inner_stmt(src: &str, i: usize, j: usize) -> (res: Option<InnerStmt>)
    ensures
        res is Some <==> match fn_stmt_of(src@, i as nat) {
            Some(StmtShapeView::If { count, .. }) => j < count,
            Some(StmtShapeView::While { count, .. }) => j < count,
            _ => false,
        },
        res matches Some(s) ==> fn_inner_stmt_of(src@, i as nat, j as nat) == Some(s@),
        res is None ==> fn_inner_stmt_of(src@, i as nat, j as nat) is None,
{
    proc_macro2::fallback::force();
    let f = syn::parse_str::<syn::ItemFn>(src).ok()?;
    let block = match f.block.stmts.get(i)? {
        Stmt::Expr(Expr::If(e), _) => &e.then_branch,
        Stmt::Expr(Expr::While(e), _) => &e.body,
        _ => return None,
    };
    Some(match block.stmts.get(j)? {
        Stmt::Macro(m) => InnerStmt::Macro { segments: m.mac.path.segments.iter().map(|s| s.ident.to_string()).collect(),
            tokens: m.mac.tokens.to_string(), text: m.to_token_stream().to_string() },
        s => InnerStmt::Other { text: s.to_token_stream().to_string() },
    })
}

/// Whether `syn::parse_str::<syn::Expr>(text)` succeeds. Claimed: a function
/// of `text`.
/// proc-macro2's own implementation is forced first (`proc_macro2::fallback::force`),
/// so lexing and printing are those of its own code in every process, not the compiler's.
#[verifier::external_body]
pub(crate) fn parses_as_expression(text: &str) -> (res: bool)
    ensures
        res == expression_parses(text@),
{
    proc_macro2::fallback::force();
    syn::parse_str::<syn::Expr>(text).is_ok()
}

/// Whether `syn::parse_str::<syn::Stmt>(text)` succeeds. Claimed: a
/// function of `text`.
/// proc-macro2's own implementation is forced first (`proc_macro2::fallback::force`),
/// so lexing and printing are those of its own code in every process, not the compiler's.
#[verifier::external_body]
pub(crate) fn parses_as_statement(text: &str) -> (res: bool)
    ensures
        res == statement_parses(text@),
{
    proc_macro2::fallback::force();
    syn::parse_str::<syn::Stmt>(text).is_ok()
}

/// The texts of the attributes of the given style, in order.
pub open spec fn styled_texts(a: Seq<(bool, Seq<char>)>, inner: bool) -> Seq<Seq<char>>
    decreases a.len(),
{
    if a.len() == 0 {
        Seq::empty()
    } else if a.last().0 == inner {
        styled_texts(a.drop_last(), inner).push(a.last().1)
    } else {
        styled_texts(a.drop_last(), inner)
    }
}

/// Statement `i` of the function in `src`, assembled from what `syn` reports.
pub open spec fn stmt_at(src: Seq<char>, i: nat) -> TopStmtView {
    let t = fn_stmt_text_of(src, i)->0;
    let a = fn_stmt_attrs_of(src, i)->0;
    match fn_stmt_of(src, i)->0 {
        StmtShapeView::If { cond, count, else_branch } => TopStmtView::If {
            attrs: styled_texts(a, false),
            cond,
            body: Seq::new(count, |j: int| fn_inner_stmt_of(src, i, j as nat)->0),
            else_branch,
            semi: t.1,
            text: t.0,
        },
        StmtShapeView::While { label, cond, count } => TopStmtView::While {
            attrs: styled_texts(a, false),
            inner_attrs: styled_texts(a, true),
            label,
            cond,
            body: Seq::new(count, |j: int| fn_inner_stmt_of(src, i, j as nat)->0),
            semi: t.1,
            text: t.0,
        },
        StmtShapeView::Other => TopStmtView::Other { text: t.0 },
    }
}

/// The description of the function in `src`, or the parse error.
pub open spec fn fn_of(src: Seq<char>) -> Result<FnView, Seq<char>> {
    match fn_error_of(src) {
        Some(e) => Err(e),
        None => {
            let a = fn_attrs_of(src)->0;
            let h = fn_head_of(src)->0;
            let p = fn_params_of(src)->0;
            let o = fn_output_of(src)->0;
            Ok(FnView {
                attrs: styled_texts(a, false),
                inner_attrs: styled_texts(a, true),
                vis: h[0],
                prefix: head_prefix(h),
                params: p.0,
                params_open: p.1,
                variadic: p.2,
                output: o.0,
                where_clause: o.1,
                stmts: Seq::new(o.2, |i: int| stmt_at(src, i as nat)),
            })
        },
    }
}

/// Splits attributes by style.
fn split_attrs(a: Vec<(bool, String)>) -> (res: (Vec<String>, Vec<String>))
    ensures
        views(res.0@) == styled_texts(styled_views(a@), false),
        views(res.1@) == styled_texts(styled_views(a@), true),
{
    let mut outer: Vec<String> = Vec::new();
    let mut inner: Vec<String> = Vec::new();
    let n = a.len();
    let mut i: usize = 0;
    while i < n
        invariant
            n == a.len(),
            i <= n,
            views(outer@) == styled_texts(styled_views(a@).take(i as int), false),
            views(inner@) == styled_texts(styled_views(a@).take(i as int), true),
        decreases n - i,
    {
        proof {
            let s = styled_views(a@);
            assert(s.take(i + 1).drop_last() =~= s.take(i as int));
            assert(s.take(i + 1).last() == s[i as int]);
        }
        let is_inner = a[i].0;
        let text = a[i].1.clone();
        let ghost before_outer = outer@;
        let ghost before_inner = inner@;
        if is_inner {
            inner.push(text);
            proof { assert(views(inner@) =~= views(before_inner).push(a@[i as int].1@)); }
        } else {
            outer.push(text);
            proof { assert(views(outer@) =~= views(before_outer).push(a@[i as int].1@)); }
        }
        i = i + 1;
    }
    proof {
        assert(styled_views(a@).take(n as int) =~= styled_views(a@));
    }
    (outer, inner)
}


fn read_inner_stmts(src: &str, i: usize, count: usize) -> (res: Vec<InnerStmt>)
    requires
        match fn_stmt_of(src@, i as nat) {
            Some(StmtShapeView::If { count: c, .. }) => c == count,
            Some(StmtShapeView::While { count: c, .. }) => c == count,
            _ => false,
        },
    ensures
        inner_views(res@) == Seq::new(count as nat, |j: int| fn_inner_stmt_of(src@, i as nat, j as nat)->0),
{
    let mut out: Vec<InnerStmt> = Vec::new();
    let mut j: usize = 0;
    while j < count
        invariant
            match fn_stmt_of(src@, i as nat) {
                Some(StmtShapeView::If { count: c, .. }) => c == count,
                Some(StmtShapeView::While { count: c, .. }) => c == count,
                _ => false,
            },
            j <= count,
            out@.len() == j,
            forall|k: int| 0 <= k < j ==> #[trigger] out@[k]@ == fn_inner_stmt_of(src@, i as nat, k as nat)->0,
        decreases count - j,
    {
        match fn_inner_stmt(src, i, j) {
            Some(s) => out.push(s),
            None => {
                proof { assert(false); }
            },
        }
        j = j + 1;
    }
    proof {
        assert(inner_views(out@) =~= Seq::new(count as nat, |j: int| fn_inner_stmt_of(src@, i as nat, j as nat)->0));
    }
    out
}

fn read_stmt(src: &str, i: usize, Ghost(n): Ghost<nat>) -> (res: TopStmt)
    requires
        fn_output_of(src@) matches Some(o) && o.2 == n,
        i < n,
    ensures
        res@ == stmt_at(src@, i as nat),
{
    let shape = fn_stmt(src, i);
    let text = fn_stmt_text(src, i);
    let attrs = fn_stmt_attrs(src, i);
    match (shape, text, attrs) {
        (Some(shape), Some((text, semi)), Some(attrs)) => {
            let (outer, inner) = split_attrs(attrs);
            match shape {
                StmtShape::If { cond, count, else_branch } => {
                    let body = read_inner_stmts(src, i, count);
                    TopStmt::If { attrs: outer, cond, body, else_branch, semi, text }
                },
                StmtShape::While { label, cond, count } => {
                    let body = read_inner_stmts(src, i, count);
                    TopStmt::While { attrs: outer, inner_attrs: inner, label, cond, body, semi, text }
                },
                StmtShape::Other => TopStmt::Other { text },
            }
        },
        _ => {
            proof { assert(false); }
            TopStmt::Other { text: String::new() }
        },
    }
}

/// Reads the function item in `src`.
pub fn read_fn(src: &str) -> (res: Result<FnItem, String>)
    ensures
        res matches Ok(f) ==> fn_of(src@) == Ok::<FnView, Seq<char>>(f@),
        res matches Err(e) ==> fn_of(src@) == Err::<FnView, Seq<char>>(e@),
{
    if let Some(e) = fn_error(src) {
        return Err(e);
    }
    match (fn_attrs(src), fn_head(src), fn_params(src), fn_output(src)) {
        (Some(a), Some(head), Some((params, params_open, variadic)), Some((output, where_clause, n))) => {
            let vis = head[0].clone();
            let prefix = assemble_prefix(&head);
            let (attrs, inner_attrs) = split_attrs(a);
            let mut stmts: Vec<TopStmt> = Vec::new();
            let mut i: usize = 0;
            while i < n
                invariant
                    fn_output_of(src@) matches Some(o) && o.2 == n,
                    i <= n,
                    stmts@.len() == i,
                    forall|k: int| 0 <= k < i ==> #[trigger] stmts@[k]@ == stmt_at(src@, k as nat),
                decreases n - i,
            {
                let st = read_stmt(src, i, Ghost(n as nat));
                stmts.push(st);
                i = i + 1;
            }
            proof {
                assert(top_views(stmts@) =~= Seq::new(n as nat, |i: int| stmt_at(src@, i as nat)));
            }
            let f = FnItem { attrs, inner_attrs, vis, prefix, params, params_open, variadic, output, where_clause, stmts };
            proof {
                assert(fn_of(src@) == Ok::<FnView, Seq<char>>(f@));
            }
            Ok(f)
        },
        _ => {
            proof { assert(false); }
            Err(String::new())
        },
    }
}


/// The identifiers of the path segments of the `syn::MetaList` that `text`
/// is, and the tokens between its delimiters; or the message of the error
/// when it is not one.
pub uninterp spec fn meta_list_of(text: Seq<char>) -> Result<(Seq<Seq<char>>, Seq<char>), Seq<char>>;

/// The identifiers of the comma separated list in `text` (a trailing comma
/// allowed), or `None` when `text` is not such a list.
pub uninterp spec fn ident_list_of(text: Seq<char>) -> Option<Seq<Seq<char>>>;

/// Parses `text` with `syn::parse_str::<syn::MetaList>`, with proc-macro2's
/// own implementation forced, and gives the `to_string` of the path
/// segments' identifiers and of the tokens, or the error's message.
/// Claimed: a function of `text`.
#[verifier::external_body]
pub(crate) fn meta_list(text: &str) -> (res: Result<(Vec<String>, String), String>)
    ensures
        res matches Ok(m) ==> meta_list_of(text@) is Ok && meta_list_of(text@)->Ok_0 == (views(m.0@), m.1@),
        res matches Err(e) ==> meta_list_of(text@) is Err && meta_list_of(text@)->Err_0 == e@,
{
    proc_macro2::fallback::force();
    let m = syn::parse_str::<syn::MetaList>(text).map_err(|e| e.to_string())?;
    Ok((m.path.segments.iter().map(|s| s.ident.to_string()).collect(), m.tokens.to_string()))
}

/// Parses `text` with `Punctuated::<syn::Ident, syn::token::Comma>::parse_terminated`
/// and gives the `to_string` of each identifier. Claimed: a function of `text`.
/// proc-macro2's own implementation is forced first (`proc_macro2::fallback::force`),
/// so lexing and printing are those of its own code in every process, not the compiler's.
#[verifier::external_body]
pub(crate) fn ident_list(text: &str) -> (res: Option<Vec<String>>)
    ensures
        res matches Some(l) ==> ident_list_of(text@) == Some(views(l@)),
        res is None ==> ident_list_of(text@) is None,
{
    proc_macro2::fallback::force();
    let parser = syn::punctuated::Punctuated::<syn::Ident, syn::token::Comma>::parse_terminated;
    syn::parse::Parser::parse_str(parser, text).ok().map(|p| p.iter().map(|i| i.to_string()).collect())
}

} // verus!
