//! The greeting derives: an inherent `hello_world` method for the type they
//! are put on.

use vstd::prelude::*;
use crate::error::{MacroError, MacroErrorView};
use crate::syntax::{read_struct, struct_of};
use crate::tokens::{Tok, TokView, lex, lexed_of};

verus! {

/// The impl that the `Hello` derive writes for the type `name`.
pub open spec fn hello_text(name: Seq<char>) -> Seq<char> {
    "impl "@ + name + " { fn hello_world(&self) { println!(\"Hello, World!\"); } }"@
}

/// What the `Hello` derive makes of `item`: the impl for the type's name, or
/// the parse error.
pub open spec fn hello_of(item: Seq<char>) -> Result<Seq<char>, MacroErrorView> {
    match struct_of(item) {
        Ok(s) => Ok(hello_text(s.name)),
        Err(e) => Err(MacroErrorView::Syntax(e)),
    }
}

/// The `Hello` derive: `hello_world` printing `Hello, World!` for the
/// struct, enum or union in `item`.
pub fn hello(item: &str) -> (res: Result<String, MacroError>)
    ensures
        res matches Ok(t) ==> hello_of(item@) == Ok::<Seq<char>, MacroErrorView>(t@),
        res matches Err(e) ==> hello_of(item@) == Err::<Seq<char>, MacroErrorView>(e@),
{
    match read_struct(item) {
        Ok(s) => {
            let mut out = String::from_str("impl ");
            out.append(s.name.as_str());
            out.append(" { fn hello_world(&self) { println!(\"Hello, World!\"); } }");
            Ok(out)
        },
        Err(e) => Err(MacroError::Syntax(e)),
    }
}

/// The impl that the dependency-free greeting derive writes for `name`,
/// character for character.
pub open spec fn hello_no_dep_text(name: Seq<char>) -> Seq<char> {
    "\n          impl "@ + name
        + " {\n            fn hello_world(&self) {\n              println!(\"Hello, World\")\n            }\n          } \n        "@
}

/// Whether the dependency-free greeting derive panics on `item`: its second
/// token is missing or not an identifier.
pub open spec fn hello_no_dep_panics(item: Seq<char>) -> bool {
    !(lexed_of(item) matches Some(t) && t.len() > 1 && t[1] is Ident)
}

/// The name that the dependency-free greeting derive takes: the second
/// token of `item`.
pub open spec fn second_ident(item: Seq<char>) -> Seq<char> {
    match lexed_of(item)->0[1] {
        TokView::Ident(n) => n,
        _ => Seq::empty(),
    }
}

/// The dependency-free greeting derive: takes the type's name from the
/// second token of `item` (the one after `struct` or `enum`).
pub fn hello_no_dep(item: &str) -> (res: String)
    requires
        !hello_no_dep_panics(item@),
    ensures
        res@ == hello_no_dep_text(second_ident(item@)),
{
    let toks = match lex(item) {
        Some(t) => t,
        None => {
            proof { assert(false); }
            return String::new();
        },
    };
    proof { assert(tok_views_at(toks@, 1) == lexed_of(item@)->0[1]); }
    let name = match &toks[1] {
        Tok::Ident(n) => n,
        _ => {
            proof { assert(false); }
            return String::new();
        },
    };
    let mut out = String::from_str("\n          impl ");
    out.append(name.as_str());
    out.append(" {\n            fn hello_world(&self) {\n              println!(\"Hello, World\")\n            }\n          } \n        ");
    out
}

spec fn tok_views_at(t: Seq<Tok>, i: int) -> TokView {
    t[i]@
}

/// The dependency-free greeting derive on any input: `None` where it panics.
pub fn try_hello_no_dep(item: &str) -> (res: Option<String>)
    ensures
        res is None <==> hello_no_dep_panics(item@),
        res matches Some(t) ==> t@ == hello_no_dep_text(second_ident(item@)),
{
    match lex(item) {
        None => None,
        Some(toks) => {
            if toks.len() < 2 {
                return None;
            }
            proof { assert(tok_views_at(toks@, 1) == lexed_of(item@)->0[1]); }
            match &toks[1] {
                Tok::Ident(_) => Some(hello_no_dep(item)),
                _ => None,
            }
        },
    }
}

} // verus!
