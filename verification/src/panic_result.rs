//! The panic-to-result rewriting: a function that panics becomes one that
//! returns `Result<_, String>`, its `panic!`s with a message turning into
//! `return Err(..)`.

use vstd::prelude::*;
use crate::error::{Diagnostic, DiagnosticView, MacroError, MacroErrorView, diagnostic_views};
use crate::item::{FnItem, FnView, InnerStmt, InnerStmtView, TopStmt, TopStmtView, inner_views, top_views, stmt_text};
use crate::syntax::{expression_parses, fn_of, parses_as_expression, parses_as_statement, read_fn, statement_parses};
use crate::text::{contains_word, group_occurs, lemma_occurs_left, lemma_occurs_right, lemma_occurs_terminated, lemma_occurs_trans, same_text, occurs_in, push_terminated, terminated, views};

verus! {

/// Whether one of a macro path's segments is `panic`.
pub open spec fn names_panic(segments: Seq<Seq<char>>) -> bool {
    exists|k: int| 0 <= k < segments.len() && #[trigger] segments[k] == "panic"@
}

/// A statement of an `if` block or `while` body after the rewriting: a
/// `panic!` with a message becomes `return Err(<message>.to_string());`,
/// everything else stays as it was.
pub open spec fn handled_inner(s: InnerStmtView) -> Seq<char> {
    match s {
        InnerStmtView::Macro { segments, tokens, text } =>
            if names_panic(segments) && tokens.len() > 0 {
                err_return(tokens)
            } else {
                text
            },
        InnerStmtView::Other { text } => text,
    }
}

/// The diagnostics of one such statement: a `panic!` without a message.
pub open spec fn inner_diagnostics(s: InnerStmtView) -> Seq<DiagnosticView> {
    match s {
        InnerStmtView::Macro { segments, tokens, .. } =>
            if names_panic(segments) && tokens.len() == 0 { seq![DiagnosticView::EmptyPanic] } else { Seq::empty() },
        InnerStmtView::Other { .. } => Seq::empty(),
    }
}

/// A block's statements after the rewriting.
pub open spec fn handled_block(b: Seq<InnerStmtView>) -> Seq<char> {
    terminated(b.map_values(|s: InnerStmtView| handled_inner(s)), " "@)
}

/// The diagnostics of a block's statements, in order.
pub open spec fn block_diagnostics(b: Seq<InnerStmtView>) -> Seq<DiagnosticView>
    decreases b.len(),
{
    if b.len() == 0 {
        Seq::empty()
    } else {
        block_diagnostics(b.drop_last()) + inner_diagnostics(b.last())
    }
}

pub open spec fn semi_text(semi: bool) -> Seq<char> {
    if semi { ";"@ } else { Seq::empty() }
}

pub open spec fn else_text(e: Option<Seq<char>>) -> Seq<char> {
    match e {
        Some(e) => " else "@ + e,
        None => Seq::empty(),
    }
}

/// A statement of the function's body after the rewriting: the first block
/// of an `if` and the body of a `while` have their statements handled;
/// every other statement stays as it was.
pub open spec fn handled_stmt(s: TopStmtView) -> Seq<char> {
    match s {
        TopStmtView::If { attrs, cond, body, else_branch, semi, .. } =>
            terminated(attrs, " "@) + "if "@ + cond + " { "@ + handled_block(body) + "}"@
                + else_text(else_branch) + semi_text(semi),
        TopStmtView::While { attrs, inner_attrs, label, cond, body, semi, .. } =>
            terminated(attrs, " "@) + label + " while "@ + cond + " { "@ + terminated(inner_attrs, " "@)
                + handled_block(body) + "}"@ + semi_text(semi),
        TopStmtView::Other { text } => text,
    }
}

/// The diagnostics of a statement of the function's body.
pub open spec fn stmt_diagnostics(s: TopStmtView) -> Seq<DiagnosticView> {
    match s {
        TopStmtView::If { body, .. } => block_diagnostics(body),
        TopStmtView::While { body, .. } => block_diagnostics(body),
        TopStmtView::Other { .. } => Seq::empty(),
    }
}

pub open spec fn stmts_diagnostics(s: Seq<TopStmtView>) -> Seq<DiagnosticView>
    decreases s.len(),
{
    if s.len() == 0 {
        Seq::empty()
    } else {
        stmts_diagnostics(s.drop_last()) + stmt_diagnostics(s.last())
    }
}

/// The diagnostic of a return type that already mentions `Result`.
pub open spec fn output_diagnostics(output: Option<Seq<char>>) -> Seq<DiagnosticView> {
    match output {
        Some(ty) => if occurs_in("Result"@, ty) {
            seq![DiagnosticView::ResultSignature { signature: ty }]
        } else {
            Seq::empty()
        },
        None => Seq::empty(),
    }
}

/// The return type after the rewriting.
pub open spec fn result_output(output: Option<Seq<char>>) -> Seq<char> {
    match output {
        None => "Result<(), String>"@,
        Some(ty) => "Result<"@ + ty + ", String>"@,
    }
}

/// The wrapping of the last statement: `Ok(<last statement>)`.
pub open spec fn ok_wrapped(s: TopStmtView) -> Seq<char> {
    "Ok("@ + stmt_text(s) + ")"@
}

/// The body after the rewriting: every statement but the last handled, the
/// last wrapped in `Ok(..)`.
pub open spec fn rewritten_body(stmts: Seq<TopStmtView>) -> Seq<char> {
    terminated(stmts.drop_last().map_values(|s: TopStmtView| handled_stmt(s)), " "@) + ok_wrapped(stmts.last())
}

/// The parameters between the parentheses of the signature.
pub open spec fn params_text(f: FnView) -> Seq<char> {
    f.params + match f.variadic {
        Some(v) => (if f.params_open { ", "@ } else { Seq::empty() }) + v,
        None => Seq::empty(),
    }
}

/// The function after the rewriting.
pub open spec fn rewritten_text(f: FnView) -> Seq<char> {
    terminated(f.attrs, " "@) + f.vis + " "@ + f.prefix + " ("@ + params_text(f) + ") -> "@
        + result_output(f.output) + " "@ + f.where_clause + " { "@ + terminated(f.inner_attrs, " "@)
        + rewritten_body(f.stmts) + " }"@
}

/// The diagnostics of the rewriting, in the order they are emitted: the
/// return type's first, then those of the statements.
pub open spec fn rewrite_diagnostics(f: FnView) -> Seq<DiagnosticView> {
    output_diagnostics(f.output) + stmts_diagnostics(f.stmts.drop_last())
}

/// The outcome of the rewriting: the new function when nothing was
/// diagnosed, the diagnostics otherwise.
pub open spec fn rewritten(f: FnView) -> Result<Seq<char>, Seq<DiagnosticView>> {
    let d = rewrite_diagnostics(f);
    if d.len() > 0 {
        Err(d)
    } else {
        Ok(rewritten_text(f))
    }
}

/// Whether one of the segments is `panic`.
fn segments_name_panic(segments: &Vec<String>) -> (res: bool)
    ensures
        res == names_panic(views(segments@)),
{
    let mut is_panic = false;
    let mut k: usize = 0;
    while k < segments.len()
        invariant
            k <= segments.len(),
            is_panic == exists|q: int| 0 <= q < k && #[trigger] views(segments@)[q] == "panic"@,
        decreases segments.len() - k,
    {
        proof { reveal_strlit("panic"); }
        let hit = same_text(segments[k].as_str(), "panic");
        if hit {
            is_panic = true;
        }
        proof {
            if hit {
                assert(views(segments@)[k as int] == "panic"@);
            }
        }
        k = k + 1;
    }
    is_panic
}

/// The statement that a `panic!` with the message `tokens` becomes.
pub open spec fn err_return(tokens: Seq<char>) -> Seq<char> {
    "return Err("@ + tokens + " .to_string());"@
}

/// Whether a statement is a `panic!` with a message whose rewriting does not
/// parse as a statement (where the rewriting panics).
pub open spec fn breaks_inner(s: InnerStmtView) -> bool {
    s matches InnerStmtView::Macro { segments, tokens, .. } && names_panic(segments) && tokens.len() > 0
        && !statement_parses(err_return(tokens))
}

/// Whether the block of an `if` or the body of a `while` holds such a statement.
pub open spec fn breaks_stmt(s: TopStmtView) -> bool {
    match s {
        TopStmtView::If { body, .. } => exists|j: int| 0 <= j < body.len() && breaks_inner(#[trigger] body[j]),
        TopStmtView::While { body, .. } => exists|j: int| 0 <= j < body.len() && breaks_inner(#[trigger] body[j]),
        TopStmtView::Other { .. } => false,
    }
}

fn inner_breaks(s: &InnerStmt) -> (res: bool)
    ensures
        res == breaks_inner(s@),
{
    match s {
        InnerStmt::Macro { segments, tokens, .. } => {
            if !segments_name_panic(segments) || tokens.unicode_len() == 0 {
                return false;
            }
            let mut t = String::from_str("return Err(");
            t.append(tokens.as_str());
            t.append(" .to_string());");
            !parses_as_statement(t.as_str())
        },
        InnerStmt::Other { .. } => false,
    }
}

fn block_breaks(body: &Vec<InnerStmt>) -> (res: bool)
    ensures
        res == exists|j: int| 0 <= j < body@.len() && breaks_inner(#[trigger] inner_views(body@)[j]),
{
    let mut k: usize = 0;
    while k < body.len()
        invariant
            k <= body.len(),
            forall|q: int| 0 <= q < k ==> !breaks_inner(#[trigger] inner_views(body@)[q]),
        decreases body.len() - k,
    {
        proof { assert(inner_views(body@)[k as int] == body@[k as int]@); }
        if inner_breaks(&body[k]) {
            return true;
        }
        k = k + 1;
    }
    false
}

fn stmt_breaks(s: &TopStmt) -> (res: bool)
    ensures
        res == breaks_stmt(s@),
{
    match s {
        TopStmt::If { body, .. } => block_breaks(body),
        TopStmt::While { body, .. } => block_breaks(body),
        TopStmt::Other { .. } => false,
    }
}

fn handle_inner(s: &InnerStmt, out: &mut String, diags: &mut Vec<Diagnostic>)
    ensures
        final(out)@ == old(out)@ + handled_inner(s@) + " "@,
        diagnostic_views(final(diags)@) == diagnostic_views(old(diags)@) + inner_diagnostics(s@),
{
    let ghost d0 = diags@;
    match s {
        InnerStmt::Macro { segments, tokens, text } => {
            let is_panic = segments_name_panic(segments);
            if is_panic && tokens.unicode_len() > 0 {
                out.append("return Err(");
                out.append(tokens.as_str());
                out.append(" .to_string());");
            } else {
                if is_panic {
                    diags.push(Diagnostic::EmptyPanic);
                    proof { assert(diagnostic_views(diags@) =~= diagnostic_views(d0).push(DiagnosticView::EmptyPanic)); }
                }
                out.append(text.as_str());
            }
        },
        InnerStmt::Other { text } => {
            out.append(text.as_str());
        },
    }
    out.append(" ");
    proof {
        assert(diagnostic_views(diags@) =~= diagnostic_views(d0) + inner_diagnostics(s@));
    }
}

fn handle_block(body: &Vec<InnerStmt>, out: &mut String, diags: &mut Vec<Diagnostic>)
    ensures
        final(out)@ == old(out)@ + handled_block(inner_views(body@)),
        diagnostic_views(final(diags)@) == diagnostic_views(old(diags)@) + block_diagnostics(inner_views(body@)),
{
    let ghost o0 = out@;
    let ghost d0 = diagnostic_views(diags@);
    let n = body.len();
    let mut i: usize = 0;
    while i < n
        invariant
            n == body.len(),
            i <= n,
            out@ == o0 + handled_block(inner_views(body@).take(i as int)),
            diagnostic_views(diags@) == d0 + block_diagnostics(inner_views(body@).take(i as int)),
        decreases n - i,
    {
        proof {
            let b = inner_views(body@);
            assert(b.take(i + 1).drop_last() =~= b.take(i as int));
            assert(b.take(i + 1).map_values(|s: InnerStmtView| handled_inner(s)).drop_last()
                =~= b.take(i as int).map_values(|s: InnerStmtView| handled_inner(s)));
        }
        handle_inner(&body[i], out, diags);
        proof {
            let b = inner_views(body@);
            assert(b.take(i + 1).last() == body@[i as int]@);
            assert(d0 + block_diagnostics(b.take(i as int)) + inner_diagnostics(body@[i as int]@)
                =~= d0 + (block_diagnostics(b.take(i as int)) + inner_diagnostics(body@[i as int]@)));
        }
        i = i + 1;
    }
    proof {
        assert(inner_views(body@).take(n as int) =~= inner_views(body@));
    }
}

#[verifier::rlimit(40)]
fn handle_stmt(s: &TopStmt, out: &mut String, diags: &mut Vec<Diagnostic>)
    ensures
        final(out)@ == old(out)@ + handled_stmt(s@) + " "@,
        diagnostic_views(final(diags)@) == diagnostic_views(old(diags)@) + stmt_diagnostics(s@),
{
    let ghost o0 = out@;
    match s {
        TopStmt::If { attrs, cond, body, else_branch, semi, .. } => {
            push_terminated(out, attrs, " ");
            out.append("if ");
            out.append(cond.as_str());
            out.append(" { ");
            handle_block(body, out, diags);
            out.append("}");
            match else_branch {
                Some(e) => {
                    out.append(" else ");
                    out.append(e.as_str());
                },
                None => {},
            }
            if *semi {
                out.append(";");
            }
        },
        TopStmt::While { attrs, inner_attrs, label, cond, body, semi, .. } => {
            push_terminated(out, attrs, " ");
            out.append(label.as_str());
            out.append(" while ");
            out.append(cond.as_str());
            out.append(" { ");
            push_terminated(out, inner_attrs, " ");
            handle_block(body, out, diags);
            out.append("}");
            if *semi {
                out.append(";");
            }
        },
        TopStmt::Other { text } => {
            out.append(text.as_str());
            proof { assert(diagnostic_views(diags@) =~= diagnostic_views(old(diags)@) + stmt_diagnostics(s@)); }
        },
    }
    out.append(" ");
    proof {
        assert(out@ =~= o0 + handled_stmt(s@) + " "@);
    }
}

fn last_stmt_text(s: &TopStmt) -> (res: &String)
    ensures
        res@ == stmt_text(s@),
{
    match s {
        TopStmt::If { text, .. } => text,
        TopStmt::While { text, .. } => text,
        TopStmt::Other { text } => text,
    }
}

/// The `Ok(..)` wrapping of a statement.
pub fn ok_wrap(s: &TopStmt) -> (res: String)
    ensures
        res@ == ok_wrapped(s@),
{
    let mut out = String::from_str("Ok(");
    out.append(last_stmt_text(s).as_str());
    out.append(")");
    out
}

/// Rewrites a function so that it returns a `Result`: its return type `T`
/// becomes `Result<T, String>` (`Result<(), String>` when it has none), its
/// last statement is wrapped in `Ok(..)`, and every `panic!(<message>)`
/// statement directly inside the first block of an `if` or the body of a
/// `while` becomes `return Err(<message>.to_string());`. A return type that
/// already mentions `Result`, and every `panic!` without a message, are
/// reported instead, and then no code is produced.
#[verifier::rlimit(40)]
pub fn rewrite(f: &FnItem) -> (res: Result<String, Vec<Diagnostic>>)
    requires
        f.stmts.len() > 0,
    ensures
        res matches Ok(t) ==> rewritten(f@) == Ok::<Seq<char>, Seq<DiagnosticView>>(t@),
        res matches Err(d) ==> rewritten(f@) == Err::<Seq<char>, Seq<DiagnosticView>>(diagnostic_views(d@)),
{
    let mut diags: Vec<Diagnostic> = Vec::new();
    let mut out = String::new();
    push_terminated(&mut out, &f.attrs, " ");
    out.append(f.vis.as_str());
    out.append(" ");
    out.append(f.prefix.as_str());
    out.append(" (");
    out.append(f.params.as_str());
    match &f.variadic {
        Some(v) => {
            if f.params_open {
                out.append(", ");
            }
            out.append(v.as_str());
        },
        None => {},
    }
    out.append(") -> ");
    match &f.output {
        None => {
            out.append("Result<(), String>");
        },
        Some(ty) => {
            proof { reveal_strlit("Result"); }
            if contains_word(ty.as_str(), "Result") {
                diags.push(Diagnostic::ResultSignature { signature: ty.clone() });
            }
            out.append("Result<");
            out.append(ty.as_str());
            out.append(", String>");
        },
    }
    proof {
        assert(diagnostic_views(diags@) =~= output_diagnostics(f@.output));
    }
    out.append(" ");
    out.append(f.where_clause.as_str());
    out.append(" { ");
    push_terminated(&mut out, &f.inner_attrs, " ");
    let ghost head = out@;
    let n = f.stmts.len();
    let mut i: usize = 0;
    while i < n - 1
        invariant
            n == f.stmts.len(),
            n > 0,
            i <= n - 1,
            out@ == head + terminated(top_views(f.stmts@).take(i as int).map_values(|s: TopStmtView| handled_stmt(s)), " "@),
            diagnostic_views(diags@) == output_diagnostics(f@.output) + stmts_diagnostics(top_views(f.stmts@).take(i as int)),
        decreases n - 1 - i,
    {
        proof {
            let t = top_views(f.stmts@);
            assert(t.take(i + 1).drop_last() =~= t.take(i as int));
            assert(t.take(i + 1).map_values(|s: TopStmtView| handled_stmt(s)).drop_last()
                =~= t.take(i as int).map_values(|s: TopStmtView| handled_stmt(s)));
        }
        handle_stmt(&f.stmts[i], &mut out, &mut diags);
        proof {
            let t = top_views(f.stmts@);
            assert(t.take(i + 1).last() == f.stmts@[i as int]@);
            assert(output_diagnostics(f@.output) + stmts_diagnostics(t.take(i as int)) + stmt_diagnostics(f.stmts@[i as int]@)
                =~= output_diagnostics(f@.output) + (stmts_diagnostics(t.take(i as int)) + stmt_diagnostics(f.stmts@[i as int]@)));
        }
        i = i + 1;
    }
    let wrapped = ok_wrap(&f.stmts[n - 1]);
    out.append(wrapped.as_str());
    out.append(" }");
    proof {
        let t = top_views(f.stmts@);
        assert(t.take((n - 1) as int) =~= t.drop_last());
        assert(t.last() == f.stmts@[n - 1]@);
    }
    if diags.len() > 0 {
        Err(diags)
    } else {
        proof {
            assert(out@ =~= rewritten_text(f@));
        }
        Ok(out)
    }
}

/// Whether the rewriting panics on `src`: the function parses, but its body
/// is empty, or its last statement does not make an expression once wrapped
/// in `Ok(..)`, or a statement before it holds a `panic!` whose rewriting
/// does not parse.
pub open spec fn panics_on(src: Seq<char>) -> bool {
    fn_of(src) matches Ok(f) && (f.stmts.len() == 0 || !expression_parses(ok_wrapped(f.stmts.last()))
        || exists|i: int| 0 <= i < f.stmts.len() - 1 && breaks_stmt(#[trigger] f.stmts[i]))
}

/// What the rewriting makes of `src`: the new function, or the parse error,
/// or the diagnostics.
pub open spec fn panic_to_result_of(src: Seq<char>) -> Result<Seq<char>, MacroErrorView> {
    match fn_of(src) {
        Err(e) => Err(MacroErrorView::Syntax(e)),
        Ok(f) => match rewritten(f) {
            Ok(t) => Ok(t),
            Err(d) => Err(MacroErrorView::Diagnostics(d)),
        },
    }
}

/// The attribute macro: parses the function in `item` and rewrites it.
pub fn panic_to_result(item: &str) -> (res: Result<String, MacroError>)
    requires
        !panics_on(item@),
    ensures
        res matches Ok(t) ==> panic_to_result_of(item@) == Ok::<Seq<char>, MacroErrorView>(t@),
        res matches Err(e) ==> panic_to_result_of(item@) == Err::<Seq<char>, MacroErrorView>(e@),
{
    match read_fn(item) {
        Err(e) => Err(MacroError::Syntax(e)),
        Ok(f) => match rewrite(&f) {
            Ok(t) => Ok(t),
            Err(d) => Err(MacroError::Diagnostics(d)),
        },
    }
}

/// The attribute macro, on any input: `None` where the rewriting panics
/// (as `panics_on` says), what `panic_to_result` gives otherwise.
pub fn try_panic_to_result(item: &str) -> (res: Option<Result<String, MacroError>>)
    ensures
        res is None <==> panics_on(item@),
        res matches Some(Ok(t)) ==> panic_to_result_of(item@) == Ok::<Seq<char>, MacroErrorView>(t@),
        res matches Some(Err(e)) ==> panic_to_result_of(item@) == Err::<Seq<char>, MacroErrorView>(e@),
{
    match read_fn(item) {
        Err(e) => Some(Err(MacroError::Syntax(e))),
        Ok(f) => {
            let n = f.stmts.len();
            if n == 0 {
                return None;
            }
            let wrapped = ok_wrap(&f.stmts[n - 1]);
            if !parses_as_expression(wrapped.as_str()) {
                return None;
            }
            let mut i: usize = 0;
            while i < n - 1
                invariant
                    n == f.stmts.len(),
                    n > 0,
                    i <= n - 1,
                    forall|q: int| 0 <= q < i ==> !breaks_stmt(#[trigger] top_views(f.stmts@)[q]),
                    fn_of(item@) == Ok::<FnView, Seq<char>>(f@),
                decreases n - 1 - i,
            {
                proof { assert(top_views(f.stmts@)[i as int] == f.stmts@[i as int]@); }
                if stmt_breaks(&f.stmts[i]) {
                    proof {
                        let fv = fn_of(item@)->Ok_0;
                        assert(fv.stmts[i as int] == top_views(f.stmts@)[i as int]);
                        assert(breaks_stmt(fv.stmts[i as int]));
                    }
                    return None;
                }
                i = i + 1;
            }
            proof {
                let fv = fn_of(item@)->Ok_0;
                assert(fv.stmts == top_views(f.stmts@));
                assert forall|q: int| 0 <= q < fv.stmts.len() - 1 implies !breaks_stmt(#[trigger] fv.stmts[q]) by {
                    assert(fv.stmts[q] == top_views(f.stmts@)[q]);
                }
            }
            Some(panic_to_result(item))
        },
    }
}

/// Whether a statement is a `panic!` without a message.
pub open spec fn is_empty_panic(s: InnerStmtView) -> bool {
    s matches InnerStmtView::Macro { segments, tokens, .. } && names_panic(segments) && tokens.len() == 0
}

/// Whether an `if` block or `while` body of a statement holds a `panic!`
/// without a message.
pub open spec fn has_empty_panic(s: TopStmtView) -> bool {
    match s {
        TopStmtView::If { body, .. } => exists|j: int| 0 <= j < body.len() && is_empty_panic(#[trigger] body[j]),
        TopStmtView::While { body, .. } => exists|j: int| 0 <= j < body.len() && is_empty_panic(#[trigger] body[j]),
        TopStmtView::Other { .. } => false,
    }
}

proof fn lemma_block_diagnostics(b: Seq<InnerStmtView>)
    ensures
        (block_diagnostics(b).len() == 0) <==> (forall|j: int| 0 <= j < b.len() ==> !is_empty_panic(#[trigger] b[j])),
    decreases b.len(),
{
    if b.len() > 0 {
        lemma_block_diagnostics(b.drop_last());
        if forall|j: int| 0 <= j < b.len() ==> !is_empty_panic(#[trigger] b[j]) {
            assert forall|j: int| 0 <= j < b.drop_last().len() implies !is_empty_panic(#[trigger] b.drop_last()[j]) by {
                assert(b.drop_last()[j] == b[j]);
            }
        } else {
            let j0 = choose|j: int| 0 <= j < b.len() && is_empty_panic(#[trigger] b[j]);
            if j0 < b.len() - 1 {
                assert(b.drop_last()[j0] == b[j0]);
            }
        }
    }
}

proof fn lemma_stmts_diagnostics(s: Seq<TopStmtView>)
    ensures
        (stmts_diagnostics(s).len() == 0) <==> (forall|i: int| 0 <= i < s.len() ==> !has_empty_panic(#[trigger] s[i])),
    decreases s.len(),
{
    if s.len() > 0 {
        lemma_stmts_diagnostics(s.drop_last());
        match s.last() {
            TopStmtView::If { body, .. } => lemma_block_diagnostics(body),
            TopStmtView::While { body, .. } => lemma_block_diagnostics(body),
            TopStmtView::Other { .. } => {},
        }
        if forall|i: int| 0 <= i < s.len() ==> !has_empty_panic(#[trigger] s[i]) {
            assert forall|i: int| 0 <= i < s.drop_last().len() implies !has_empty_panic(#[trigger] s.drop_last()[i]) by {
                assert(s.drop_last()[i] == s[i]);
            }
            assert(!has_empty_panic(s[s.len() - 1]));
        } else {
            let i0 = choose|i: int| 0 <= i < s.len() && has_empty_panic(#[trigger] s[i]);
            if i0 < s.len() - 1 {
                assert(s.drop_last()[i0] == s[i0]);
            }
        }
    }
}

/// The rewriting produces code exactly when the return type does not
/// mention `Result` and no statement but the last holds, directly in the
/// block of an `if` or the body of a `while`, a `panic!` without a message.
pub proof fn law_rewrite_accepts(f: FnView)
    requires
        f.stmts.len() > 0,
    ensures
        rewritten(f) is Ok <==> (
            !(f.output matches Some(ty) && occurs_in("Result"@, ty))
            && forall|i: int| 0 <= i < f.stmts.len() - 1 ==> !has_empty_panic(#[trigger] f.stmts[i])),
{
    lemma_stmts_diagnostics(f.stmts.drop_last());
    if forall|i: int| 0 <= i < f.stmts.len() - 1 ==> !has_empty_panic(#[trigger] f.stmts[i]) {
        assert forall|i: int| 0 <= i < f.stmts.drop_last().len() implies !has_empty_panic(#[trigger] f.stmts.drop_last()[i]) by {
            assert(f.stmts.drop_last()[i] == f.stmts[i]);
        }
    } else {
        let i0 = choose|i: int| 0 <= i < f.stmts.len() - 1 && has_empty_panic(#[trigger] f.stmts[i]);
        assert(f.stmts.drop_last()[i0] == f.stmts[i0]);
    }
}

/// A function whose return type already mentions `Result` is refused, and
/// the first diagnostic names that return type.
pub proof fn law_result_signature_refused(f: FnView, ty: Seq<char>)
    requires
        f.stmts.len() > 0,
        f.output == Some(ty),
        occurs_in("Result"@, ty),
    ensures
        rewritten(f) matches Err(d) && d.len() > 0 && d[0] == (DiagnosticView::ResultSignature { signature: ty }),
{
}

/// The rewritten function ends with its last statement wrapped in
/// `Ok(..)`, closing the body.
pub proof fn law_ends_with_ok(f: FnView)
    requires
        f.stmts.len() > 0,
    ensures
        ({
            let t = rewritten_text(f);
            let tail = ok_wrapped(f.stmts.last()) + " }"@;
            t.len() >= tail.len() && t.subrange(t.len() - tail.len(), t.len() as int) == tail
        }),
{
    let t = rewritten_text(f);
    let tail = ok_wrapped(f.stmts.last()) + " }"@;
    let head = terminated(f.attrs, " "@) + f.vis + " "@ + f.prefix + " ("@ + params_text(f) + ") -> "@
        + result_output(f.output) + " "@ + f.where_clause + " { "@ + terminated(f.inner_attrs, " "@)
        + terminated(f.stmts.drop_last().map_values(|s: TopStmtView| handled_stmt(s)), " "@);
    assert(t =~= head + tail);
    assert((head + tail).subrange(head.len() as int, (head + tail).len() as int) =~= tail);
}

/// The block of an `if` or the body of a `while` (nothing for any other
/// statement).
pub open spec fn block_of(s: TopStmtView) -> Seq<InnerStmtView> {
    match s {
        TopStmtView::If { body, .. } => body,
        TopStmtView::While { body, .. } => body,
        TopStmtView::Other { .. } => Seq::empty(),
    }
}

/// Every `panic!` with a message that stands directly in the block of an
/// `if`, or the body of a `while`, among the statements before the last,
/// becomes `return Err(<message> .to_string());` in the rewritten function.
pub proof fn law_panics_become_err_returns(f: FnView, i: int, j: int, tokens: Seq<char>)
    requires
        0 <= i < f.stmts.len() - 1,
        0 <= j < block_of(f.stmts[i]).len(),
        block_of(f.stmts[i])[j] matches InnerStmtView::Macro { segments, tokens: t, .. }
            && names_panic(segments) && t == tokens,
        tokens.len() > 0,
    ensures
        occurs_in("return Err("@ + tokens + " .to_string());"@, rewritten_text(f)),
{
    broadcast use group_occurs;
    let s = f.stmts[i];
    let body = block_of(s);
    let w = "return Err("@ + tokens + " .to_string());"@;
    let inner = body.map_values(|x: InnerStmtView| handled_inner(x));
    assert(inner[j] == w);
    lemma_occurs_terminated(inner, " "@, j);
    assert(handled_block(body) == terminated(inner, " "@));
    match s {
        TopStmtView::If { attrs, cond, else_branch, semi, .. } => {
            assert(handled_stmt(s) == terminated(attrs, " "@) + "if "@ + cond + " { "@ + handled_block(body) + "}"@
                + else_text(else_branch) + semi_text(semi));
        },
        TopStmtView::While { attrs, inner_attrs, label, cond, semi, .. } => {
            assert(handled_stmt(s) == terminated(attrs, " "@) + label + " while "@ + cond + " { "@
                + terminated(inner_attrs, " "@) + handled_block(body) + "}"@ + semi_text(semi));
        },
        TopStmtView::Other { .. } => {},
    }
    assert(occurs_in(w, handled_stmt(s)));
    let hs = f.stmts.drop_last().map_values(|x: TopStmtView| handled_stmt(x));
    assert(hs[i] == handled_stmt(s));
    lemma_occurs_terminated(hs, " "@, i);
    lemma_occurs_trans(w, handled_stmt(s), terminated(hs, " "@));
    assert(rewritten_body(f.stmts) == terminated(hs, " "@) + ok_wrapped(f.stmts.last()));
    lemma_occurs_left(w, terminated(hs, " "@), ok_wrapped(f.stmts.last()));
    let head = terminated(f.attrs, " "@) + f.vis + " "@ + f.prefix + " ("@ + params_text(f) + ") -> "@
        + result_output(f.output) + " "@ + f.where_clause + " { "@ + terminated(f.inner_attrs, " "@);
    assert(rewritten_text(f) == head + rewritten_body(f.stmts) + " }"@);
    lemma_occurs_right(w, head, rewritten_body(f.stmts));
    lemma_occurs_left(w, head + rewritten_body(f.stmts), " }"@);
}

} // verus!
