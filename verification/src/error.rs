//! What a macro reports instead of code.

use vstd::prelude::*;
use crate::text::terminated;
use crate::tokens::{error_invocation, error_invocation_of, string_literal_of};

verus! {

/// A diagnostic that the panic-to-result rewriting emits.
pub enum Diagnostic {
    /// The function already returns a type whose tokens mention `Result`;
    /// `signature` holds those tokens.
    ResultSignature { signature: String },
    /// A `panic!` without a message.
    EmptyPanic,
}

pub enum DiagnosticView {
    ResultSignature { signature: Seq<char> },
    EmptyPanic,
}

impl View for Diagnostic {
    type V = DiagnosticView;

    open spec fn view(&self) -> DiagnosticView {
        match self {
            Diagnostic::ResultSignature { signature } => DiagnosticView::ResultSignature { signature: signature@ },
            Diagnostic::EmptyPanic => DiagnosticView::EmptyPanic,
        }
    }
}

pub open spec fn diagnostic_views(d: Seq<Diagnostic>) -> Seq<DiagnosticView> {
    d.map_values(|x: Diagnostic| x@)
}

/// The message of a diagnostic.
pub open spec fn diagnostic_message(d: DiagnosticView) -> Seq<char> {
    match d {
        DiagnosticView::ResultSignature { signature } =>
            "this macro can only be applied to a function that does not yet return a Result. Signature: "@ + signature,
        DiagnosticView::EmptyPanic => "panic needs a message!"@,
    }
}

/// The help line of a diagnostic, if it has one.
pub open spec fn diagnostic_help(d: DiagnosticView) -> Option<Seq<char>> {
    match d {
        DiagnosticView::ResultSignature { .. } => None,
        DiagnosticView::EmptyPanic => Some("try to add a message"@),
    }
}

/// The note of a diagnostic, if it has one.
pub open spec fn diagnostic_note(d: DiagnosticView) -> Option<Seq<char>> {
    match d {
        DiagnosticView::ResultSignature { .. } => None,
        DiagnosticView::EmptyPanic => Some("we will add the message to Result's Err"@),
    }
}

/// `s` ended by a line feed: `s` itself when it already ends with one.
pub open spec fn ended_line(s: Seq<char>) -> Seq<char> {
    if s.len() > 0 && s.last() == '\n' { s } else { s.push('\n') }
}

/// The text of an error with a help and a note: the message, a blank line,
/// `  = help: <help>` and `  = note: <note>` as lines of their own, and a
/// blank line.
pub open spec fn suggested_text(message: Seq<char>, help: Seq<char>, note: Seq<char>) -> Seq<char> {
    ended_line(message) + "\n"@ + "  = help: "@ + ended_line(help) + "  = note: "@ + ended_line(note) + "\n"@
}

/// The whole text with which a diagnostic is reported: its message, and its
/// help and note when it has them.
pub open spec fn diagnostic_text(d: DiagnosticView) -> Seq<char> {
    match d {
        DiagnosticView::EmptyPanic => suggested_text(diagnostic_message(d), diagnostic_help(d)->0, diagnostic_note(d)->0),
        _ => diagnostic_message(d),
    }
}

/// The tokens of the `compile_error!` invocation that reports a diagnostic
/// with the text `text`, as proc-macro2's own implementation prints them.
pub open spec fn diagnostic_invocation_of(text: Seq<char>) -> Seq<char> {
    "compile_error ! { "@ + string_literal_of(text) + " }"@
}

/// Makes `proc_macro_error::Diagnostic::new(Level::Error, message)` and
/// prints its tokens (`ToTokens`). Claimed: the `compile_error!` invocation
/// whose string literal holds `message`, printed as the source shows.
/// proc-macro2's own implementation is forced first (`proc_macro2::fallback::force`),
/// so lexing and printing are those of its own code in every process, not the compiler's.
#[verifier::external_body]
fn plain_error_tokens(message: &str) -> (res: String)
    ensures
        res@ == diagnostic_invocation_of(message@),
{
    proc_macro2::fallback::force();
    let d = proc_macro_error::Diagnostic::new(proc_macro_error::Level::Error, message.to_string());
    quote::ToTokens::to_token_stream(&d).to_string()
}

/// Makes `proc_macro_error::Diagnostic::new(Level::Error, message)` with
/// `.help(help)` and `.note(note)`, and prints its tokens (`ToTokens`).
/// Claimed: the `compile_error!` invocation whose string literal is the
/// message, a blank line, the help and note lines and a blank line, each
/// line ended once, as the source's stable rendering writes it.
/// proc-macro2's own implementation is forced first (`proc_macro2::fallback::force`),
/// so lexing and printing are those of its own code in every process, not the compiler's.
#[verifier::external_body]
fn suggested_error_tokens(message: &str, help: &str, note: &str) -> (res: String)
    ensures
        res@ == diagnostic_invocation_of(suggested_text(message@, help@, note@)),
{
    proc_macro2::fallback::force();
    let d = proc_macro_error::Diagnostic::new(proc_macro_error::Level::Error, message.to_string())
        .help(help.to_string())
        .note(note.to_string());
    quote::ToTokens::to_token_stream(&d).to_string()
}

impl Diagnostic {
    /// The message of this diagnostic.
    pub fn message(&self) -> (res: String)
        ensures
            res@ == diagnostic_message(self@),
    {
        match self {
            Diagnostic::ResultSignature { signature } => {
                let mut m = String::from_str(
                    "this macro can only be applied to a function that does not yet return a Result. Signature: ",
                );
                m.append(signature.as_str());
                m
            },
            Diagnostic::EmptyPanic => String::from_str("panic needs a message!"),
        }
    }

    /// The help line of this diagnostic.
    pub fn help(&self) -> (res: Option<String>)
        ensures
            res matches Some(h) ==> diagnostic_help(self@) == Some(h@),
            res is None ==> diagnostic_help(self@) is None,
    {
        match self {
            Diagnostic::ResultSignature { .. } => None,
            Diagnostic::EmptyPanic => Some(String::from_str("try to add a message")),
        }
    }

    /// The note of this diagnostic.
    pub fn note(&self) -> (res: Option<String>)
        ensures
            res matches Some(n) ==> diagnostic_note(self@) == Some(n@),
            res is None ==> diagnostic_note(self@) is None,
    {
        match self {
            Diagnostic::ResultSignature { .. } => None,
            Diagnostic::EmptyPanic => Some(String::from_str("we will add the message to Result's Err")),
        }
    }

    /// The `compile_error!` invocation that reports this diagnostic, as
    /// `proc_macro_error` renders it.
    pub fn into_compile_error(&self) -> (res: String)
        ensures
            res@ == diagnostic_invocation_of(diagnostic_text(self@)),
    {
        match self {
            Diagnostic::ResultSignature { .. } => {
                let m = self.message();
                plain_error_tokens(m.as_str())
            },
            Diagnostic::EmptyPanic => suggested_error_tokens(
                "panic needs a message!",
                "try to add a message",
                "we will add the message to Result's Err",
            ),
        }
    }
}

/// Why a macro produced no code.
pub enum MacroError {
    /// The input does not parse; the parser's message.
    Syntax(String),
    /// The macro does not apply to the input; the message it reports.
    Unsupported(String),
    /// The diagnostics that the macro emitted, in order.
    Diagnostics(Vec<Diagnostic>),
}

pub enum MacroErrorView {
    Syntax(Seq<char>),
    Unsupported(Seq<char>),
    Diagnostics(Seq<DiagnosticView>),
}

impl View for MacroError {
    type V = MacroErrorView;

    open spec fn view(&self) -> MacroErrorView {
        match self {
            MacroError::Syntax(m) => MacroErrorView::Syntax(m@),
            MacroError::Unsupported(m) => MacroErrorView::Unsupported(m@),
            MacroError::Diagnostics(d) => MacroErrorView::Diagnostics(diagnostic_views(d@)),
        }
    }
}

/// The `compile_error!` invocations that report an error: one for the
/// message of a syntax error or of an unsupported input, one per
/// diagnostic otherwise.
pub open spec fn error_tokens(e: MacroErrorView) -> Seq<char> {
    match e {
        MacroErrorView::Syntax(m) => error_invocation_of(m),
        MacroErrorView::Unsupported(m) => error_invocation_of(m),
        MacroErrorView::Diagnostics(d) => terminated(d.map_values(|x: DiagnosticView| diagnostic_invocation_of(diagnostic_text(x))), " "@),
    }
}

impl MacroError {
    /// The tokens that report this error to the compiler.
    pub fn into_compile_error(&self) -> (res: String)
        ensures
            res@ == error_tokens(self@),
    {
        match self {
            MacroError::Syntax(m) => error_invocation(m.as_str()),
            MacroError::Unsupported(m) => error_invocation(m.as_str()),
            MacroError::Diagnostics(d) => {
                let mut out = String::new();
                let n = d.len();
                let mut i: usize = 0;
                while i < n
                    invariant
                        n == d.len(),
                        i <= n,
                        out@ == terminated(diagnostic_views(d@).take(i as int).map_values(
                            |x: DiagnosticView| diagnostic_invocation_of(diagnostic_text(x))), " "@),
                    decreases n - i,
                {
                    proof {
                        let s = diagnostic_views(d@).take(i + 1).map_values(
                            |x: DiagnosticView| diagnostic_invocation_of(diagnostic_text(x)));
                        assert(s.drop_last() =~= diagnostic_views(d@).take(i as int).map_values(
                            |x: DiagnosticView| diagnostic_invocation_of(diagnostic_text(x))));
                    }
                    let e = d[i].into_compile_error();
                    out.append(e.as_str());
                    out.append(" ");
                    i = i + 1;
                }
                proof {
                    assert(diagnostic_views(d@).take(n as int) =~= diagnostic_views(d@));
                }
                out
            },
        }
    }
}

} // verus!
