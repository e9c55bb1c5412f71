//! Plain-value descriptions of the items that the macros read: a struct
//! with its fields and their attributes, and a function with the statements
//! of its body, each with the view that the contracts speak of.

use vstd::prelude::*;
use crate::text::views;

verus! {

/// An attribute of a field: its tokens; its path, by whether it begins with
/// `::` and the tokens of each segment (its identifier and any arguments);
/// and the tokens inside its delimiters when it is a list (`path(...)`).
pub struct Attr {
    pub text: String,
    pub leading_colon: bool,
    pub path: Vec<String>,
    pub list: Option<String>,
}

pub struct AttrView {
    pub text: Seq<char>,
    pub leading_colon: bool,
    pub path: Seq<Seq<char>>,
    pub list: Option<Seq<char>>,
}

/// Whether the attribute's path is the single identifier `word`, as
/// `syn::Path::is_ident` decides it: no leading `::` and one segment, which
/// is `word` without arguments.
pub open spec fn path_is_ident(a: AttrView, word: Seq<char>) -> bool {
    &&& !a.leading_colon
    &&& a.path.len() == 1
    &&& a.path[0] == word
}

impl View for Attr {
    type V = AttrView;

    open spec fn view(&self) -> AttrView {
        AttrView {
            text: self.text@,
            leading_colon: self.leading_colon,
            path: views(self.path@),
            list: match self.list {
                Some(l) => Some(l@),
                None => None,
            },
        }
    }
}

/// A named field: its outer attributes, its visibility, its name, its type,
/// and the identifier of the type's first segment when the type is a path.
pub struct Field {
    pub attrs: Vec<Attr>,
    pub vis: String,
    pub name: String,
    pub ty: String,
    pub ty_head: Option<String>,
}

pub struct FieldView {
    pub attrs: Seq<AttrView>,
    pub vis: Seq<char>,
    pub name: Seq<char>,
    pub ty: Seq<char>,
    pub ty_head: Option<Seq<char>>,
}

pub open spec fn attr_views(a: Seq<Attr>) -> Seq<AttrView> {
    a.map_values(|x: Attr| x@)
}

impl View for Field {
    type V = FieldView;

    open spec fn view(&self) -> FieldView {
        FieldView {
            attrs: attr_views(self.attrs@),
            vis: self.vis@,
            name: self.name@,
            ty: self.ty@,
            ty_head: match self.ty_head {
                Some(h) => Some(h@),
                None => None,
            },
        }
    }
}

pub open spec fn field_views(f: Seq<Field>) -> Seq<FieldView> {
    f.map_values(|x: Field| x@)
}

/// A struct, enum or union as a derive macro receives it. `fields` holds the
/// fields when the item is a struct with named fields, and is `None`
/// otherwise; `trailing_comma` says whether a comma follows the last of them.
pub struct StructItem {
    pub attrs: Vec<String>,
    pub vis: String,
    pub name: String,
    pub generics: String,
    pub where_clause: String,
    pub fields: Option<Vec<Field>>,
    pub trailing_comma: bool,
}

pub struct StructView {
    pub attrs: Seq<Seq<char>>,
    pub vis: Seq<char>,
    pub name: Seq<char>,
    pub generics: Seq<char>,
    pub where_clause: Seq<char>,
    pub fields: Option<Seq<FieldView>>,
    pub trailing_comma: bool,
}

impl View for StructItem {
    type V = StructView;

    open spec fn view(&self) -> StructView {
        StructView {
            attrs: views(self.attrs@),
            vis: self.vis@,
            name: self.name@,
            generics: self.generics@,
            where_clause: self.where_clause@,
            fields: match self.fields {
                Some(f) => Some(field_views(f@)),
                None => None,
            },
            trailing_comma: self.trailing_comma,
        }
    }
}

/// A statement inside the block of an `if` or a `while`.
pub enum InnerStmt {
    /// A macro invocation in statement position: the identifiers of the
    /// macro's path, the tokens between its delimiters, and its own tokens.
    Macro { segments: Vec<String>, tokens: String, text: String },
    /// Any other statement, by its tokens.
    Other { text: String },
}

pub enum InnerStmtView {
    Macro { segments: Seq<Seq<char>>, tokens: Seq<char>, text: Seq<char> },
    Other { text: Seq<char> },
}

impl View for InnerStmt {
    type V = InnerStmtView;

    open spec fn view(&self) -> InnerStmtView {
        match self {
            InnerStmt::Macro { segments, tokens, text } => InnerStmtView::Macro {
                segments: views(segments@),
                tokens: tokens@,
                text: text@,
            },
            InnerStmt::Other { text } => InnerStmtView::Other { text: text@ },
        }
    }
}

pub open spec fn inner_views(s: Seq<InnerStmt>) -> Seq<InnerStmtView> {
    s.map_values(|x: InnerStmt| x@)
}

/// A statement of a function's body. `text` is the statement's own tokens.
pub enum TopStmt {
    /// An `if` expression statement: its outer attributes, its condition,
    /// the statements of its first block and its `else` branch.
    If {
        attrs: Vec<String>,
        cond: String,
        body: Vec<InnerStmt>,
        else_branch: Option<String>,
        semi: bool,
        text: String,
    },
    /// A `while` loop statement: its outer attributes, the inner attributes
    /// of its body, its label, its condition and its body's statements.
    While {
        attrs: Vec<String>,
        inner_attrs: Vec<String>,
        label: String,
        cond: String,
        body: Vec<InnerStmt>,
        semi: bool,
        text: String,
    },
    /// Any other statement.
    Other { text: String },
}

pub enum TopStmtView {
    If {
        attrs: Seq<Seq<char>>,
        cond: Seq<char>,
        body: Seq<InnerStmtView>,
        else_branch: Option<Seq<char>>,
        semi: bool,
        text: Seq<char>,
    },
    While {
        attrs: Seq<Seq<char>>,
        inner_attrs: Seq<Seq<char>>,
        label: Seq<char>,
        cond: Seq<char>,
        body: Seq<InnerStmtView>,
        semi: bool,
        text: Seq<char>,
    },
    Other { text: Seq<char> },
}

impl View for TopStmt {
    type V = TopStmtView;

    open spec fn view(&self) -> TopStmtView {
        match self {
            TopStmt::If { attrs, cond, body, else_branch, semi, text } => TopStmtView::If {
                attrs: views(attrs@),
                cond: cond@,
                body: inner_views(body@),
                else_branch: match else_branch {
                    Some(e) => Some(e@),
                    None => None,
                },
                semi: *semi,
                text: text@,
            },
            TopStmt::While { attrs, inner_attrs, label, cond, body, semi, text } => TopStmtView::While {
                attrs: views(attrs@),
                inner_attrs: views(inner_attrs@),
                label: label@,
                cond: cond@,
                body: inner_views(body@),
                semi: *semi,
                text: text@,
            },
            TopStmt::Other { text } => TopStmtView::Other { text: text@ },
        }
    }
}

pub open spec fn top_views(s: Seq<TopStmt>) -> Seq<TopStmtView> {
    s.map_values(|x: TopStmt| x@)
}

/// The text of a statement as it was written.
pub open spec fn stmt_text(s: TopStmtView) -> Seq<char> {
    match s {
        TopStmtView::If { text, .. } => text,
        TopStmtView::While { text, .. } => text,
        TopStmtView::Other { text } => text,
    }
}

/// A free function: its outer and inner attributes, visibility, the part of
/// its signature before the parameters (qualifiers, `fn`, name, generics),
/// its parameters, its variadic argument, its return type (`None` when it
/// has none), its where clause and the statements of its body.
/// `params_open` tells whether the parameter list is non-empty and has no
/// trailing comma.
pub struct FnItem {
    pub attrs: Vec<String>,
    pub inner_attrs: Vec<String>,
    pub vis: String,
    pub prefix: String,
    pub params: String,
    pub params_open: bool,
    pub variadic: Option<String>,
    pub output: Option<String>,
    pub where_clause: String,
    pub stmts: Vec<TopStmt>,
}

pub struct FnView {
    pub attrs: Seq<Seq<char>>,
    pub inner_attrs: Seq<Seq<char>>,
    pub vis: Seq<char>,
    pub prefix: Seq<char>,
    pub params: Seq<char>,
    pub params_open: bool,
    pub variadic: Option<Seq<char>>,
    pub output: Option<Seq<char>>,
    pub where_clause: Seq<char>,
    pub stmts: Seq<TopStmtView>,
}

impl View for FnItem {
    type V = FnView;

    open spec fn view(&self) -> FnView {
        FnView {
            attrs: views(self.attrs@),
            inner_attrs: views(self.inner_attrs@),
            vis: self.vis@,
            prefix: self.prefix@,
            params: self.params@,
            params_open: self.params_open,
            variadic: match self.variadic {
                Some(v) => Some(v@),
                None => None,
            },
            output: match self.output {
                Some(o) => Some(o@),
                None => None,
            },
            where_clause: self.where_clause@,
            stmts: top_views(self.stmts@),
        }
    }
}

impl Attr {
    /// A copy of this attribute.
    pub fn copy(&self) -> (res: Attr)
        ensures
            res@ == self@,
    {
        let list = match &self.list {
            Some(l) => Some(l.clone()),
            None => None,
        };
        let mut path: Vec<String> = Vec::new();
        let mut k: usize = 0;
        while k < self.path.len()
            invariant
                k <= self.path.len(),
                path@.len() == k,
                forall|q: int| 0 <= q < k ==> #[trigger] path@[q]@ == self.path@[q]@,
            decreases self.path.len() - k,
        {
            path.push(self.path[k].clone());
            k = k + 1;
        }
        proof { assert(views(path@) =~= views(self.path@)); }
        Attr { text: self.text.clone(), leading_colon: self.leading_colon, path, list }
    }
}

/// A copy of a list of attributes.
pub fn copy_attrs(a: &Vec<Attr>) -> (res: Vec<Attr>)
    ensures
        attr_views(res@) == attr_views(a@),
{
    let mut out: Vec<Attr> = Vec::new();
    let n = a.len();
    let mut i: usize = 0;
    while i < n
        invariant
            n == a.len(),
            i <= n,
            out@.len() == i,
            forall|k: int| 0 <= k < i ==> #[trigger] out@[k]@ == a@[k]@,
        decreases n - i,
    {
        out.push(a[i].copy());
        i = i + 1;
    }
    proof {
        assert(attr_views(out@) =~= attr_views(a@));
    }
    out
}

impl Field {
    /// A copy of this field.
    pub fn copy(&self) -> (res: Field)
        ensures
            res@ == self@,
    {
        Field {
            attrs: copy_attrs(&self.attrs),
            vis: self.vis.clone(),
            name: self.name.clone(),
            ty: self.ty.clone(),
            ty_head: match &self.ty_head {
                Some(h) => Some(h.clone()),
                None => None,
            },
        }
    }
}

} // verus!
