//! Rewriting the visibility of a struct's fields: `public` makes every field
//! not excluded public; `private` makes every field private and adds a getter
//! for each.

use vstd::prelude::*;
use crate::error::{MacroError, MacroErrorView};
use crate::item::{AttrView, Attr, Field, FieldView, StructItem, StructView, field_views};
use crate::syntax::{ident_list, ident_list_of, meta_list, meta_list_of, read_struct, struct_of};
use crate::text::{begins_with, group_occurs, ident_fragment, lemma_begins_self, lemma_occurs_left, lemma_occurs_right, lemma_occurs_separated, occurs_in, push_fragment, push_separated, push_terminated, same_text, separated, starts_with, terminated, views};
use crate::tokens::{Tok, TokView, lex, lexed_of, print_tokens, printed, tok_views};

verus! {

/// A struct with four fields, two of which the `public` macro, told to
/// exclude `fourth` and `third`, leaves private.
pub struct Example {
    pub first: String,
    pub second: u32,
    third: bool,
    fourth: String,
}

/// The values that an `Example` holds, its private fields among them.
pub struct ExampleView {
    pub first: Seq<char>,
    pub second: u32,
    pub third: bool,
    pub fourth: Seq<char>,
}

// The view is closed: `Example` keeps two fields private, which makes Verus
// treat the struct as opaque outside this module.
impl View for Example {
    type V = ExampleView;

    closed spec fn view(&self) -> ExampleView {
        ExampleView { first: self.first@, second: self.second, third: self.third, fourth: self.fourth@ }
    }
}

impl Example {
    pub fn new() -> (res: Self)
        ensures
            res@ == (ExampleView { first: "first"@, second: 9, third: false, fourth: "lol"@ }),
    {
        Example {
            first: String::from_str("first"),
            second: 9,
            third: false,
            fourth: String::from_str("lol"),
        }
    }
}

/// The names of the fields that `public` leaves as they are.
pub struct ExcludedFields {
    pub fields: Vec<String>,
}

/// What the attribute of `public` says of the fields to exclude.
pub enum ExclusionView {
    /// These fields are excluded.
    Fields(Seq<Seq<char>>),
    /// Tokens are left after what was read, which `public` reports.
    Leftover,
    /// Reading the exclusions panics.
    Panics,
}

/// The number of leading token trees of `t` up to and including its first
/// delimited group, or all of them when there is none: a `syn::MetaList`
/// at the start of `t` (a path, then a group) can take no more.
pub open spec fn meta_list_span(t: Seq<TokView>) -> nat
    decreases t.len(),
{
    if t.len() == 0 {
        0
    } else if t[0] is Group {
        1
    } else {
        1 + meta_list_span(t.skip(1))
    }
}

/// Whether a parse error was met at the end of the input, where syn begins
/// its message with `unexpected end of input`.
pub open spec fn at_end_of_input(message: Seq<char>) -> bool {
    end_of_input()@.len() <= message.len() && message.subrange(0, end_of_input()@.len() as int) == end_of_input()@
}

pub open spec fn end_of_input() -> &'static str {
    "unexpected end of input"
}

/// What the attribute `attr` of `public` says: it is read as a
/// `syn::MetaList` (a path, then a delimited group). When that succeeds and
/// a path segment is `exclude`, the group must hold a comma separated list
/// of identifiers (else the reading panics), which are excluded; another
/// meta list excludes nothing. When it fails, nothing is excluded. Either
/// way, tokens left after what was read are reported.
pub open spec fn excluded_of(attr: Seq<char>) -> ExclusionView {
    match lexed_of(attr) {
        None => ExclusionView::Panics,
        Some(t) => {
            let count = meta_list_span(t);
            match meta_list_of(printed(t.take(count as int))) {
                Ok((segments, tokens)) => {
                    let listed = if segments.contains("exclude"@) { ident_list_of(tokens) } else { Some(Seq::empty()) };
                    match listed {
                        None => ExclusionView::Panics,
                        Some(l) => if count < t.len() { ExclusionView::Leftover } else { ExclusionView::Fields(l) },
                    }
                },
                Err(m) => if at_end_of_input(m) { ExclusionView::Fields(Seq::empty()) } else { ExclusionView::Leftover },
            }
        },
    }
}

proof fn lemma_span_step(t: Seq<TokView>, i: int)
    requires
        0 <= i < t.len(),
        !(t[i] is Group),
    ensures
        meta_list_span(t.skip(i)) == 1 + meta_list_span(t.skip(i + 1)),
{
    assert(t.skip(i).skip(1) =~= t.skip(i + 1));
}

/// The number of token trees that a meta list at the start of `t` can take.
fn meta_list_count(t: &Vec<Tok>) -> (res: usize)
    ensures
        res == meta_list_span(tok_views(t@)),
        res <= t.len(),
{
    let ghost v = tok_views(t@);
    let n = t.len();
    let mut i: usize = 0;
    proof { assert(v.skip(0) =~= v); }
    while i < n
        invariant
            n == t.len(),
            v == tok_views(t@),
            i <= n,
            meta_list_span(v) == i + meta_list_span(v.skip(i as int)),
        decreases n - i,
    {
        proof { assert(v[i as int] == t@[i as int]@); }
        if let Tok::Group(_, _) = &t[i] {
            proof { assert(v.skip(i as int)[0] == v[i as int]); }
            return i + 1;
        }
        proof { lemma_span_step(v, i as int); }
        i = i + 1;
    }
    proof { assert(v.skip(n as int).len() == 0); }
    n
}

fn has_segment(segments: &Vec<String>, word: &str) -> (res: bool)
    ensures
        res == views(segments@).contains(word@),
{
    let n = segments.len();
    let mut i: usize = 0;
    while i < n
        invariant
            n == segments.len(),
            i <= n,
            forall|k: int| 0 <= k < i ==> views(segments@)[k] != word@,
        decreases n - i,
    {
        if same_text(segments[i].as_str(), word) {
            proof { assert(views(segments@)[i as int] == word@); }
            return true;
        }
        i = i + 1;
    }
    false
}

impl ExcludedFields {
    /// Reads the fields that `attr` excludes: `None` where the reading
    /// panics, the message that syn reports where tokens are left.
    pub fn try_parse(attr: &str) -> (res: Option<Result<ExcludedFields, String>>)
        ensures
            res is None <==> excluded_of(attr@) is Panics,
            res matches Some(Ok(e)) ==> excluded_of(attr@) == ExclusionView::Fields(views(e.fields@)),
            res matches Some(Err(m)) ==> excluded_of(attr@) is Leftover && m@ == "unexpected token"@,
    {
        proof {
            reveal_strlit("exclude");
            reveal_strlit("unexpected end of input");
        }
        let t = match lex(attr) {
            Some(t) => t,
            None => return None,
        };
        let count = meta_list_count(&t);
        let leftover = count < t.len();
        let head = print_tokens(&t, 0, count);
        proof { assert(tok_views(t@).subrange(0, count as int) =~= tok_views(t@).take(count as int)); }
        match meta_list(head.as_str()) {
            Ok((segments, tokens)) => {
                let fields = if has_segment(&segments, "exclude") {
                    match ident_list(tokens.as_str()) {
                        Some(fields) => fields,
                        None => return None,
                    }
                } else {
                    let empty: Vec<String> = Vec::new();
                    proof { assert(views(empty@) =~= Seq::<Seq<char>>::empty()); }
                    empty
                };
                if leftover {
                    Some(Err(String::from_str("unexpected token")))
                } else {
                    Some(Ok(ExcludedFields { fields }))
                }
            },
            Err(m) => {
                if starts_with(m.as_str(), "unexpected end of input") {
                    let fields: Vec<String> = Vec::new();
                    proof { assert(views(fields@) =~= Seq::<Seq<char>>::empty()); }
                    Some(Ok(ExcludedFields { fields }))
                } else {
                    Some(Err(String::from_str("unexpected token")))
                }
            },
        }
    }

    /// Reads the fields that `attr` excludes; the message that syn reports
    /// where tokens are left after what was read.
    pub fn parse(attr: &str) -> (res: Result<ExcludedFields, String>)
        requires
            !(excluded_of(attr@) is Panics),
        ensures
            res matches Ok(e) ==> excluded_of(attr@) == ExclusionView::Fields(views(e.fields@)),
            res matches Err(m) ==> excluded_of(attr@) is Leftover && m@ == "unexpected token"@,
    {
        match ExcludedFields::try_parse(attr) {
            Some(r) => r,
            None => Ok(ExcludedFields { fields: Vec::new() }),
        }
    }

    /// Whether the field called `name` is excluded.
    pub fn matches_ident(&self, name: &Option<String>) -> (res: bool)
        ensures
            res == (name matches Some(n) && views(self.fields@).contains(n@)),
    {
        match name {
            Some(n) => has_segment(&self.fields, n.as_str()),
            None => false,
        }
    }
}

/// The texts of a field's attributes.
pub open spec fn attr_texts(a: Seq<AttrView>) -> Seq<Seq<char>> {
    a.map_values(|x: AttrView| x.text)
}

/// A field as it is written in a struct: its attributes, visibility, name
/// and type.
pub open spec fn field_text(f: FieldView) -> Seq<char> {
    terminated(attr_texts(f.attrs), " "@) + f.vis + " "@ + f.name + ": "@ + f.ty
}

pub open spec fn field_texts(f: Seq<FieldView>) -> Seq<Seq<char>> {
    f.map_values(|x: FieldView| field_text(x))
}

/// A struct with named fields as it is written: attributes, visibility,
/// name, generics, where clause and the given fields, separated by commas
/// and ended by one when the struct's were.
pub open spec fn struct_text(s: StructView, fields: Seq<FieldView>) -> Seq<char> {
    terminated(s.attrs, " "@) + s.vis + " struct "@ + s.name + " "@ + s.generics + " "@ + s.where_clause
        + " { "@ + separated(field_texts(fields), ", "@) + (if s.trailing_comma { ","@ } else { Seq::empty() })
        + " }"@
}

/// A field as `public` leaves it: made `pub` unless it is excluded.
pub open spec fn published(f: FieldView, excluded: Seq<Seq<char>>) -> FieldView {
    if excluded.contains(f.name) {
        f
    } else {
        FieldView { vis: "pub"@, ..f }
    }
}

pub open spec fn published_all(f: Seq<FieldView>, excluded: Seq<Seq<char>>) -> Seq<FieldView> {
    f.map_values(|x: FieldView| published(x, excluded))
}

/// A field as `private` leaves it: with no visibility.
pub open spec fn privatized(f: FieldView) -> FieldView {
    FieldView { vis: Seq::empty(), ..f }
}

pub open spec fn privatized_all(f: Seq<FieldView>) -> Seq<FieldView> {
    f.map_values(|x: FieldView| privatized(x))
}

fn attr_text_list(a: &Vec<Attr>) -> (res: Vec<String>)
    ensures
        views(res@) == attr_texts(crate::item::attr_views(a@)),
{
    let mut out: Vec<String> = Vec::new();
    let n = a.len();
    let mut i: usize = 0;
    while i < n
        invariant
            n == a.len(),
            i <= n,
            out@.len() == i,
            forall|k: int| 0 <= k < i ==> #[trigger] out@[k]@ == a@[k].text@,
        decreases n - i,
    {
        out.push(a[i].text.clone());
        i = i + 1;
    }
    proof {
        assert(views(out@) =~= attr_texts(crate::item::attr_views(a@)));
    }
    out
}

/// A field as it is written.
pub fn render_field(f: &Field) -> (res: String)
    ensures
        res@ == field_text(f@),
{
    let mut out = String::new();
    let attrs = attr_text_list(&f.attrs);
    push_terminated(&mut out, &attrs, " ");
    out.append(f.vis.as_str());
    out.append(" ");
    out.append(f.name.as_str());
    out.append(": ");
    out.append(f.ty.as_str());
    out
}

fn render_fields(fields: &Vec<Field>) -> (res: Vec<String>)
    ensures
        views(res@) == field_texts(field_views(fields@)),
{
    let mut out: Vec<String> = Vec::new();
    let n = fields.len();
    let mut i: usize = 0;
    while i < n
        invariant
            n == fields.len(),
            i <= n,
            out@.len() == i,
            forall|k: int| 0 <= k < i ==> #[trigger] out@[k]@ == field_text(fields@[k]@),
        decreases n - i,
    {
        out.push(render_field(&fields[i]));
        i = i + 1;
    }
    proof {
        assert(views(out@) =~= field_texts(field_views(fields@)));
    }
    out
}

/// A struct with the given named fields, as it is written.
pub fn render_struct(s: &StructItem, fields: &Vec<Field>) -> (res: String)
    ensures
        res@ == struct_text(s@, field_views(fields@)),
{
    let mut out = String::new();
    push_terminated(&mut out, &s.attrs, " ");
    out.append(s.vis.as_str());
    out.append(" struct ");
    out.append(s.name.as_str());
    out.append(" ");
    out.append(s.generics.as_str());
    out.append(" ");
    out.append(s.where_clause.as_str());
    out.append(" { ");
    let texts = render_fields(fields);
    push_separated(&mut out, &texts, ", ");
    if s.trailing_comma {
        out.append(",");
    }
    out.append(" }");
    out
}

/// Makes every field public that `excluded` does not name.
pub fn publish(fields: &Vec<Field>, excluded: &ExcludedFields) -> (res: Vec<Field>)
    ensures
        field_views(res@) == published_all(field_views(fields@), views(excluded.fields@)),
{
    let mut out: Vec<Field> = Vec::new();
    let n = fields.len();
    let mut i: usize = 0;
    while i < n
        invariant
            n == fields.len(),
            i <= n,
            out@.len() == i,
            forall|k: int| 0 <= k < i ==> #[trigger] out@[k]@ == published(fields@[k]@, views(excluded.fields@)),
        decreases n - i,
    {
        let mut f = fields[i].copy();
        let name = Some(f.name.clone());
        if !excluded.matches_ident(&name) {
            f.vis = String::from_str("pub");
        }
        out.push(f);
        i = i + 1;
    }
    proof {
        assert(field_views(out@) =~= published_all(field_views(fields@), views(excluded.fields@)));
    }
    out
}

/// Makes every field private.
pub fn privatize(fields: &Vec<Field>) -> (res: Vec<Field>)
    ensures
        field_views(res@) == privatized_all(field_views(fields@)),
{
    let mut out: Vec<Field> = Vec::new();
    let n = fields.len();
    let mut i: usize = 0;
    while i < n
        invariant
            n == fields.len(),
            i <= n,
            out@.len() == i,
            forall|k: int| 0 <= k < i ==> #[trigger] out@[k]@ == privatized(fields@[k]@),
        decreases n - i,
    {
        let mut f = fields[i].copy();
        f.vis = String::new();
        out.push(f);
        proof { assert(f@ == privatized(fields@[i as int]@)); }
        i = i + 1;
    }
    proof {
        assert(field_views(out@) =~= privatized_all(field_views(fields@)));
    }
    out
}

/// The message of the error of `public` on anything but a struct with named
/// fields.
pub open spec fn named_fields_only() -> Seq<char> {
    "only works on structs with named fields"@
}

/// Whether `public` panics: the item parses and the attribute names an
/// `exclude` list that is not a list of identifiers.
pub open spec fn public_panics(attr: Seq<char>, item: Seq<char>) -> bool {
    struct_of(item) is Ok && excluded_of(attr) is Panics
}

/// What `public` makes of `attr` and `item`.
pub open spec fn public_of(attr: Seq<char>, item: Seq<char>) -> Result<Seq<char>, MacroErrorView> {
    match struct_of(item) {
        Err(e) => Err(MacroErrorView::Syntax(e)),
        Ok(s) => match excluded_of(attr) {
            ExclusionView::Fields(excluded) => match s.fields {
                Some(fields) => Ok(struct_text(s, published_all(fields, excluded))),
                None => Err(MacroErrorView::Unsupported(named_fields_only())),
            },
            _ => Err(MacroErrorView::Syntax("unexpected token"@)),
        },
    }
}

/// The `public` attribute macro: writes the struct in `item` back with every
/// field public, except those that `attr` (`exclude(a, b, ..)`) names.
pub fn public(attr: &str, item: &str) -> (res: Result<String, MacroError>)
    requires
        !public_panics(attr@, item@),
    ensures
        res matches Ok(t) ==> public_of(attr@, item@) == Ok::<Seq<char>, MacroErrorView>(t@),
        res matches Err(e) ==> public_of(attr@, item@) == Err::<Seq<char>, MacroErrorView>(e@),
{
    let s = match read_struct(item) {
        Ok(s) => s,
        Err(e) => return Err(MacroError::Syntax(e)),
    };
    let excluded = match ExcludedFields::parse(attr) {
        Ok(e) => e,
        Err(m) => return Err(MacroError::Syntax(m)),
    };
    match &s.fields {
        Some(fields) => {
            let published = publish(fields, &excluded);
            Ok(render_struct(&s, &published))
        },
        None => Err(MacroError::Unsupported(String::from_str("only works on structs with named fields"))),
    }
}

/// `public` on any input: `None` where it panics.
pub fn try_public(attr: &str, item: &str) -> (res: Option<Result<String, MacroError>>)
    ensures
        res is None <==> public_panics(attr@, item@),
        res matches Some(Ok(t)) ==> public_of(attr@, item@) == Ok::<Seq<char>, MacroErrorView>(t@),
        res matches Some(Err(e)) ==> public_of(attr@, item@) == Err::<Seq<char>, MacroErrorView>(e@),
{
    match read_struct(item) {
        Err(e) => Some(Err(MacroError::Syntax(e))),
        Ok(_) => match ExcludedFields::try_parse(attr) {
            None => None,
            Some(_) => Some(public(attr, item)),
        },
    }
}

/// A getter of a field: `get_<name>`, returning a reference to the field.
pub open spec fn getter_text(f: FieldView) -> Seq<char> {
    "pub fn get_"@ + ident_fragment(f.name) + "(&self) -> &"@ + f.ty + " { &self."@ + f.name + " }"@
}

pub open spec fn getter_texts(f: Seq<FieldView>) -> Seq<Seq<char>> {
    f.map_values(|x: FieldView| getter_text(x))
}

/// The struct and its getters as `private` writes them: its attributes,
/// visibility and name, its fields made private, then an impl block with
/// one getter per field.
pub open spec fn private_text(s: StructView, fields: Seq<FieldView>) -> Seq<char> {
    terminated(s.attrs, " "@) + s.vis + " struct "@ + s.name + " { "@
        + terminated(field_texts(privatized_all(fields)), ", "@) + "} impl "@ + s.name + " { "@
        + terminated(getter_texts(fields), " "@) + "}"@
}

/// Whether `private` panics: the item parses but is not a struct with named
/// fields.
pub open spec fn private_panics(item: Seq<char>) -> bool {
    struct_of(item) matches Ok(s) && s.fields is None
}

/// What `private` makes of `item`.
pub open spec fn private_of(item: Seq<char>) -> Result<Seq<char>, MacroErrorView> {
    match struct_of(item) {
        Err(e) => Err(MacroErrorView::Syntax(e)),
        Ok(s) => Ok(private_text(s, s.fields->0)),
    }
}

/// A getter of a field.
pub fn render_getter(f: &Field) -> (res: String)
    ensures
        res@ == getter_text(f@),
{
    let mut out = String::from_str("pub fn get_");
    push_fragment(&mut out, f.name.as_str());
    out.append("(&self) -> &");
    out.append(f.ty.as_str());
    out.append(" { &self.");
    out.append(f.name.as_str());
    out.append(" }");
    out
}

/// The `private` function-like macro: writes the struct in `item` with every
/// field private, followed by a getter `get_<field>` for each field.
pub fn private(item: &str) -> (res: Result<String, MacroError>)
    requires
        !private_panics(item@),
    ensures
        res matches Ok(t) ==> private_of(item@) == Ok::<Seq<char>, MacroErrorView>(t@),
        res matches Err(e) ==> private_of(item@) == Err::<Seq<char>, MacroErrorView>(e@),
{
    let s = match read_struct(item) {
        Ok(s) => s,
        Err(e) => return Err(MacroError::Syntax(e)),
    };
    let fields = match &s.fields {
        Some(f) => f,
        None => {
            proof { assert(false); }
            return Err(MacroError::Unsupported(String::new()));
        },
    };
    let mut out = String::new();
    push_terminated(&mut out, &s.attrs, " ");
    out.append(s.vis.as_str());
    out.append(" struct ");
    out.append(s.name.as_str());
    out.append(" { ");
    let hidden = privatize(fields);
    let texts = render_fields(&hidden);
    push_terminated(&mut out, &texts, ", ");
    out.append("} impl ");
    out.append(s.name.as_str());
    out.append(" { ");
    let mut getters: Vec<String> = Vec::new();
    let n = fields.len();
    let mut i: usize = 0;
    while i < n
        invariant
            n == fields.len(),
            i <= n,
            getters@.len() == i,
            forall|k: int| 0 <= k < i ==> #[trigger] getters@[k]@ == getter_text(fields@[k]@),
        decreases n - i,
    {
        getters.push(render_getter(&fields[i]));
        i = i + 1;
    }
    proof {
        assert(views(getters@) =~= getter_texts(field_views(fields@)));
    }
    push_terminated(&mut out, &getters, " ");
    out.append("}");
    Ok(out)
}

/// `private` on any input: `None` where it panics.
pub fn try_private(item: &str) -> (res: Option<Result<String, MacroError>>)
    ensures
        res is None <==> private_panics(item@),
        res matches Some(Ok(t)) ==> private_of(item@) == Ok::<Seq<char>, MacroErrorView>(t@),
        res matches Some(Err(e)) ==> private_of(item@) == Err::<Seq<char>, MacroErrorView>(e@),
{
    match read_struct(item) {
        Err(e) => Some(Err(MacroError::Syntax(e))),
        Ok(s) => match s.fields {
            None => None,
            Some(_) => Some(private(item)),
        },
    }
}

/// `public` keeps every field's attributes, name and type and the number
/// and order of the fields; it makes a field `pub` exactly when the field
/// is not excluded, and leaves an excluded field's visibility as it was.
pub proof fn law_public_fields(fields: Seq<FieldView>, excluded: Seq<Seq<char>>)
    ensures
        published_all(fields, excluded).len() == fields.len(),
        forall|i: int| 0 <= i < fields.len() ==> {
            let g = #[trigger] published_all(fields, excluded)[i];
            &&& g.attrs == fields[i].attrs
            &&& g.name == fields[i].name
            &&& g.ty == fields[i].ty
            &&& g.ty_head == fields[i].ty_head
            &&& g.vis == if excluded.contains(fields[i].name) { fields[i].vis } else { "pub"@ }
        },
{
}

/// On a struct's fields, making them public twice with the same exclusions
/// gives what making them public once gives.
pub proof fn law_public_idempotent(fields: Seq<FieldView>, excluded: Seq<Seq<char>>)
    ensures
        published_all(published_all(fields, excluded), excluded) == published_all(fields, excluded),
{
    assert(published_all(published_all(fields, excluded), excluded) =~= published_all(fields, excluded));
}

/// `private` undoes `public`: the fields that `private` writes are the same
/// whether or not `public` ran first.
pub proof fn law_private_after_public(fields: Seq<FieldView>, excluded: Seq<Seq<char>>)
    ensures
        privatized_all(published_all(fields, excluded)) == privatized_all(fields),
{
    assert(privatized_all(published_all(fields, excluded)) =~= privatized_all(fields));
}

/// `private` leaves every field without visibility and writes one getter
/// per field, `get_<field>`, in the order of the fields.
pub proof fn law_private_getters(fields: Seq<FieldView>)
    ensures
        getter_texts(fields).len() == fields.len(),
        forall|i: int| 0 <= i < fields.len() ==> (#[trigger] privatized_all(fields)[i]).vis.len() == 0,
        forall|i: int| 0 <= i < fields.len() ==> {
            let h = "pub fn get_"@ + ident_fragment(fields[i].name);
            (#[trigger] getter_texts(fields)[i]).subrange(0, h.len() as int) == h
        },
{
    assert forall|i: int| 0 <= i < fields.len() implies {
        let h = "pub fn get_"@ + ident_fragment(fields[i].name);
        (#[trigger] getter_texts(fields)[i]).subrange(0, h.len() as int) == h
    } by {
        let g = getter_texts(fields)[i];
        let h = "pub fn get_"@ + ident_fragment(fields[i].name);
        assert(g == h + ("(&self) -> &"@ + fields[i].ty + " { &self."@ + fields[i].name + " }"@));
        assert(g.subrange(0, h.len() as int) =~= h);
    }
}

/// `public` writes every field back with all its attributes, in order, then
/// `pub` (for an excluded field, the visibility it had), its name and its
/// type.
pub proof fn law_public_keeps_fields(attr: Seq<char>, item: Seq<char>, t: Seq<char>, i: int)
    requires
        public_of(attr, item) == Ok::<Seq<char>, MacroErrorView>(t),
        struct_of(item) matches Ok(s) && s.fields matches Some(fs) && 0 <= i < fs.len(),
    ensures
        ({
            let f = struct_of(item)->Ok_0.fields->0[i];
            let excluded = excluded_of(attr)->Fields_0;
            occurs_in(terminated(f.attrs.map_values(|a: AttrView| a.text), " "@)
                + (if excluded.contains(f.name) { f.vis } else { "pub"@ }) + " "@ + f.name + ": "@ + f.ty, t)
        }),
{
    broadcast use group_occurs;
    let s = struct_of(item)->Ok_0;
    let fs = s.fields->0;
    let f = fs[i];
    let excluded = excluded_of(attr)->Fields_0;
    let w = terminated(f.attrs.map_values(|a: AttrView| a.text), " "@)
        + (if excluded.contains(f.name) { f.vis } else { "pub"@ }) + " "@ + f.name + ": "@ + f.ty;
    let published = published_all(fs, excluded);
    assert(t == struct_text(s, published));
    assert(attr_texts(f.attrs) =~= f.attrs.map_values(|a: AttrView| a.text));
    assert(field_texts(published)[i] == w);
    lemma_occurs_separated(field_texts(published), ", "@, i);
    let head = terminated(s.attrs, " "@) + s.vis + " struct "@ + s.name + " "@ + s.generics + " "@ + s.where_clause + " { "@;
    let comma: Seq<char> = if s.trailing_comma { ","@ } else { Seq::empty() };
    assert(t == head + separated(field_texts(published), ", "@) + comma + " }"@);
    lemma_occurs_right(w, head, separated(field_texts(published), ", "@));
    lemma_occurs_left(w, head + separated(field_texts(published), ", "@), comma);
    lemma_occurs_left(w, head + separated(field_texts(published), ", "@) + comma, " }"@);
}

/// `private` writes the struct back with its own attributes and visibility:
/// its code begins with the struct's attributes, its visibility, `struct`
/// and its name.
pub proof fn law_private_keeps_header(item: Seq<char>, t: Seq<char>)
    requires
        private_of(item) == Ok::<Seq<char>, MacroErrorView>(t),
    ensures
        ({
            let s = struct_of(item)->Ok_0;
            begins_with(t, terminated(s.attrs, " "@) + s.vis + " struct "@ + s.name)
        }),
{
    broadcast use group_occurs;
    let s = struct_of(item)->Ok_0;
    let fields = s.fields->0;
    let p = terminated(s.attrs, " "@) + s.vis + " struct "@ + s.name;
    assert(t == p + " { "@ + terminated(field_texts(privatized_all(fields)), ", "@) + "} impl "@ + s.name + " { "@
        + terminated(getter_texts(fields), " "@) + "}"@);
    lemma_begins_self(p);
}

/// `public` writes the struct back with its own attributes, visibility,
/// name, generics and where clause: its code begins with them.
pub proof fn law_public_keeps_header(attr: Seq<char>, item: Seq<char>, t: Seq<char>)
    requires
        public_of(attr, item) == Ok::<Seq<char>, MacroErrorView>(t),
    ensures
        ({
            let s = struct_of(item)->Ok_0;
            begins_with(t, terminated(s.attrs, " "@) + s.vis + " struct "@ + s.name + " "@ + s.generics + " "@ + s.where_clause)
        }),
{
    broadcast use group_occurs;
    let s = struct_of(item)->Ok_0;
    let p = terminated(s.attrs, " "@) + s.vis + " struct "@ + s.name + " "@ + s.generics + " "@ + s.where_clause;
    let published = published_all(s.fields->0, excluded_of(attr)->Fields_0);
    let comma: Seq<char> = if s.trailing_comma { ","@ } else { Seq::empty() };
    assert(t == p + " { "@ + separated(field_texts(published), ", "@) + comma + " }"@);
    lemma_begins_self(p);
}

} // verus!
