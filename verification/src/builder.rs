//! The builder derive: for a struct `S` with named fields, a struct
//! `SBuilder` holding an `Option` per field, a setter per field, a `build`
//! that unwraps every field, and `S::builder()` that starts with nothing set.

use vstd::prelude::*;
use crate::error::{MacroError, MacroErrorView};
use crate::item::{Field, FieldView, field_views};
use crate::syntax::{read_struct, struct_of};
use crate::text::{group_occurs, ident_fragment, lemma_begins_occurs, lemma_begins_self, lemma_occurs_left, lemma_occurs_right, lemma_occurs_terminated, lemma_occurs_trans, occurs_in, push_fragment, push_terminated, same_text, terminated, views};
use crate::tokens::{string_literal, string_literal_of};

verus! {

/// The definition of a field's slot in the builder: `<name>: Option<<type>>`.
pub open spec fn field_definition(f: FieldView) -> Seq<char> {
    f.name + ": Option<"@ + f.ty + ">"@
}

/// Whether a field's type is a path whose first segment is `String`.
pub open spec fn is_string_type(f: FieldView) -> bool {
    f.ty_head == Some("String"@)
}

/// The assignment of a field in `build`: the field's value, or a panic
/// naming the field when it was not set (`field not set: <name>` for a
/// `String` field, `field <name> not set` for any other).
pub open spec fn field_setter(f: FieldView) -> Seq<char> {
    if is_string_type(f) {
        f.name + ": self."@ + f.name + ".expect(concat!(\"field not set: \", "@ + string_literal_of(f.name) + "))"@
    } else {
        f.name + ": self."@ + f.name + ".expect(&format!(\"field {} not set\", "@ + string_literal_of(f.name) + "))"@
    }
}

/// The initialisation of a field's slot in `builder()`: `<name>: None`.
pub open spec fn field_init(f: FieldView) -> Seq<char> {
    f.name + ": None"@
}

/// The setter method of a field, which takes the builder and gives it back.
pub open spec fn field_method(f: FieldView) -> Seq<char> {
    "pub fn "@ + f.name + "(mut self, input: "@ + f.ty + ") -> Self { self."@ + f.name
        + " = Some(input); self }"@
}

pub open spec fn each(f: Seq<FieldView>, g: spec_fn(FieldView) -> Seq<char>) -> Seq<Seq<char>> {
    f.map_values(|x: FieldView| g(x))
}

/// The slot definitions, one per field, in order.
pub fn builder_field_definitions(fields: &Vec<Field>) -> (res: Vec<String>)
    ensures
        views(res@) == each(field_views(fields@), |f: FieldView| field_definition(f)),
{
    let mut out: Vec<String> = Vec::new();
    let n = fields.len();
    let mut i: usize = 0;
    while i < n
        invariant
            n == fields.len(),
            i <= n,
            out@.len() == i,
            forall|k: int| 0 <= k < i ==> #[trigger] out@[k]@ == field_definition(fields@[k]@),
        decreases n - i,
    {
        let mut s = String::from_str(fields[i].name.as_str());
        s.append(": Option<");
        s.append(fields[i].ty.as_str());
        s.append(">");
        out.push(s);
        i = i + 1;
    }
    proof {
        assert(views(out@) =~= each(field_views(fields@), |f: FieldView| field_definition(f)));
    }
    out
}

fn type_is_string(f: &Field) -> (res: bool)
    ensures
        res == is_string_type(f@),
{
    proof { reveal_strlit("String"); }
    match &f.ty_head {
        Some(h) => same_text(h.as_str(), "String"),
        None => false,
    }
}

/// The assignments of `build`, one per field, in order.
pub fn original_struct_setters(fields: &Vec<Field>) -> (res: Vec<String>)
    ensures
        views(res@) == each(field_views(fields@), |f: FieldView| field_setter(f)),
{
    let mut out: Vec<String> = Vec::new();
    let n = fields.len();
    let mut i: usize = 0;
    while i < n
        invariant
            n == fields.len(),
            i <= n,
            out@.len() == i,
            forall|k: int| 0 <= k < i ==> #[trigger] out@[k]@ == field_setter(fields@[k]@),
        decreases n - i,
    {
        let f = &fields[i];
        let name_literal = string_literal(f.name.as_str());
        let mut s = String::from_str(f.name.as_str());
        s.append(": self.");
        s.append(f.name.as_str());
        if type_is_string(f) {
            s.append(".expect(concat!(\"field not set: \", ");
        } else {
            s.append(".expect(&format!(\"field {} not set\", ");
        }
        s.append(name_literal.as_str());
        s.append("))");
        out.push(s);
        i = i + 1;
    }
    proof {
        assert(views(out@) =~= each(field_views(fields@), |f: FieldView| field_setter(f)));
    }
    out
}

/// The initialisations of `builder()`, one per field, in order.
pub fn builder_field_init(fields: &Vec<Field>) -> (res: Vec<String>)
    ensures
        views(res@) == each(field_views(fields@), |f: FieldView| field_init(f)),
{
    let mut out: Vec<String> = Vec::new();
    let n = fields.len();
    let mut i: usize = 0;
    while i < n
        invariant
            n == fields.len(),
            i <= n,
            out@.len() == i,
            forall|k: int| 0 <= k < i ==> #[trigger] out@[k]@ == field_init(fields@[k]@),
        decreases n - i,
    {
        let mut s = String::from_str(fields[i].name.as_str());
        s.append(": None");
        out.push(s);
        i = i + 1;
    }
    proof {
        assert(views(out@) =~= each(field_views(fields@), |f: FieldView| field_init(f)));
    }
    out
}

/// The setter methods, one per field, in order.
pub fn builder_methods(fields: &Vec<Field>) -> (res: Vec<String>)
    ensures
        views(res@) == each(field_views(fields@), |f: FieldView| field_method(f)),
{
    let mut out: Vec<String> = Vec::new();
    let n = fields.len();
    let mut i: usize = 0;
    while i < n
        invariant
            n == fields.len(),
            i <= n,
            out@.len() == i,
            forall|k: int| 0 <= k < i ==> #[trigger] out@[k]@ == field_method(fields@[k]@),
        decreases n - i,
    {
        let f = &fields[i];
        let mut s = String::from_str("pub fn ");
        s.append(f.name.as_str());
        s.append("(mut self, input: ");
        s.append(f.ty.as_str());
        s.append(") -> Self { self.");
        s.append(f.name.as_str());
        s.append(" = Some(input); self }");
        out.push(s);
        i = i + 1;
    }
    proof {
        assert(views(out@) =~= each(field_views(fields@), |f: FieldView| field_method(f)));
    }
    out
}

/// The code that the builder derive writes for the struct `name` with the
/// given fields.
pub open spec fn builder_text(name: Seq<char>, fields: Seq<FieldView>) -> Seq<char> {
    let builder = ident_fragment(name) + "Builder"@;
    "struct "@ + builder + " { "@ + terminated(each(fields, |f: FieldView| field_definition(f)), ", "@)
        + "} impl "@ + builder + " { "@ + terminated(each(fields, |f: FieldView| field_method(f)), " "@)
        + "pub fn build(self) -> "@ + name + " { "@ + name + " { "@
        + terminated(each(fields, |f: FieldView| field_setter(f)), ", "@) + "} } } impl "@ + name
        + " { pub fn builder() -> "@ + builder + " { "@ + builder + " { "@
        + terminated(each(fields, |f: FieldView| field_init(f)), ", "@) + "} } }"@
}

/// Each field's slot in the builder holds the field's whole type, and the
/// field's setter takes that same type: the builder's code holds
/// `<name>: Option<<type>>` and `pub fn <name>(mut self, input: <type>) -> Self`
/// for every field.
pub proof fn law_slot_and_setter_share_the_type(name: Seq<char>, fields: Seq<FieldView>)
    ensures
        forall|i: int| 0 <= i < fields.len() ==> occurs_in(
            (#[trigger] fields[i]).name + ": Option<"@ + fields[i].ty + ">"@, builder_text(name, fields)),
        forall|i: int| 0 <= i < fields.len() ==> occurs_in(
            "pub fn "@ + (#[trigger] fields[i]).name + "(mut self, input: "@ + fields[i].ty + ") -> Self"@,
            builder_text(name, fields)),
{
    broadcast use group_occurs;
    let defs = each(fields, |f: FieldView| field_definition(f));
    let methods = each(fields, |f: FieldView| field_method(f));
    let builder = ident_fragment(name) + "Builder"@;
    let p1 = "struct "@ + builder + " { "@;
    let p2 = p1 + terminated(defs, ", "@) + "} impl "@ + builder + " { "@;
    let r2 = "pub fn build(self) -> "@ + name + " { "@ + name + " { "@
        + terminated(each(fields, |f: FieldView| field_setter(f)), ", "@) + "} } } impl "@ + name
        + " { pub fn builder() -> "@ + builder + " { "@ + builder + " { "@
        + terminated(each(fields, |f: FieldView| field_init(f)), ", "@) + "} } }"@;
    assert forall|i: int| 0 <= i < fields.len() implies occurs_in(
        (#[trigger] fields[i]).name + ": Option<"@ + fields[i].ty + ">"@, builder_text(name, fields)) by {
        let w = fields[i].name + ": Option<"@ + fields[i].ty + ">"@;
        assert(defs[i] == w);
        lemma_occurs_terminated(defs, ", "@, i);
        lemma_occurs_right(w, p1, terminated(defs, ", "@));
        assert(occurs_in(w, p2));
        assert(builder_text(name, fields) == p2 + terminated(methods, " "@) + r2);
        lemma_occurs_left(w, p2, terminated(methods, " "@));
        lemma_occurs_left(w, p2 + terminated(methods, " "@), r2);
    }
    assert forall|i: int| 0 <= i < fields.len() implies occurs_in(
        "pub fn "@ + (#[trigger] fields[i]).name + "(mut self, input: "@ + fields[i].ty + ") -> Self"@,
        builder_text(name, fields)) by {
        let w = "pub fn "@ + fields[i].name + "(mut self, input: "@ + fields[i].ty + ") -> Self"@;
        let rest = " { self."@ + fields[i].name + " = Some(input); self }"@;
        reveal_strlit(") -> Self { self.");
        reveal_strlit(") -> Self");
        reveal_strlit(" { self.");
        assert(") -> Self { self."@ =~= ") -> Self"@ + " { self."@);
        assert(methods[i] =~= w + rest);
        lemma_begins_self(w);
        lemma_begins_occurs(w + rest, w);
        lemma_occurs_terminated(methods, " "@, i);
        lemma_occurs_trans(w, methods[i], terminated(methods, " "@));
        lemma_occurs_right(w, p2, terminated(methods, " "@));
        assert(builder_text(name, fields) == p2 + terminated(methods, " "@) + r2);
        lemma_occurs_left(w, p2 + terminated(methods, " "@), r2);
    }
}

/// `builder()` starts every field's slot empty and `build` takes every
/// field's value out of its slot: the builder's code holds `<name>: None` and
/// `<name>: self.<name>.expect(` for every field.
pub proof fn law_every_field_initialised_and_built(name: Seq<char>, fields: Seq<FieldView>)
    ensures
        forall|i: int| 0 <= i < fields.len() ==> occurs_in(
            (#[trigger] fields[i]).name + ": None"@, builder_text(name, fields)),
        forall|i: int| 0 <= i < fields.len() ==> occurs_in(
            (#[trigger] fields[i]).name + ": self."@ + fields[i].name + ".expect("@, builder_text(name, fields)),
{
    broadcast use group_occurs;
    let builder = ident_fragment(name) + "Builder"@;
    let setters = each(fields, |f: FieldView| field_setter(f));
    let inits = each(fields, |f: FieldView| field_init(f));
    let p1 = "struct "@ + builder + " { "@ + terminated(each(fields, |f: FieldView| field_definition(f)), ", "@)
        + "} impl "@ + builder + " { "@ + terminated(each(fields, |f: FieldView| field_method(f)), " "@)
        + "pub fn build(self) -> "@ + name + " { "@ + name + " { "@;
    let p2 = p1 + terminated(setters, ", "@) + "} } } impl "@ + name + " { pub fn builder() -> "@ + builder + " { "@
        + builder + " { "@;
    assert(builder_text(name, fields) == p2 + terminated(inits, ", "@) + "} } }"@);
    assert forall|i: int| 0 <= i < fields.len() implies occurs_in(
        (#[trigger] fields[i]).name + ": None"@, builder_text(name, fields)) by {
        let w = fields[i].name + ": None"@;
        assert(inits[i] == w);
        lemma_occurs_terminated(inits, ", "@, i);
        lemma_occurs_right(w, p2, terminated(inits, ", "@));
        lemma_occurs_left(w, p2 + terminated(inits, ", "@), "} } }"@);
    }
    assert forall|i: int| 0 <= i < fields.len() implies occurs_in(
        (#[trigger] fields[i]).name + ": self."@ + fields[i].name + ".expect("@, builder_text(name, fields)) by {
        let w = fields[i].name + ": self."@ + fields[i].name + ".expect("@;
        reveal_strlit(".expect(");
        reveal_strlit(".expect(concat!(\"field not set: \", ");
        reveal_strlit(".expect(&format!(\"field {} not set\", ");
        let rest: Seq<char> = if is_string_type(fields[i]) {
            "concat!(\"field not set: \", "@ + string_literal_of(fields[i].name) + "))"@
        } else {
            "&format!(\"field {} not set\", "@ + string_literal_of(fields[i].name) + "))"@
        };
        reveal_strlit("concat!(\"field not set: \", ");
        reveal_strlit("&format!(\"field {} not set\", ");
        assert(setters[i] =~= w + rest);
        lemma_begins_self(w);
        lemma_begins_occurs(w + rest, w);
        lemma_occurs_terminated(setters, ", "@, i);
        lemma_occurs_trans(w, setters[i], terminated(setters, ", "@));
        lemma_occurs_right(w, p1, terminated(setters, ", "@));
        assert(occurs_in(w, p2));
        lemma_occurs_left(w, p2, terminated(inits, ", "@));
        lemma_occurs_left(w, p2 + terminated(inits, ", "@), "} } }"@);
    }
}

/// Whether the builder derive panics on `item`: the item does not parse, or
/// is not a struct with named fields.
pub open spec fn create_builder_panics(item: Seq<char>) -> bool {
    !(struct_of(item) matches Ok(s) && s.fields is Some)
}

/// What the builder derive writes for `item`.
pub open spec fn create_builder_of(item: Seq<char>) -> Seq<char> {
    let s = struct_of(item)->Ok_0;
    builder_text(s.name, s.fields->0)
}

/// The builder derive: the builder struct, its setters and `build`, and
/// `builder()` for the struct with named fields in `item`.
pub fn create_builder(item: &str) -> (res: String)
    requires
        !create_builder_panics(item@),
    ensures
        res@ == create_builder_of(item@),
{
    let s = match read_struct(item) {
        Ok(s) => s,
        Err(_) => {
            proof { assert(false); }
            return String::new();
        },
    };
    let fields = match &s.fields {
        Some(f) => f,
        None => {
            proof { assert(false); }
            return String::new();
        },
    };
    let mut builder = String::new();
    push_fragment(&mut builder, s.name.as_str());
    builder.append("Builder");
    let definitions = builder_field_definitions(fields);
    let inits = builder_field_init(fields);
    let methods = builder_methods(fields);
    let setters = original_struct_setters(fields);
    let mut out = String::from_str("struct ");
    out.append(builder.as_str());
    out.append(" { ");
    push_terminated(&mut out, &definitions, ", ");
    out.append("} impl ");
    out.append(builder.as_str());
    out.append(" { ");
    push_terminated(&mut out, &methods, " ");
    out.append("pub fn build(self) -> ");
    out.append(s.name.as_str());
    out.append(" { ");
    out.append(s.name.as_str());
    out.append(" { ");
    push_terminated(&mut out, &setters, ", ");
    out.append("} } } impl ");
    out.append(s.name.as_str());
    out.append(" { pub fn builder() -> ");
    out.append(builder.as_str());
    out.append(" { ");
    out.append(builder.as_str());
    out.append(" { ");
    push_terminated(&mut out, &inits, ", ");
    out.append("} } }");
    out
}

/// The builder derive on any input: the parse error, or the message that
/// it only handles structs with named fields, where `create_builder` panics.
pub fn try_create_builder(item: &str) -> (res: Result<String, MacroError>)
    ensures
        res matches Ok(t) ==> !create_builder_panics(item@) && t@ == create_builder_of(item@),
        res matches Err(e) ==> create_builder_panics(item@) && match struct_of(item@) {
            Err(m) => e@ == MacroErrorView::Syntax(m),
            Ok(_) => e@ == MacroErrorView::Unsupported("only implemented for structs with named fields"@),
        },
{
    match read_struct(item) {
        Err(e) => Err(MacroError::Syntax(e)),
        Ok(s) => match s.fields {
            None => Err(MacroError::Unsupported(String::from_str("only implemented for structs with named fields"))),
            Some(_) => Ok(create_builder(item)),
        },
    }
}

} // verus!
