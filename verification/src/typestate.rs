//! The typestate builder: a builder generic over a marker type, one marker
//! per field, whose setters must be called in the order of the fields and
//! whose `build` is only offered once the last field is set. Field
//! attributes `#[builder(rename = "..")]` and `#[builder(uppercase)]` rename
//! a setter and upper-case a field's value.

use vstd::prelude::*;
use crate::item::{Attr, AttrView, Field, FieldView, attr_views, path_is_ident};
use crate::text::{group_occurs, ident_fragment, lemma_occurs_left, lemma_occurs_right, lemma_occurs_terminated, lemma_occurs_trans, lemma_begins_left, lemma_begins_occurs, lemma_begins_self, occurs_in, push_fragment, push_terminated, same_text, terminated, views};
use crate::tokens::{Tok, TokView, is_punct, lex, lexed_of, string_literal, string_literal_of, string_value, string_value_of, tok_views};

verus! {

/// The name of the builder of the struct `name`.
pub open spec fn builder_ident(name: Seq<char>) -> Seq<char> {
    ident_fragment(name) + "Builder"@
}

/// The name of the marker struct for the state in which `field` is next.
pub open spec fn field_struct_name(builder: Seq<char>, field: Seq<char>) -> Seq<char> {
    ident_fragment(field) + "Of"@ + ident_fragment(builder)
}

/// `<name>Builder`.
pub fn create_builder_ident(name: &str) -> (res: String)
    ensures
        res@ == builder_ident(name@),
{
    let mut out = String::new();
    push_fragment(&mut out, name);
    out.append("Builder");
    out
}

/// `<field>Of<builder>`.
pub fn create_field_struct_name(builder: &str, field: &str) -> (res: String)
    ensures
        res@ == field_struct_name(builder@, field@),
{
    let mut out = String::new();
    push_fragment(&mut out, field);
    out.append("Of");
    push_fragment(&mut out, builder);
    out
}

/// A field's name and type.
pub fn get_name_and_type(f: &Field) -> (res: (&String, &String))
    ensures
        res.0@ == f.name@,
        res.1@ == f.ty@,
{
    (&f.name, &f.ty)
}

/// What a field's `builder` attributes ask for.
pub struct FieldModifiers {
    pub rename: Option<String>,
    pub uppercase: bool,
}

pub struct ModifiersView {
    pub rename: Option<Seq<char>>,
    pub uppercase: bool,
}

impl View for FieldModifiers {
    type V = ModifiersView;

    open spec fn view(&self) -> ModifiersView {
        ModifiersView {
            rename: match self.rename {
                Some(r) => Some(r@),
                None => None,
            },
            uppercase: self.uppercase,
        }
    }
}

/// Whether `text` is an identifier by itself: it lexes to that one
/// identifier token (a raw one, `r#name`, included). `format_ident!` makes
/// an identifier of `text` exactly then, and panics otherwise.
pub open spec fn is_ident_text(text: Seq<char>) -> bool {
    lexed_of(text) == Some(seq![TokView::Ident(text)])
}

/// Whether the tokens start with `rename = <string literal>` whose value is
/// an identifier.
pub open spec fn is_rename_item(t: Seq<TokView>) -> bool {
    &&& t.len() >= 3
    &&& t[0] == TokView::Ident("rename"@)
    &&& is_punct(t[1], '=')
    &&& t[2] matches TokView::Literal(l) && string_value_of(l) matches Some(v) && is_ident_text(v)
}

/// The value of the string literal of a `rename` item.
pub open spec fn rename_value(t: Seq<TokView>) -> Seq<char> {
    match t[2] {
        TokView::Literal(l) => string_value_of(l)->0,
        _ => Seq::empty(),
    }
}

/// The modifiers after the nested items `t` of a `builder(..)` attribute,
/// starting from `m`: a comma separated list (a trailing comma allowed) of
/// at least one item, each `uppercase` or `rename = "<name>"` with `<name>`
/// an identifier; `None` for anything else (where the reading panics).
pub open spec fn nested_meta(t: Seq<TokView>, m: ModifiersView) -> Option<ModifiersView>
    decreases t.len(),
{
    if t.len() == 0 {
        None
    } else {
        let k: int = if t[0] == TokView::Ident("uppercase"@) { 1 } else if is_rename_item(t) { 3 } else { 0 };
        if k == 0 {
            None
        } else {
            let m2 = if k == 1 {
                ModifiersView { rename: m.rename, uppercase: true }
            } else {
                ModifiersView { rename: Some(rename_value(t)), uppercase: m.uppercase }
            };
            let rest = t.skip(k);
            if rest.len() == 0 {
                Some(m2)
            } else if is_punct(rest[0], ',') {
                if rest.len() == 1 {
                    Some(m2)
                } else {
                    nested_meta(rest.skip(1), m2)
                }
            } else {
                None
            }
        }
    }
}

/// The modifiers that a field's attributes ask for, read in order; `None`
/// where the reading panics: a `builder` attribute that is not a list, or
/// whose items are not as `nested_meta` reads them. An empty list asks for
/// nothing.
pub open spec fn modifiers_of(attrs: Seq<AttrView>) -> Option<ModifiersView>
    decreases attrs.len(),
{
    if attrs.len() == 0 {
        Some(ModifiersView { rename: None, uppercase: false })
    } else {
        match modifiers_of(attrs.drop_last()) {
            None => None,
            Some(m) => {
                let a = attrs.last();
                if !path_is_ident(a, "builder"@) {
                    Some(m)
                } else {
                    match a.list {
                        None => None,
                        Some(l) => match lexed_of(l) {
                            None => None,
                            Some(t) => if t.len() == 0 { Some(m) } else { nested_meta(t, m) },
                        },
                    }
                }
            },
        }
    }
}

/// Whether `text` lexes to that one identifier.
fn ident_text(text: &str) -> (res: bool)
    ensures
        res == is_ident_text(text@),
{
    match lex(text) {
        None => false,
        Some(toks) => {
            if toks.len() != 1 {
                proof {
                    if is_ident_text(text@) {
                        assert(tok_views(toks@).len() == 1);
                    }
                }
                return false;
            }
            let r = match &toks[0] {
                Tok::Ident(w) => same_text(w.as_str(), text),
                _ => false,
            };
            proof {
                assert(tok_views(toks@)[0] == toks@[0]@);
                if r {
                    assert(tok_views(toks@) =~= seq![TokView::Ident(text@)]);
                }
            }
            r
        },
    }
}

/// Whether the attribute's path is the single identifier `builder`.
fn attr_is_builder(a: &Attr) -> (res: bool)
    ensures
        res == path_is_ident(a@, "builder"@),
{
    if a.leading_colon || a.path.len() != 1 {
        return false;
    }
    proof { assert(views(a.path@)[0] == a.path@[0]@); }
    same_text(a.path[0].as_str(), "builder")
}

fn tok_is_ident(t: &Tok, word: &str) -> (res: bool)
    ensures
        res == (t@ == TokView::Ident(word@)),
{
    match t {
        Tok::Ident(s) => same_text(s.as_str(), word),
        _ => false,
    }
}

fn tok_is_punct(t: &Tok, c: char) -> (res: bool)
    ensures
        res == is_punct(t@, c),
{
    match t {
        Tok::Punct(p, _) => *p == c,
        _ => false,
    }
}

fn nested_from(t: &Vec<Tok>, i: usize, m: FieldModifiers) -> (res: Option<FieldModifiers>)
    requires
        i <= t.len(),
    ensures
        res matches Some(r) ==> nested_meta(tok_views(t@).skip(i as int), m@) == Some(r@),
        res is None ==> nested_meta(tok_views(t@).skip(i as int), m@) is None,
    decreases t.len() - i,
{
    let ghost s = tok_views(t@).skip(i as int);
    let n = t.len();
    if i == n {
        return None;
    }
    proof {
        reveal_strlit("uppercase");
        reveal_strlit("rename");
        assert(s[0] == t@[i as int]@);
    }
    let mut k: usize = 0;
    let mut m2 = m;
    if tok_is_ident(&t[i], "uppercase") {
        k = 1;
        m2.uppercase = true;
    } else if n - i >= 3 && tok_is_ident(&t[i], "rename") && tok_is_punct(&t[i + 1], '=') {
        proof {
            assert(s[1] == t@[i + 1]@);
            assert(s[2] == t@[i + 2]@);
        }
        match &t[i + 2] {
            Tok::Literal(l) => match string_value(l.as_str()) {
                Some(v) => {
                    if ident_text(v.as_str()) {
                        k = 3;
                        m2.rename = Some(v);
                    }
                },
                None => {},
            },
            _ => {},
        }
    } else {
        proof {
            if n - i >= 3 {
                assert(s[1] == t@[i + 1]@);
            }
        }
    }
    if k == 0 {
        return None;
    }
    let j = i + k;
    proof {
        assert(tok_views(t@).skip(j as int) =~= s.skip(k as int));
    }
    if j == n {
        return Some(m2);
    }
    if tok_is_punct(&t[j], ',') {
        proof {
            assert(s.skip(k as int)[0] == t@[j as int]@);
        }
        if j + 1 == n {
            return Some(m2);
        }
        proof {
            assert(tok_views(t@).skip(j + 1) =~= s.skip(k as int).skip(1));
        }
        nested_from(t, j + 1, m2)
    } else {
        proof {
            assert(s.skip(k as int)[0] == t@[j as int]@);
        }
        None
    }
}

impl FieldModifiers {
    /// The modifiers that `attrs` ask for; `None` where the reading panics.
    pub fn try_parse(attrs: &Vec<Attr>) -> (res: Option<FieldModifiers>)
        ensures
            res matches Some(m) ==> modifiers_of(attr_views(attrs@)) == Some(m@),
            res is None ==> modifiers_of(attr_views(attrs@)) is None,
    {
        let mut m = FieldModifiers { rename: None, uppercase: false };
        let n = attrs.len();
        let mut i: usize = 0;
        while i < n
            invariant
                n == attrs.len(),
                i <= n,
                modifiers_of(attr_views(attrs@).take(i as int)) == Some(m@),
            decreases n - i,
        {
            proof {
                let a = attr_views(attrs@);
                assert(a.take(i + 1).drop_last() =~= a.take(i as int));
                assert(a.take(i + 1).last() == attrs@[i as int]@);
            }
            let a = &attrs[i];
            if attr_is_builder(a) {
                let list = match &a.list {
                    Some(l) => l,
                    None => {
                        proof {
                            assert(modifiers_of(attr_views(attrs@).take(i + 1)) is None);
                            lemma_modifiers_none_extends(attr_views(attrs@), i as int + 1);
                            assert(attr_views(attrs@).take(n as int) =~= attr_views(attrs@));
                        }
                        return None;
                    },
                };
                let toks = match lex(list.as_str()) {
                    Some(t) => t,
                    None => {
                        proof {
                            assert(modifiers_of(attr_views(attrs@).take(i + 1)) is None);
                            lemma_modifiers_none_extends(attr_views(attrs@), i as int + 1);
                            assert(attr_views(attrs@).take(n as int) =~= attr_views(attrs@));
                        }
                        return None;
                    },
                };
                proof {
                    assert(tok_views(toks@).skip(0) =~= tok_views(toks@));
                }
                if toks.len() == 0 {
                    i = i + 1;
                    continue;
                }
                m = match nested_from(&toks, 0, m) {
                    Some(m2) => m2,
                    None => {
                        proof {
                            assert(modifiers_of(attr_views(attrs@).take(i + 1)) is None);
                            lemma_modifiers_none_extends(attr_views(attrs@), i as int + 1);
                            assert(attr_views(attrs@).take(n as int) =~= attr_views(attrs@));
                        }
                        return None;
                    },
                };
            }
            i = i + 1;
        }
        proof {
            assert(attr_views(attrs@).take(n as int) =~= attr_views(attrs@));
        }
        Some(m)
    }

    /// The modifiers that `attrs` ask for.
    pub fn parse(attrs: &Vec<Attr>) -> (res: FieldModifiers)
        requires
            modifiers_of(attr_views(attrs@)) is Some,
        ensures
            modifiers_of(attr_views(attrs@)) == Some(res@),
    {
        match FieldModifiers::try_parse(attrs) {
            Some(m) => m,
            None => FieldModifiers { rename: None, uppercase: false },
        }
    }
}

proof fn lemma_modifiers_none_extends(a: Seq<AttrView>, i: int)
    requires
        0 <= i <= a.len(),
        modifiers_of(a.take(i)) is None,
    ensures
        modifiers_of(a) is None,
    decreases a.len() - i,
{
    if i < a.len() {
        assert(a.take(i + 1).drop_last() =~= a.take(i));
        lemma_modifiers_none_extends(a, i + 1);
    } else {
        assert(a.take(i) =~= a);
    }
}


/// A field with the modifiers that its attributes ask for.
pub struct FieldWrapper {
    pub field: Field,
    pub modifiers: FieldModifiers,
}

pub struct WrapperView {
    pub field: FieldView,
    pub modifiers: ModifiersView,
}

impl View for FieldWrapper {
    type V = WrapperView;

    open spec fn view(&self) -> WrapperView {
        WrapperView { field: self.field@, modifiers: self.modifiers@ }
    }
}

pub open spec fn wrapper_views(w: Seq<FieldWrapper>) -> Seq<WrapperView> {
    w.map_values(|x: FieldWrapper| x@)
}

impl FieldWrapper {
    /// Wraps a field with the modifiers that its attributes ask for.
    pub fn from(value: Field) -> (res: FieldWrapper)
        requires
            modifiers_of(value@.attrs) is Some,
        ensures
            res@.field == value@,
            modifiers_of(value@.attrs) == Some(res@.modifiers),
    {
        let modifiers = FieldModifiers::parse(&value.attrs);
        FieldWrapper { field: value, modifiers }
    }

    /// Wraps a field; `None` where reading its modifiers panics.
    pub fn try_from(value: Field) -> (res: Option<FieldWrapper>)
        ensures
            res is None <==> modifiers_of(value@.attrs) is None,
            res matches Some(w) ==> w@.field == value@ && modifiers_of(value@.attrs) == Some(w@.modifiers),
    {
        match FieldModifiers::try_parse(&value.attrs) {
            Some(modifiers) => Some(FieldWrapper { field: value, modifiers }),
            None => None,
        }
    }
}

/// What the struct's `build` does with a field that was never set.
pub enum ConcreteFallbackStrategy {
    /// Uses the type's default.
    Default,
    /// Panics, naming the field.
    Panic,
}

/// The method call that takes a field's value out of its `Option`.
pub open spec fn fallback_text(strategy: ConcreteFallbackStrategy, field_name: Seq<char>) -> Seq<char> {
    match strategy {
        ConcreteFallbackStrategy::Default => "unwrap_or_default()"@,
        ConcreteFallbackStrategy::Panic =>
            "expect(concat!(\"field not set: \", "@ + string_literal_of(field_name) + "))"@,
    }
}

impl ConcreteFallbackStrategy {
    /// The call that takes the value of the field `field_name_as_string`.
    pub fn fallback(&self, field_name_as_string: String) -> (res: String)
        ensures
            res@ == fallback_text(*self, field_name_as_string@),
    {
        match self {
            ConcreteFallbackStrategy::Default => String::from_str("unwrap_or_default()"),
            ConcreteFallbackStrategy::Panic => {
                let mut out = String::from_str("expect(concat!(\"field not set: \", ");
                let lit = string_literal(field_name_as_string.as_str());
                out.append(lit.as_str());
                out.append("))");
                out
            },
        }
    }
}

/// The assignment of a field in `build`: its value taken with the fallback,
/// then upper-cased when the field asks for it.
pub open spec fn setter_text(w: WrapperView, strategy: ConcreteFallbackStrategy) -> Seq<char> {
    let name = w.field.name;
    name + ": self."@ + name + "."@ + fallback_text(strategy, name)
        + if w.modifiers.uppercase { ".to_ascii_uppercase()"@ } else { Seq::empty() }
}

pub open spec fn setter_texts(w: Seq<WrapperView>, strategy: ConcreteFallbackStrategy) -> Seq<Seq<char>> {
    w.map_values(|x: WrapperView| setter_text(x, strategy))
}

fn original_struct_setters(fields: &Vec<FieldWrapper>, fallback_strategy: ConcreteFallbackStrategy) -> (res: Vec<String>)
    ensures
        views(res@) == setter_texts(wrapper_views(fields@), fallback_strategy),
{
    let mut out: Vec<String> = Vec::new();
    let n = fields.len();
    let mut i: usize = 0;
    while i < n
        invariant
            n == fields.len(),
            i <= n,
            out@.len() == i,
            forall|k: int| 0 <= k < i ==> #[trigger] out@[k]@ == setter_text(fields@[k]@, fallback_strategy),
        decreases n - i,
    {
        let f = &fields[i];
        let handle_missing = fallback_strategy.fallback(f.field.name.clone());
        let mut s = f.field.name.clone();
        s.append(": self.");
        s.append(f.field.name.as_str());
        s.append(".");
        s.append(handle_missing.as_str());
        if f.modifiers.uppercase {
            s.append(".to_ascii_uppercase()");
        }
        out.push(s);
        i = i + 1;
    }
    proof {
        assert(views(out@) =~= setter_texts(wrapper_views(fields@), fallback_strategy));
    }
    out
}

/// The marker struct of the state in which field `w` is next.
pub open spec fn state_of(name: Seq<char>, w: WrapperView) -> Seq<char> {
    field_struct_name(builder_ident(name), w.field.name)
}

/// A marker struct with its impl of the marker trait.
pub open spec fn marker_text(state: Seq<char>) -> Seq<char> {
    "#[allow(non_camel_case_types)] pub struct "@ + state + " {} impl MarkerTraitForBuilder for "@ + state + " {}"@
}

/// The marker trait, a marker struct per field, and the final state.
pub open spec fn markers_text(name: Seq<char>, fields: Seq<WrapperView>) -> Seq<char> {
    "pub trait MarkerTraitForBuilder {} "@
        + terminated(fields.map_values(|w: WrapperView| marker_text(state_of(name, w))), " "@)
        + "pub struct FinalBuilder {} impl MarkerTraitForBuilder for FinalBuilder {}"@
}

/// The marker trait, the marker struct of each field's state, and
/// `FinalBuilder`, the state in which every field is set.
pub fn marker_trait_and_structs(name: &str, fields: &Vec<FieldWrapper>) -> (res: String)
    ensures
        res@ == markers_text(name@, wrapper_views(fields@)),
{
    let builder_name = create_builder_ident(name);
    let mut markers: Vec<String> = Vec::new();
    let n = fields.len();
    let mut i: usize = 0;
    while i < n
        invariant
            n == fields.len(),
            i <= n,
            builder_name@ == builder_ident(name@),
            markers@.len() == i,
            forall|k: int| 0 <= k < i ==> #[trigger] markers@[k]@ == marker_text(state_of(name@, fields@[k]@)),
        decreases n - i,
    {
        let struct_name = create_field_struct_name(builder_name.as_str(), fields[i].field.name.as_str());
        let mut s = String::from_str("#[allow(non_camel_case_types)] pub struct ");
        s.append(struct_name.as_str());
        s.append(" {} impl MarkerTraitForBuilder for ");
        s.append(struct_name.as_str());
        s.append(" {}");
        markers.push(s);
        i = i + 1;
    }
    proof {
        assert(views(markers@) =~= wrapper_views(fields@).map_values(|w: WrapperView| marker_text(state_of(name@, w))));
    }
    let mut out = String::from_str("pub trait MarkerTraitForBuilder {} ");
    push_terminated(&mut out, &markers, " ");
    out.append("pub struct FinalBuilder {} impl MarkerTraitForBuilder for FinalBuilder {}");
    out
}

/// The marker text declares every field's state: for each field, a marker
/// struct named after the state in which the field is next, with its impl of
/// the marker trait; and it declares `FinalBuilder`.
pub proof fn law_markers_declare_every_state(name: Seq<char>, fields: Seq<WrapperView>)
    ensures
        forall|i: int| 0 <= i < fields.len() ==> occurs_in(
            "#[allow(non_camel_case_types)] pub struct "@ + #[trigger] state_of(name, fields[i])
                + " {} impl MarkerTraitForBuilder for "@ + state_of(name, fields[i]) + " {}"@,
            markers_text(name, fields)),
        occurs_in("pub struct FinalBuilder {} impl MarkerTraitForBuilder for FinalBuilder {}"@, markers_text(name, fields)),
{
    broadcast use group_occurs;
    let items = fields.map_values(|w: WrapperView| marker_text(state_of(name, w)));
    let head = "pub trait MarkerTraitForBuilder {} "@;
    let tail = "pub struct FinalBuilder {} impl MarkerTraitForBuilder for FinalBuilder {}"@;
    assert(markers_text(name, fields) == head + terminated(items, " "@) + tail);
    assert forall|i: int| 0 <= i < fields.len() implies occurs_in(
        "#[allow(non_camel_case_types)] pub struct "@ + #[trigger] state_of(name, fields[i])
            + " {} impl MarkerTraitForBuilder for "@ + state_of(name, fields[i]) + " {}"@,
        markers_text(name, fields)) by {
        lemma_occurs_terminated(items, " "@, i);
        lemma_occurs_right(items[i], head, terminated(items, " "@));
        lemma_occurs_left(items[i], head + terminated(items, " "@), tail);
    }
    lemma_occurs_right(tail, head + terminated(items, " "@), tail);
}

/// A field's slot in the builder.
pub open spec fn slot_text(w: WrapperView) -> Seq<char> {
    w.field.name + ": Option<"@ + w.field.ty + ">"@
}

/// The builder struct: generic over its state, with a slot per field.
pub open spec fn definition_text(name: Seq<char>, fields: Seq<WrapperView>) -> Seq<char> {
    "pub struct "@ + builder_ident(name) + "<T: MarkerTraitForBuilder> { marker: std::marker::PhantomData<T>, "@
        + terminated(fields.map_values(|w: WrapperView| slot_text(w)), ", "@) + "}"@
}

/// The builder struct of `name`.
pub fn builder_definition(name: &str, fields: &Vec<FieldWrapper>) -> (res: String)
    ensures
        res@ == definition_text(name@, wrapper_views(fields@)),
{
    let mut slots: Vec<String> = Vec::new();
    let n = fields.len();
    let mut i: usize = 0;
    while i < n
        invariant
            n == fields.len(),
            i <= n,
            slots@.len() == i,
            forall|k: int| 0 <= k < i ==> #[trigger] slots@[k]@ == slot_text(fields@[k]@),
        decreases n - i,
    {
        let (field_name, field_ty) = get_name_and_type(&fields[i].field);
        let mut s = field_name.clone();
        s.append(": Option<");
        s.append(field_ty.as_str());
        s.append(">");
        slots.push(s);
        i = i + 1;
    }
    proof {
        assert(views(slots@) =~= wrapper_views(fields@).map_values(|w: WrapperView| slot_text(w)));
    }
    let builder_name = create_builder_ident(name);
    let mut out = String::from_str("pub struct ");
    out.append(builder_name.as_str());
    out.append("<T: MarkerTraitForBuilder> { marker: std::marker::PhantomData<T>, ");
    push_terminated(&mut out, &slots, ", ");
    out.append("}");
    out
}

/// The builder struct has a slot for every field, holding the field's whole
/// type: `<name>: Option<<type>>`.
pub proof fn law_definition_has_every_slot(name: Seq<char>, fields: Seq<WrapperView>)
    ensures
        forall|i: int| 0 <= i < fields.len() ==> occurs_in(
            (#[trigger] fields[i]).field.name + ": Option<"@ + fields[i].field.ty + ">"@,
            definition_text(name, fields)),
{
    let slots = fields.map_values(|w: WrapperView| slot_text(w));
    let head = "pub struct "@ + builder_ident(name) + "<T: MarkerTraitForBuilder> { marker: std::marker::PhantomData<T>, "@;
    assert(definition_text(name, fields) == head + terminated(slots, ", "@) + "}"@);
    assert forall|i: int| 0 <= i < fields.len() implies occurs_in(
        (#[trigger] fields[i]).field.name + ": Option<"@ + fields[i].field.ty + ">"@,
        definition_text(name, fields)) by {
        let w = fields[i].field.name + ": Option<"@ + fields[i].field.ty + ">"@;
        assert(slots[i] == w);
        lemma_occurs_terminated(slots, ", "@, i);
        lemma_occurs_right(w, head, terminated(slots, ", "@));
        lemma_occurs_left(w, head + terminated(slots, ", "@), "}"@);
    }
}

/// A slot's initialisation in `builder()`.
pub open spec fn init_text(w: WrapperView) -> Seq<char> {
    w.field.name + ": None"@
}

/// `builder()` of the struct: a builder in the state of the first field,
/// with nothing set.
pub open spec fn impl_text(name: Seq<char>, fields: Seq<WrapperView>) -> Seq<char> {
    let b = builder_ident(name);
    "impl "@ + name + " { pub fn builder() -> "@ + b + "<"@ + state_of(name, fields[0]) + "> { "@ + b
        + " { marker: Default::default(), "@ + terminated(fields.map_values(|w: WrapperView| init_text(w)), ", "@)
        + "} } }"@
}

/// `builder()` of the struct `name`, which starts in the state of the first
/// field.
pub fn builder_impl_for_struct(name: &str, fields: &Vec<FieldWrapper>) -> (res: String)
    requires
        fields.len() > 0,
    ensures
        res@ == impl_text(name@, wrapper_views(fields@)),
{
    let mut inits: Vec<String> = Vec::new();
    let n = fields.len();
    let mut i: usize = 0;
    while i < n
        invariant
            n == fields.len(),
            i <= n,
            inits@.len() == i,
            forall|k: int| 0 <= k < i ==> #[trigger] inits@[k]@ == init_text(fields@[k]@),
        decreases n - i,
    {
        let mut s = fields[i].field.name.clone();
        s.append(": None");
        inits.push(s);
        i = i + 1;
    }
    proof {
        assert(views(inits@) =~= wrapper_views(fields@).map_values(|w: WrapperView| init_text(w)));
    }
    let builder_name = create_builder_ident(name);
    let generic = create_field_struct_name(builder_name.as_str(), fields[0].field.name.as_str());
    let mut out = String::from_str("impl ");
    out.append(name);
    out.append(" { pub fn builder() -> ");
    out.append(builder_name.as_str());
    out.append("<");
    out.append(generic.as_str());
    out.append("> { ");
    out.append(builder_name.as_str());
    out.append(" { marker: Default::default(), ");
    push_terminated(&mut out, &inits, ", ");
    out.append("} } }");
    out
}

/// A field's carrying over into the builder of the next state.
pub open spec fn assignment_text(w: WrapperView) -> Seq<char> {
    w.field.name + ": self."@ + w.field.name
}

pub open spec fn assignments_text(fields: Seq<WrapperView>) -> Seq<Seq<char>> {
    fields.map_values(|w: WrapperView| assignment_text(w))
}

fn get_assignments_for_fields(fields: &Vec<FieldWrapper>) -> (res: Vec<String>)
    ensures
        views(res@) == assignments_text(wrapper_views(fields@)),
{
    let mut out: Vec<String> = Vec::new();
    let n = fields.len();
    let mut i: usize = 0;
    while i < n
        invariant
            n == fields.len(),
            i <= n,
            out@.len() == i,
            forall|k: int| 0 <= k < i ==> #[trigger] out@[k]@ == assignment_text(fields@[k]@),
        decreases n - i,
    {
        let mut s = fields[i].field.name.clone();
        s.append(": self.");
        s.append(fields[i].field.name.as_str());
        out.push(s);
        i = i + 1;
    }
    proof {
        assert(views(out@) =~= assignments_text(wrapper_views(fields@)));
    }
    out
}

/// The setter that moves the builder from the state `from` to the state
/// `to`: it is called `method`, sets the slot of `w`, and carries every
/// slot over.
pub open spec fn transition_text(
    builder: Seq<char>,
    assignments: Seq<Seq<char>>,
    w: WrapperView,
    method: Seq<char>,
    from: Seq<char>,
    to: Seq<char>,
) -> Seq<char> {
    "impl "@ + builder + "<"@ + from + "> { pub fn "@ + method + "(mut self, input: "@ + w.field.ty + ") -> "@
        + builder + "<"@ + to + "> { self."@ + w.field.name + " = Some(input); "@ + builder
        + " { marker: Default::default(), "@ + terminated(assignments, ", "@) + "} } }"@
}

/// The name of a field's setter: the renamed name when the field asks for
/// one, the field's name otherwise.
pub open spec fn method_name(w: WrapperView) -> Seq<char> {
    match w.modifiers.rename {
        Some(r) => r,
        None => w.field.name,
    }
}

fn builder_for_field(
    builder_name: &String,
    field_assignments: &Vec<String>,
    current_field: &FieldWrapper,
    next_field_in_list: &FieldWrapper,
) -> (res: String)
    ensures
        res@ == transition_text(builder_name@, views(field_assignments@), current_field@, method_name(current_field@),
            field_struct_name(builder_name@, current_field@.field.name),
            field_struct_name(builder_name@, next_field_in_list@.field.name)),
{
    let (field_name, field_ty) = get_name_and_type(&current_field.field);
    let method = match &current_field.modifiers.rename {
        Some(r) => r.clone(),
        None => field_name.clone(),
    };
    let current_struct = create_field_struct_name(builder_name.as_str(), field_name.as_str());
    let next_struct = create_field_struct_name(builder_name.as_str(), next_field_in_list.field.name.as_str());
    transition(builder_name, field_assignments, field_name, field_ty, &method, &current_struct, &next_struct)
}

fn builder_for_final_field(
    builder_name: &String,
    field_assignments: &Vec<String>,
    field: &FieldWrapper,
) -> (res: String)
    ensures
        res@ == transition_text(builder_name@, views(field_assignments@), field@, field@.field.name,
            field_struct_name(builder_name@, field@.field.name), "FinalBuilder"@),
{
    let (field_name, field_ty) = get_name_and_type(&field.field);
    let field_struct_name = create_field_struct_name(builder_name.as_str(), field_name.as_str());
    let last = String::from_str("FinalBuilder");
    transition(builder_name, field_assignments, field_name, field_ty, field_name, &field_struct_name, &last)
}

fn transition(
    builder: &String,
    assignments: &Vec<String>,
    field_name: &String,
    field_ty: &String,
    method: &String,
    from: &String,
    to: &String,
) -> (res: String)
    ensures
        res@ == "impl "@ + builder@ + "<"@ + from@ + "> { pub fn "@ + method@ + "(mut self, input: "@ + field_ty@
            + ") -> "@ + builder@ + "<"@ + to@ + "> { self."@ + field_name@ + " = Some(input); "@ + builder@
            + " { marker: Default::default(), "@ + terminated(views(assignments@), ", "@) + "} } }"@,
{
    let mut out = String::from_str("impl ");
    out.append(builder.as_str());
    out.append("<");
    out.append(from.as_str());
    out.append("> { pub fn ");
    out.append(method.as_str());
    out.append("(mut self, input: ");
    out.append(field_ty.as_str());
    out.append(") -> ");
    out.append(builder.as_str());
    out.append("<");
    out.append(to.as_str());
    out.append("> { self.");
    out.append(field_name.as_str());
    out.append(" = Some(input); ");
    out.append(builder.as_str());
    out.append(" { marker: Default::default(), ");
    push_terminated(&mut out, assignments, ", ");
    out.append("} } }");
    out
}

/// The state that follows the one in which field `i` is next: that of
/// field `i + 1`, or `FinalBuilder` after the last field.
pub open spec fn next_state(name: Seq<char>, fields: Seq<WrapperView>, i: int) -> Seq<char> {
    if i + 1 < fields.len() { state_of(name, fields[i + 1]) } else { "FinalBuilder"@ }
}

/// The setter of field `i`. Every field's setter is called by its (renamed)
/// name, except the last field's, which keeps the field's name.
pub open spec fn method_text(name: Seq<char>, fields: Seq<WrapperView>, i: int) -> Seq<char> {
    let w = fields[i];
    transition_text(builder_ident(name), assignments_text(fields), w,
        if i + 1 < fields.len() { method_name(w) } else { w.field.name },
        state_of(name, w), next_state(name, fields, i))
}

/// The setters, last field first, then `build`, which is only offered in
/// the state `FinalBuilder` and takes every value, panicking on a missing
/// one.
pub open spec fn methods_text(name: Seq<char>, fields: Seq<WrapperView>) -> Seq<char> {
    let n = fields.len();
    terminated(Seq::new(n, |j: int| method_text(name, fields, n - 1 - j)), " "@)
        + "impl "@ + builder_ident(name) + "<FinalBuilder> { pub fn build(self) -> "@ + name + " { "@ + name + " { "@
        + terminated(setter_texts(fields, ConcreteFallbackStrategy::Panic), ", "@) + "} } }"@
}

/// The setters of every field and `build`.
pub fn builder_methods(struct_name: &str, fields: &Vec<FieldWrapper>) -> (res: String)
    ensures
        res@ == methods_text(struct_name@, wrapper_views(fields@)),
{
    let builder_name = create_builder_ident(struct_name);
    let set_fields = original_struct_setters(fields, ConcreteFallbackStrategy::Panic);
    let assignments_for_all_fields = get_assignments_for_fields(fields);
    let ghost w = wrapper_views(fields@);
    let n = fields.len();
    let mut methods: Vec<String> = Vec::new();
    let mut j: usize = 0;
    while j < n
        invariant
            n == fields.len(),
            w == wrapper_views(fields@),
            j <= n,
            builder_name@ == builder_ident(struct_name@),
            views(assignments_for_all_fields@) == assignments_text(w),
            methods@.len() == j,
            forall|k: int| 0 <= k < j ==> #[trigger] methods@[k]@ == method_text(struct_name@, w, n - 1 - k),
        decreases n - j,
    {
        let i = n - 1 - j;
        let m = if j == 0 {
            builder_for_final_field(&builder_name, &assignments_for_all_fields, &fields[i])
        } else {
            builder_for_field(&builder_name, &assignments_for_all_fields, &fields[i], &fields[i + 1])
        };
        methods.push(m);
        j = j + 1;
    }
    proof {
        assert(views(methods@) =~= Seq::new(n as nat, |j: int| method_text(struct_name@, w, n - 1 - j)));
    }
    let mut out = String::new();
    push_terminated(&mut out, &methods, " ");
    out.append("impl ");
    out.append(builder_name.as_str());
    out.append("<FinalBuilder> { pub fn build(self) -> ");
    out.append(struct_name);
    out.append(" { ");
    out.append(struct_name);
    out.append(" { ");
    push_terminated(&mut out, &set_fields, ", ");
    out.append("} } }");
    out
}

/// The setters chain the states in the order of the fields. `builder()`
/// starts in the state of the first field; the setter of field `i` is
/// offered in the state of field `i` and in no other, and leads to the state
/// of field `i + 1`, or to `FinalBuilder` after the last field; no field's
/// state is `FinalBuilder`, the only state that offers `build`. So every
/// setter is called once, in the order of the fields, before `build`.
pub proof fn law_typestate_chain(name: Seq<char>, fields: Seq<WrapperView>)
    requires
        fields.len() > 0,
        forall|i: int, j: int| 0 <= i < j < fields.len()
            ==> ident_fragment(#[trigger] fields[i].field.name) != ident_fragment(#[trigger] fields[j].field.name),
    ensures
        impl_text(name, fields) == "impl "@ + name + " { pub fn builder() -> "@ + builder_ident(name) + "<"@
            + state_of(name, fields[0]) + "> { "@ + builder_ident(name) + " { marker: Default::default(), "@
            + terminated(fields.map_values(|w: WrapperView| init_text(w)), ", "@) + "} } }"@,
        forall|i: int| 0 <= i < fields.len() ==> #[trigger] method_text(name, fields, i) == transition_text(
            builder_ident(name), assignments_text(fields), fields[i],
            if i + 1 < fields.len() { method_name(fields[i]) } else { fields[i].field.name },
            state_of(name, fields[i]), next_state(name, fields, i)),
        forall|i: int| 0 <= i < fields.len() ==> #[trigger] next_state(name, fields, i)
            == if i + 1 < fields.len() { state_of(name, fields[i + 1]) } else { "FinalBuilder"@ },
        forall|i: int, j: int| 0 <= i < fields.len() && 0 <= j < fields.len()
            && #[trigger] state_of(name, fields[i]) == #[trigger] state_of(name, fields[j]) ==> i == j,
        forall|i: int| 0 <= i < fields.len() ==> #[trigger] state_of(name, fields[i]) != "FinalBuilder"@,
{
    assert forall|i: int, j: int| 0 <= i < fields.len() && 0 <= j < fields.len()
        && #[trigger] state_of(name, fields[i]) == #[trigger] state_of(name, fields[j]) implies i == j by {
        law_states_distinct(name, fields[i], fields[j]);
        if i < j {
            assert(ident_fragment(fields[i].field.name) != ident_fragment(fields[j].field.name));
        } else if j < i {
            assert(ident_fragment(fields[j].field.name) != ident_fragment(fields[i].field.name));
        }
    }
    assert forall|i: int| 0 <= i < fields.len() implies #[trigger] state_of(name, fields[i]) != "FinalBuilder"@ by {
        law_states_distinct(name, fields[i], fields[i]);
    }
}

/// The name of the setter offered in the state of field `i`: every field's
/// (renamed) name, except the last field's, which keeps the field's name.
pub open spec fn setter_name(fields: Seq<WrapperView>, i: int) -> Seq<char> {
    if i + 1 < fields.len() { method_name(fields[i]) } else { fields[i].field.name }
}

/// The setters of the fields, in the order of the fields.
pub open spec fn setter_order(fields: Seq<WrapperView>) -> Seq<Seq<char>> {
    Seq::new(fields.len(), |i: int| setter_name(fields, i))
}

/// The state that calling the setter `m` leads to from `state`: the next
/// state of a field whose state is `state` and whose setter is `m`; `None`
/// when no impl block offers `m` in `state`.
pub open spec fn setter_step(name: Seq<char>, fields: Seq<WrapperView>, state: Seq<char>, m: Seq<char>) -> Option<Seq<char>> {
    if exists|i: int| 0 <= i < fields.len() && #[trigger] state_of(name, fields[i]) == state && setter_name(fields, i) == m {
        let i = choose|i: int| 0 <= i < fields.len() && #[trigger] state_of(name, fields[i]) == state && setter_name(fields, i) == m;
        Some(next_state(name, fields, i))
    } else {
        None
    }
}

/// The state reached by calling the setters `ms` one after the other from
/// `state`; `None` when one of them is not offered where it is called.
pub open spec fn run_setters(name: Seq<char>, fields: Seq<WrapperView>, state: Seq<char>, ms: Seq<Seq<char>>) -> Option<Seq<char>>
    decreases ms.len(),
{
    if ms.len() == 0 {
        Some(state)
    } else {
        match setter_step(name, fields, state, ms[0]) {
            Some(next) => run_setters(name, fields, next, ms.skip(1)),
            None => None,
        }
    }
}

/// The state in which field `k` is next, or `FinalBuilder` for `k` past the
/// last field.
pub open spec fn state_at(name: Seq<char>, fields: Seq<WrapperView>, k: int) -> Seq<char> {
    if k < fields.len() { state_of(name, fields[k]) } else { "FinalBuilder"@ }
}

proof fn lemma_run_from(name: Seq<char>, fields: Seq<WrapperView>, k: int, ms: Seq<Seq<char>>)
    requires
        0 <= k <= fields.len(),
        forall|i: int, j: int| 0 <= i < fields.len() && 0 <= j < fields.len()
            && #[trigger] state_of(name, fields[i]) == #[trigger] state_of(name, fields[j]) ==> i == j,
        forall|i: int| 0 <= i < fields.len() ==> #[trigger] state_of(name, fields[i]) != "FinalBuilder"@,
    ensures
        (run_setters(name, fields, state_at(name, fields, k), ms) == Some("FinalBuilder"@))
            <==> ms == setter_order(fields).skip(k),
    decreases ms.len(),
{
    let n = fields.len() as int;
    let order = setter_order(fields);
    let s = state_at(name, fields, k);
    if ms.len() == 0 {
        if k < n {
            assert(order.skip(k).len() > 0);
        } else {
            assert(order.skip(k) =~= ms);
        }
    } else if k == n {
        assert(setter_step(name, fields, s, ms[0]) is None);
        assert(order.skip(k).len() == 0);
    } else {
        let m = ms[0];
        if setter_name(fields, k) == m {
            assert(state_of(name, fields[k]) == s);
            let i = choose|i: int| 0 <= i < fields.len() && #[trigger] state_of(name, fields[i]) == s && setter_name(fields, i) == m;
            assert(i == k);
            assert(setter_step(name, fields, s, m) == Some(next_state(name, fields, k)));
            assert(next_state(name, fields, k) == state_at(name, fields, k + 1));
            lemma_run_from(name, fields, k + 1, ms.skip(1));
            assert(order.skip(k).skip(1) =~= order.skip(k + 1));
            if ms == order.skip(k) {
                assert(ms.skip(1) == order.skip(k + 1));
            }
            if ms.skip(1) == order.skip(k + 1) {
                assert(order.skip(k)[0] == setter_name(fields, k));
                assert(ms.len() == order.skip(k).len());
                assert forall|q: int| 0 <= q < ms.len() implies ms[q] == order.skip(k)[q] by {
                    if q > 0 {
                        assert(ms[q] == ms.skip(1)[q - 1]);
                        assert(order.skip(k)[q] == order.skip(k + 1)[q - 1]);
                    }
                }
                assert(ms =~= order.skip(k));
            }
        } else {
            assert(setter_step(name, fields, s, m) is None);
            assert(order.skip(k)[0] == setter_name(fields, k));
        }
    }
}

/// Calling setters on the builder that `builder()` returns (in the state of
/// the first field) reaches `FinalBuilder`, the only state that offers
/// `build`, exactly when they are the setters of the fields, each once, in
/// the order of the fields. (The field names of a struct differ, and `r#x`
/// and `x` name the same field, so their names differ without `r#`.)
pub proof fn law_setters_in_order(name: Seq<char>, fields: Seq<WrapperView>, ms: Seq<Seq<char>>)
    requires
        fields.len() > 0,
        forall|i: int, j: int| 0 <= i < j < fields.len()
            ==> ident_fragment(#[trigger] fields[i].field.name) != ident_fragment(#[trigger] fields[j].field.name),
    ensures
        (run_setters(name, fields, state_of(name, fields[0]), ms) == Some("FinalBuilder"@))
            <==> ms == setter_order(fields),
{
    law_typestate_chain(name, fields);
    lemma_run_from(name, fields, 0, ms);
    assert(setter_order(fields).skip(0) =~= setter_order(fields));
}

/// The opening of the impl block of field `i`'s setter.
pub open spec fn setter_head(name: Seq<char>, fields: Seq<WrapperView>, i: int) -> Seq<char> {
    "impl "@ + builder_ident(name) + "<"@ + state_at(name, fields, i) + "> { pub fn "@
        + setter_name(fields, i) + "(mut self, input: "@ + fields[i].field.ty + ") -> "@
        + builder_ident(name) + "<"@ + state_at(name, fields, i + 1) + ">"@
}

proof fn lemma_setter_head_begins(name: Seq<char>, fields: Seq<WrapperView>, i: int)
    requires
        0 <= i < fields.len(),
    ensures
        occurs_in(setter_head(name, fields, i), method_text(name, fields, i)),
{
    let b = builder_ident(name);
    let w = setter_head(name, fields, i);
    let rest = " { self."@ + fields[i].field.name + " = Some(input); "@ + b
        + " { marker: Default::default(), "@ + terminated(assignments_text(fields), ", "@) + "} } }"@;
    reveal_strlit("> { self.");
    reveal_strlit(">");
    reveal_strlit(" { self.");
    assert("> { self."@ =~= ">"@ + " { self."@);
    assert(next_state(name, fields, i) == state_at(name, fields, i + 1));
    assert(method_text(name, fields, i) =~= w + rest);
    lemma_begins_self(w);
    lemma_begins_left(w, w, rest);
    lemma_begins_occurs(w + rest, w);
}

/// The builder's methods offer, for every field, its setter in the impl
/// block of the field's state, taking the field's type and leading to the
/// next state (`FinalBuilder` after the last field); and `build` in the impl
/// block of `FinalBuilder`.
pub proof fn law_methods_offer_every_setter(name: Seq<char>, fields: Seq<WrapperView>)
    ensures
        forall|i: int| 0 <= i < fields.len() ==> occurs_in(
            "impl "@ + builder_ident(name) + "<"@ + #[trigger] state_at(name, fields, i) + "> { pub fn "@
                + setter_name(fields, i) + "(mut self, input: "@ + fields[i].field.ty + ") -> "@
                + builder_ident(name) + "<"@ + state_at(name, fields, i + 1) + ">"@,
            methods_text(name, fields)),
        occurs_in("impl "@ + builder_ident(name) + "<FinalBuilder> { pub fn build(self) -> "@ + name,
            methods_text(name, fields)),
{
    let n = fields.len() as int;
    let b = builder_ident(name);
    let items = Seq::new(fields.len(), |j: int| method_text(name, fields, n - 1 - j));
    let build = "impl "@ + b + "<FinalBuilder> { pub fn build(self) -> "@ + name + " { "@ + name + " { "@
        + terminated(setter_texts(fields, ConcreteFallbackStrategy::Panic), ", "@) + "} } }"@;
    assert(methods_text(name, fields) == terminated(items, " "@) + build);
    assert forall|i: int| 0 <= i < fields.len() implies occurs_in(
        "impl "@ + builder_ident(name) + "<"@ + #[trigger] state_at(name, fields, i) + "> { pub fn "@
            + setter_name(fields, i) + "(mut self, input: "@ + fields[i].field.ty + ") -> "@
            + builder_ident(name) + "<"@ + state_at(name, fields, i + 1) + ">"@,
        methods_text(name, fields)) by {
        let w = setter_head(name, fields, i);
        lemma_setter_head_begins(name, fields, i);
        assert(items[n - 1 - i] == method_text(name, fields, i));
        lemma_occurs_terminated(items, " "@, n - 1 - i);
        lemma_occurs_trans(w, method_text(name, fields, i), terminated(items, " "@));
        lemma_occurs_left(w, terminated(items, " "@), build);
    }
    let wb = "impl "@ + b + "<FinalBuilder> { pub fn build(self) -> "@ + name;
    let rb = " { "@ + name + " { "@ + terminated(setter_texts(fields, ConcreteFallbackStrategy::Panic), ", "@) + "} } }"@;
    assert(build =~= wb + rb);
    lemma_begins_self(wb);
    lemma_begins_left(wb, wb, rb);
    lemma_begins_occurs(wb + rb, wb);
    lemma_occurs_right(wb, terminated(items, " "@), build);
}

/// Fields with different names have different states, and no field's state
/// is `FinalBuilder`. (Names are compared as they are pasted into the
/// state's name: a raw identifier without its `r#`.)
pub proof fn law_states_distinct(name: Seq<char>, a: WrapperView, b: WrapperView)
    ensures
        ident_fragment(a.field.name) != ident_fragment(b.field.name) ==> state_of(name, a) != state_of(name, b),
        state_of(name, a) != "FinalBuilder"@,
{
    reveal_strlit("Of");
    reveal_strlit("Builder");
    reveal_strlit("FinalBuilder");
    let fa = ident_fragment(a.field.name);
    let fb = ident_fragment(b.field.name);
    let builder = ident_fragment(builder_ident(name));
    let suffix = "Of"@ + builder;
    let sa = state_of(name, a);
    let sb = state_of(name, b);
    assert(sa =~= fa + suffix);
    assert(sb =~= fb + suffix);
    if fa != fb && sa == sb {
        assert(fa.len() == fb.len());
        assert(sa.subrange(0, fa.len() as int) =~= fa);
        assert(sb.subrange(0, fb.len() as int) =~= fb);
    }
    if sa == "FinalBuilder"@ {
        let k = fa.len() as int;
        assert(builder_ident(name).len() >= 7);
        assert(builder.len() >= 5);
        assert(sa[k] == 'O');
        assert(k + 2 + builder.len() == 12);
        assert("FinalBuilder"@[k] != 'O');
    }
}

} // verus!
