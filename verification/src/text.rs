//! Text building blocks shared by the code generators: joining pieces,
//! searching for a word, decimal numerals and string literal tokens.

use vstd::prelude::*;

verus! {

/// The character sequences that a list of strings holds.
pub open spec fn views(v: Seq<String>) -> Seq<Seq<char>> {
    v.map_values(|s: String| s@)
}

/// The pieces one after the other, each followed by `sep`.
pub open spec fn terminated(items: Seq<Seq<char>>, sep: Seq<char>) -> Seq<char>
    decreases items.len(),
{
    if items.len() == 0 {
        Seq::empty()
    } else {
        terminated(items.drop_last(), sep) + items.last() + sep
    }
}

/// The pieces one after the other, with `sep` between two neighbours.
pub open spec fn separated(items: Seq<Seq<char>>, sep: Seq<char>) -> Seq<char>
    decreases items.len(),
{
    if items.len() == 0 {
        Seq::empty()
    } else if items.len() == 1 {
        items[0]
    } else {
        separated(items.drop_last(), sep) + sep + items.last()
    }
}

/// Whether `word` occurs in `text` as a contiguous piece.
pub open spec fn occurs_in(word: Seq<char>, text: Seq<char>) -> bool {
    exists|i: int| 0 <= i && i + word.len() <= text.len() && #[trigger] text.subrange(i, i + word.len()) == word
}

/// Whether `text` begins with `prefix`.
pub open spec fn begins_with(text: Seq<char>, prefix: Seq<char>) -> bool {
    prefix.len() <= text.len() && text.subrange(0, prefix.len() as int) == prefix
}

/// A text occurs in itself.
pub broadcast proof fn lemma_occurs_self(w: Seq<char>)
    ensures
        #[trigger] occurs_in(w, w),
{
    let z: int = 0;
    assert(w.subrange(z, z + w.len()) =~= w);
}

/// What occurs in a text occurs in the text followed by more.
pub broadcast proof fn lemma_occurs_left(w: Seq<char>, a: Seq<char>, b: Seq<char>)
    requires
        occurs_in(w, a),
    ensures
        #[trigger] occurs_in(w, a + b),
{
    let i = choose|i: int| 0 <= i && i + w.len() <= a.len() && #[trigger] a.subrange(i, i + w.len()) == w;
    assert((a + b).subrange(i, i + w.len()) =~= a.subrange(i, i + w.len()));
}

/// What occurs in a text occurs in the text preceded by more.
pub broadcast proof fn lemma_occurs_right(w: Seq<char>, a: Seq<char>, b: Seq<char>)
    requires
        occurs_in(w, b),
    ensures
        #[trigger] occurs_in(w, a + b),
{
    let i = choose|i: int| 0 <= i && i + w.len() <= b.len() && #[trigger] b.subrange(i, i + w.len()) == w;
    assert((a + b).subrange(a.len() + i, a.len() + i + w.len()) =~= b.subrange(i, i + w.len()));
}

/// What occurs in a piece occurs in every text the piece occurs in.
pub proof fn lemma_occurs_trans(w: Seq<char>, a: Seq<char>, b: Seq<char>)
    requires
        occurs_in(w, a),
        occurs_in(a, b),
    ensures
        occurs_in(w, b),
{
    let i = choose|i: int| 0 <= i && i + w.len() <= a.len() && #[trigger] a.subrange(i, i + w.len()) == w;
    let k = choose|k: int| 0 <= k && k + a.len() <= b.len() && #[trigger] b.subrange(k, k + a.len()) == a;
    assert(b.subrange(k + i, k + i + w.len()) =~= a.subrange(i, i + w.len()));
}

/// What a text begins with, the text followed by more begins with.
pub broadcast proof fn lemma_begins_left(p: Seq<char>, a: Seq<char>, b: Seq<char>)
    requires
        begins_with(a, p),
    ensures
        #[trigger] begins_with(a + b, p),
{
    assert((a + b).subrange(0, p.len() as int) =~= a.subrange(0, p.len() as int));
}

/// What a text begins with occurs in it.
pub proof fn lemma_begins_occurs(t: Seq<char>, p: Seq<char>)
    requires
        begins_with(t, p),
    ensures
        occurs_in(p, t),
{
    let z: int = 0;
    assert(t.subrange(z, z + p.len()) == p);
}

/// A text begins with itself.
pub broadcast proof fn lemma_begins_self(p: Seq<char>)
    ensures
        #[trigger] begins_with(p, p),
{
    assert(p.subrange(0, p.len() as int) =~= p);
}

pub broadcast group group_occurs {
    lemma_occurs_self,
    lemma_occurs_left,
    lemma_occurs_right,
    lemma_begins_left,
    lemma_begins_self,
}

/// Every piece occurs in the pieces written one after the other, each
/// followed by `sep`.
pub proof fn lemma_occurs_terminated(items: Seq<Seq<char>>, sep: Seq<char>, i: int)
    requires
        0 <= i < items.len(),
    ensures
        occurs_in(items[i], terminated(items, sep)),
    decreases items.len(),
{
    broadcast use group_occurs;
    let n = items.len() as int;
    assert(terminated(items, sep) == terminated(items.drop_last(), sep) + items.last() + sep);
    if i < n - 1 {
        assert(items.drop_last()[i] == items[i]);
        lemma_occurs_terminated(items.drop_last(), sep, i);
    } else {
        lemma_occurs_self(items[i]);
        lemma_occurs_right(items[i], terminated(items.drop_last(), sep), items.last());
    }
}

/// Every piece occurs in the pieces written with `sep` between neighbours.
pub proof fn lemma_occurs_separated(items: Seq<Seq<char>>, sep: Seq<char>, i: int)
    requires
        0 <= i < items.len(),
    ensures
        occurs_in(items[i], separated(items, sep)),
    decreases items.len(),
{
    broadcast use group_occurs;
    let n = items.len() as int;
    if n == 1 {
        lemma_occurs_self(items[0]);
    } else {
        assert(separated(items, sep) == separated(items.drop_last(), sep) + sep + items.last());
        if i < n - 1 {
            assert(items.drop_last()[i] == items[i]);
            lemma_occurs_separated(items.drop_last(), sep, i);
        } else {
            lemma_occurs_self(items[i]);
            lemma_occurs_right(items[i], separated(items.drop_last(), sep) + sep, items.last());
        }
    }
}

/// Appends `c` to `s`.
#[verifier::external_body]
pub(crate) fn push_char(s: &mut String, c: char)
    ensures
        final(s)@ == old(s)@.push(c),
{
    s.push(c)
}

/// Appends every piece of `items` to `out`, each followed by `sep`.
pub fn push_terminated(out: &mut String, items: &Vec<String>, sep: &str)
    ensures
        final(out)@ == old(out)@ + terminated(views(items@), sep@),
{
    let ghost start = out@;
    let n = items.len();
    let mut i: usize = 0;
    while i < n
        invariant
            n == items.len(),
            i <= n,
            out@ == start + terminated(views(items@).take(i as int), sep@),
        decreases n - i,
    {
        proof {
            let v = views(items@);
            assert(v.take(i + 1).drop_last() =~= v.take(i as int));
        }
        out.append(items[i].as_str());
        out.append(sep);
        i = i + 1;
    }
    proof {
        assert(views(items@).take(n as int) =~= views(items@));
    }
}

/// Appends the pieces of `items` to `out`, with `sep` between neighbours.
pub fn push_separated(out: &mut String, items: &Vec<String>, sep: &str)
    ensures
        final(out)@ == old(out)@ + separated(views(items@), sep@),
{
    let ghost start = out@;
    let n = items.len();
    let mut i: usize = 0;
    while i < n
        invariant
            n == items.len(),
            i <= n,
            out@ == start + separated(views(items@).take(i as int), sep@),
        decreases n - i,
    {
        proof {
            let v = views(items@);
            assert(v.take(i + 1).drop_last() =~= v.take(i as int));
        }
        if i > 0 {
            out.append(sep);
        }
        out.append(items[i].as_str());
        proof {
            let v = views(items@);
            if i == 0 {
                assert(v.take(1) =~= seq![v[0]]);
                assert(start + seq![] + v[0] =~= start + v[0]);
            }
        }
        i = i + 1;
    }
    proof {
        assert(views(items@).take(n as int) =~= views(items@));
    }
}

/// Whether `word` occurs in `text`.
pub fn contains_word(text: &str, word: &str) -> (res: bool)
    ensures
        res == occurs_in(word@, text@),
{
    let n = text.unicode_len();
    let m = word.unicode_len();
    if m > n {
        proof {
            assert forall|i: int| 0 <= i && i + word@.len() <= text@.len() implies
                #[trigger] text@.subrange(i, i + word@.len()) != word@ by {}
        }
        return false;
    }
    let mut i: usize = 0;
    while i <= n - m
        invariant
            n == text@.len(),
            m == word@.len(),
            m <= n,
            i <= n - m + 1,
            forall|k: int| 0 <= k < i ==> #[trigger] text@.subrange(k, k + m) != word@,
        decreases n - i,
    {
        let mut j: usize = 0;
        let mut same = true;
        while j < m
            invariant
                n == text@.len(),
                m == word@.len(),
                i + m <= n,
                j <= m,
                same == (forall|k: int| 0 <= k < j ==> text@[i + k] == word@[k]),
            decreases m - j,
        {
            if text.get_char(i + j) != word.get_char(j) {
                same = false;
            }
            j = j + 1;
        }
        if same {
            proof {
                assert(text@.subrange(i as int, i + m) =~= word@);
            }
            return true;
        }
        proof {
            let k0 = choose|k: int| 0 <= k < m && text@[i + k] != word@[k];
            assert(text@.subrange(i as int, i + m)[k0] != word@[k0]);
        }
        i = i + 1;
    }
    proof {
        assert forall|k: int| 0 <= k && k + word@.len() <= text@.len() implies
            #[trigger] text@.subrange(k, k + word@.len()) != word@ by {
            assert(k < i);
        }
    }
    false
}

/// The decimal digit of a number below ten.
pub open spec fn digit(d: int) -> char {
    if d == 0 { '0' } else if d == 1 { '1' } else if d == 2 { '2' } else if d == 3 { '3' }
    else if d == 4 { '4' } else if d == 5 { '5' } else if d == 6 { '6' } else if d == 7 { '7' }
    else if d == 8 { '8' } else { '9' }
}

/// The decimal numeral of a natural number, without leading zeros.
pub open spec fn digits(n: nat) -> Seq<char>
    decreases n,
{
    if n < 10 {
        seq![digit(n as int)]
    } else {
        digits(n / 10).push(digit((n % 10) as int))
    }
}

/// The decimal numeral of an integer, with a minus sign when it is negative.
pub open spec fn decimal(n: int) -> Seq<char> {
    if n < 0 {
        seq!['-'] + digits((-n) as nat)
    } else {
        digits(n as nat)
    }
}

fn digit_char(d: u64) -> (c: char)
    requires
        d < 10,
    ensures
        c == digit(d as int),
{
    if d == 0 { '0' } else if d == 1 { '1' } else if d == 2 { '2' } else if d == 3 { '3' }
    else if d == 4 { '4' } else if d == 5 { '5' } else if d == 6 { '6' } else if d == 7 { '7' }
    else if d == 8 { '8' } else { '9' }
}

fn push_digits(out: &mut String, n: u64)
    ensures
        final(out)@ == old(out)@ + digits(n as nat),
    decreases n,
{
    if n < 10 {
        push_char(out, digit_char(n));
    } else {
        push_digits(out, n / 10);
        push_char(out, digit_char(n % 10));
    }
}

/// The decimal numeral of `n`, as `n.to_string()` writes it.
pub fn decimal_string(n: i64) -> (res: String)
    ensures
        res@ == decimal(n as int),
{
    let mut out = String::new();
    if n < 0 {
        push_char(&mut out, '-');
        let m: u64 = if n == i64::MIN { 9223372036854775808u64 } else { (-n) as u64 };
        push_digits(&mut out, m);
    } else {
        push_digits(&mut out, n as u64);
    }
    out
}

/// A name as `format_ident!` pastes it into a new identifier: a raw
/// identifier (`r#name`) loses its `r#`.
pub open spec fn ident_fragment(name: Seq<char>) -> Seq<char> {
    if name.len() >= 2 && name[0] == 'r' && name[1] == '#' { name.skip(2) } else { name }
}

/// Appends `ident_fragment(name)` to `out`.
pub fn push_fragment(out: &mut String, name: &str)
    ensures
        final(out)@ == old(out)@ + ident_fragment(name@),
{
    let n = name.unicode_len();
    if n >= 2 && name.get_char(0) == 'r' && name.get_char(1) == '#' {
        let rest = name.substring_char(2, n);
        proof { assert(rest@ =~= name@.skip(2)); }
        out.append(rest);
    } else {
        out.append(name);
    }
}

/// Whether `text` begins with `prefix`.
pub fn starts_with(text: &str, prefix: &str) -> (res: bool)
    ensures
        res == (prefix@.len() <= text@.len() && text@.subrange(0, prefix@.len() as int) == prefix@),
{
    let n = prefix.unicode_len();
    if n > text.unicode_len() {
        return false;
    }
    let mut i: usize = 0;
    while i < n
        invariant
            n == prefix@.len(),
            n <= text@.len(),
            i <= n,
            forall|k: int| 0 <= k < i ==> text@[k] == prefix@[k],
        decreases n - i,
    {
        if text.get_char(i) != prefix.get_char(i) {
            proof {
                assert(text@.subrange(0, n as int)[i as int] != prefix@[i as int]);
            }
            return false;
        }
        i = i + 1;
    }
    proof {
        assert(text@.subrange(0, n as int) =~= prefix@);
    }
    true
}

/// Whether two texts are the same.
pub fn same_text(a: &str, b: &str) -> (res: bool)
    ensures
        res == (a@ == b@),
{
    let n = a.unicode_len();
    if n != b.unicode_len() {
        return false;
    }
    let mut i: usize = 0;
    while i < n
        invariant
            n == a@.len(),
            n == b@.len(),
            i <= n,
            forall|k: int| 0 <= k < i ==> a@[k] == b@[k],
        decreases n - i,
    {
        if a.get_char(i) != b.get_char(i) {
            return false;
        }
        i = i + 1;
    }
    proof {
        assert(a@ =~= b@);
    }
    true
}

} // verus!
