//! A document can be read back from its compact text: no two documents share
//! one.
use vstd::prelude::*;

use crate::json::{
    entries_text, escaped, escaped_text, hex_digit, items_text, number_text, quoted, text_of,
    JsonView, NumberView,
};
use crate::text::{decimal, digit, is_digit, lemma_decimal_injective};

verus! {

/// The characters that number texts are made of.
pub open spec fn number_char(c: char) -> bool {
    is_digit(c) || c == '-' || c == '+' || c == '.' || c == 'e' || c == 'E'
}

/// The text of a number with a fraction or an exponent.
pub open spec fn float_text(text: Seq<char>) -> bool {
    &&& text.len() > 0
    &&& forall|i: int| 0 <= i < text.len() ==> number_char(#[trigger] text[i])
    &&& is_digit(text[0]) || text[0] == '-'
    &&& exists|i: int| 0 <= i < text.len() && !is_digit(#[trigger] text[i]) && text[i] != '-'
}

pub open spec fn valid_number(n: NumberView) -> bool {
    match n {
        NumberView::PosInt(_) => true,
        NumberView::NegInt(n) => n < 0,
        NumberView::Float(text) => float_text(text),
    }
}

/// Every number of the document is one: negative integers are negative, and
/// the others are held as the text of a number.
pub open spec fn valid(value: JsonView) -> bool
    decreases value,
{
    match value {
        JsonView::Number(n) => valid_number(n),
        JsonView::Array(items) => valid_items(items),
        JsonView::Object(entries) => valid_entries(entries),
        _ => true,
    }
}

pub open spec fn valid_items(items: Seq<JsonView>) -> bool
    decreases items,
{
    items.len() == 0 || (valid_items(items.drop_last()) && valid(items.last()))
}

pub open spec fn valid_entries(entries: Seq<(Seq<char>, JsonView)>) -> bool
    decreases entries,
{
    entries.len() == 0 || (valid_entries(entries.drop_last()) && valid(entries.last().1))
}

/// What may follow a document inside another, or at its end.
pub open spec fn closes(rest: Seq<char>) -> bool {
    rest.len() == 0 || rest[0] == ',' || rest[0] == ']' || rest[0] == '}'
}

proof fn lemma_valid_items(items: Seq<JsonView>)
    requires
        valid_items(items),
    ensures
        forall|i: int| 0 <= i < items.len() ==> valid(#[trigger] items[i]),
        items.len() > 0 ==> valid_items(items.skip(1)),
    decreases items.len(),
{
    if items.len() > 0 {
        lemma_valid_items(items.drop_last());
        assert forall|i: int| 0 <= i < items.len() implies valid(#[trigger] items[i]) by {
            if i < items.len() - 1 {
                assert(items.drop_last()[i] == items[i]);
            }
        }
        if items.len() == 1 {
            assert(items.skip(1) =~= Seq::empty());
        } else {
            assert(items.drop_last().skip(1) =~= items.skip(1).drop_last());
            assert(items.skip(1).last() == items.last());
        }
    }
}

proof fn lemma_valid_entries(entries: Seq<(Seq<char>, JsonView)>)
    requires
        valid_entries(entries),
    ensures
        forall|i: int| 0 <= i < entries.len() ==> valid((#[trigger] entries[i]).1),
        entries.len() > 0 ==> valid_entries(entries.skip(1)),
    decreases entries.len(),
{
    if entries.len() > 0 {
        lemma_valid_entries(entries.drop_last());
        assert forall|i: int| 0 <= i < entries.len() implies valid((#[trigger] entries[i]).1) by {
            if i < entries.len() - 1 {
                assert(entries.drop_last()[i] == entries[i]);
            }
        }
        if entries.len() == 1 {
            assert(entries.skip(1) =~= Seq::empty());
        } else {
            assert(entries.drop_last().skip(1) =~= entries.skip(1).drop_last());
            assert(entries.skip(1).last() == entries.last());
        }
    }
}

/// Items from the front.
proof fn lemma_items_front(items: Seq<JsonView>)
    requires
        items.len() >= 2,
    ensures
        items_text(items) == text_of(items[0]) + seq![','] + items_text(items.skip(1)),
    decreases items.len(),
{
    let front = items.drop_last();
    if items.len() == 2 {
        assert(items_text(front) == text_of(items[0]));
        assert(items.skip(1).len() == 1);
        assert(items_text(items) =~= text_of(items[0]) + seq![','] + items_text(items.skip(1)));
    } else {
        lemma_items_front(front);
        assert(front.skip(1) =~= items.skip(1).drop_last());
        assert(items.skip(1).last() == items.last());
        assert(items_text(items) =~= text_of(items[0]) + seq![','] + items_text(items.skip(1)));
    }
}

spec fn entry_text(entry: (Seq<char>, JsonView)) -> Seq<char> {
    quoted(entry.0) + seq![':'] + text_of(entry.1)
}

proof fn lemma_entries_front(entries: Seq<(Seq<char>, JsonView)>)
    requires
        entries.len() >= 2,
    ensures
        entries_text(entries) == entry_text(entries[0]) + seq![','] + entries_text(
            entries.skip(1),
        ),
    decreases entries.len(),
{
    let front = entries.drop_last();
    if entries.len() == 2 {
        assert(entries_text(front) == entry_text(entries[0]));
        assert(entries.skip(1).len() == 1);
        assert(entries_text(entries) =~= entry_text(entries[0]) + seq![','] + entries_text(
            entries.skip(1),
        ));
    } else {
        lemma_entries_front(front);
        assert(front.skip(1) =~= entries.skip(1).drop_last());
        assert(entries.skip(1).last() == entries.last());
        assert(entries_text(entries) =~= entry_text(entries[0]) + seq![','] + entries_text(
            entries.skip(1),
        ));
    }
}

/// Text escaped from the front.
proof fn lemma_escaped_front(text: Seq<char>)
    requires
        text.len() >= 1,
    ensures
        escaped_text(text) == escaped(text[0]) + escaped_text(text.skip(1)),
    decreases text.len(),
{
    if text.len() == 1 {
        assert(text.drop_last() =~= Seq::empty());
        assert(text.skip(1) =~= Seq::empty());
        assert(escaped_text(text.drop_last()) =~= Seq::empty());
        assert(escaped_text(text) =~= escaped(text[0]) + escaped_text(text.skip(1)));
    } else {
        lemma_escaped_front(text.drop_last());
        assert(text.drop_last().skip(1) =~= text.skip(1).drop_last());
        assert(text.skip(1).last() == text.last());
        assert(escaped_text(text) =~= escaped(text[0]) + escaped_text(text.skip(1)));
    }
}

/// Escapes are told apart from the front.
proof fn lemma_escape_unique(a: char, b: char, x: Seq<char>, y: Seq<char>)
    requires
        escaped(a) + x == escaped(b) + y,
    ensures
        a == b,
        x == y,
{
    let s = escaped(a) + x;
    let t = escaped(b) + y;
    assert(s[0] == escaped(a)[0]);
    assert(t[0] == escaped(b)[0]);
    if escaped(a).len() >= 2 {
        assert(s[1] == escaped(a)[1]);
    }
    if escaped(b).len() >= 2 {
        assert(t[1] == escaped(b)[1]);
    }
    if escaped(a).len() == 6 && escaped(b).len() == 6 {
        assert(s[4] == escaped(a)[4]);
        assert(s[5] == escaped(a)[5]);
        assert(t[4] == escaped(b)[4]);
        assert(t[5] == escaped(b)[5]);
        let (p, q) = (a as int / 16, b as int / 16);
        let (m, n) = (a as int % 16, b as int % 16);
        assert(hex_digit(p) == hex_digit(q));
        assert(hex_digit(m) == hex_digit(n));
        assert(p == q && m == n);
    }
    assert(a == b);
    assert(x =~= s.skip(escaped(a).len() as int));
    assert(y =~= t.skip(escaped(b).len() as int));
}

/// String literals are told apart from the front.
proof fn lemma_quoted_unique(a: Seq<char>, b: Seq<char>, x: Seq<char>, y: Seq<char>)
    requires
        quoted(a) + x == quoted(b) + y,
    ensures
        a == b,
        x == y,
{
    let s = quoted(a) + x;
    let t = quoted(b) + y;
    assert(s.skip(1) =~= escaped_text(a) + (seq!['"'] + x));
    assert(t.skip(1) =~= escaped_text(b) + (seq!['"'] + y));
    lemma_escaped_unique(a, b, x, y);
}

proof fn lemma_escaped_unique(a: Seq<char>, b: Seq<char>, x: Seq<char>, y: Seq<char>)
    requires
        escaped_text(a) + (seq!['"'] + x) == escaped_text(b) + (seq!['"'] + y),
    ensures
        a == b,
        x == y,
    decreases a.len(),
{
    let p = seq!['"'] + x;
    let q = seq!['"'] + y;
    let s = escaped_text(a) + p;
    let t = escaped_text(b) + q;
    if a.len() > 0 {
        lemma_escaped_front(a);
        assert(s =~= escaped(a[0]) + (escaped_text(a.skip(1)) + p));
        assert(s[0] == escaped(a[0])[0]);
        assert(s[0] != '"');
    } else {
        assert(s =~= p);
        assert(s[0] == '"');
    }
    if b.len() > 0 {
        lemma_escaped_front(b);
        assert(t =~= escaped(b[0]) + (escaped_text(b.skip(1)) + q));
        assert(t[0] == escaped(b[0])[0]);
        assert(t[0] != '"');
    } else {
        assert(t =~= q);
        assert(t[0] == '"');
    }
    if a.len() > 0 {
        lemma_escape_unique(
            a[0],
            b[0],
            escaped_text(a.skip(1)) + p,
            escaped_text(b.skip(1)) + q,
        );
        lemma_escaped_unique(a.skip(1), b.skip(1), x, y);
        assert(a =~= seq![a[0]] + a.skip(1));
        assert(b =~= seq![b[0]] + b.skip(1));
    } else {
        assert(a =~= b);
        assert(x =~= p.skip(1));
        assert(y =~= q.skip(1));
    }
}

proof fn lemma_decimal_digits(n: nat)
    ensures
        decimal(n).len() > 0,
        forall|i: int| 0 <= i < decimal(n).len() ==> is_digit(#[trigger] decimal(n)[i]),
    decreases n,
{
    if n >= 10 {
        lemma_decimal_digits(n / 10);
        let d = n % 10;
        assert(is_digit(digit(d)));
        assert forall|i: int| 0 <= i < decimal(n).len() implies is_digit(
            #[trigger] decimal(n)[i],
        ) by {
            if i < decimal(n).len() - 1 {
                assert(decimal(n)[i] == decimal(n / 10)[i]);
            }
        }
    } else {
        assert(is_digit(digit(n)));
    }
}

proof fn lemma_number_text(n: NumberView)
    requires
        valid_number(n),
    ensures
        number_text(n).len() > 0,
        is_digit(number_text(n)[0]) || number_text(n)[0] == '-',
        forall|i: int|
            0 <= i < number_text(n).len() ==> number_char(#[trigger] number_text(n)[i]),
        n is PosInt ==> forall|i: int|
            0 <= i < number_text(n).len() ==> is_digit(#[trigger] number_text(n)[i]),
        n is NegInt ==> number_text(n)[0] == '-' && forall|i: int|
            1 <= i < number_text(n).len() ==> is_digit(#[trigger] number_text(n)[i]),
{
    match n {
        NumberView::PosInt(k) => {
            lemma_decimal_digits(k as nat);
        },
        NumberView::NegInt(k) => {
            lemma_decimal_digits((-k) as nat);
            let d = decimal((-k) as nat);
            assert forall|i: int| 1 <= i < number_text(n).len() implies is_digit(
                #[trigger] number_text(n)[i],
            ) by {
                assert(number_text(n)[i] == d[i - 1]);
            }
        },
        NumberView::Float(_) => {},
    }
}

proof fn lemma_number_unique(a: NumberView, b: NumberView, x: Seq<char>, y: Seq<char>)
    requires
        valid_number(a),
        valid_number(b),
        closes(x),
        closes(y),
        number_text(a) + x == number_text(b) + y,
    ensures
        a == b,
        x == y,
{
    lemma_number_text(a);
    lemma_number_text(b);
    let p = number_text(a);
    let q = number_text(b);
    let s = p + x;
    let t = q + y;
    if p.len() < q.len() {
        assert(s[p.len() as int] == x[0]);
        assert(t[p.len() as int] == q[p.len() as int]);
        assert(false);
    }
    if q.len() < p.len() {
        assert(t[q.len() as int] == y[0]);
        assert(s[q.len() as int] == p[q.len() as int]);
        assert(false);
    }
    assert(p =~= s.take(p.len() as int));
    assert(q =~= t.take(q.len() as int));
    assert(x =~= s.skip(p.len() as int));
    assert(y =~= t.skip(q.len() as int));
    match (a, b) {
        (NumberView::PosInt(m), NumberView::PosInt(n)) => {
            lemma_decimal_injective(m as nat, n as nat);
        },
        (NumberView::NegInt(m), NumberView::NegInt(n)) => {
            assert(decimal((-m) as nat) =~= p.skip(1));
            assert(decimal((-n) as nat) =~= q.skip(1));
            lemma_decimal_injective((-m) as nat, (-n) as nat);
        },
        (NumberView::Float(_), NumberView::Float(_)) => {},
        (NumberView::Float(f), _) => {
            let i = choose|i: int| 0 <= i < f.len() && !is_digit(#[trigger] f[i]) && f[i] != '-';
            assert(p[i] == q[i]);
            assert(false);
        },
        (_, NumberView::Float(f)) => {
            let i = choose|i: int| 0 <= i < f.len() && !is_digit(#[trigger] f[i]) && f[i] != '-';
            assert(q[i] == p[i]);
            assert(false);
        },
        _ => {
            assert(p[0] == q[0]);
            assert(false);
        },
    }
}

/// The first character of a text tells what kind of document it is.
spec fn first_char(value: JsonView) -> spec_fn(char) -> bool {
    match value {
        JsonView::Null => |c: char| c == 'n',
        JsonView::Bool(b) => |c: char| c == (if b { 't' } else { 'f' }),
        JsonView::Number(_) => |c: char| is_digit(c) || c == '-',
        JsonView::Text(_) => |c: char| c == '"',
        JsonView::Array(_) => |c: char| c == '[',
        JsonView::Object(_) => |c: char| c == '{',
    }
}

proof fn lemma_first_char(value: JsonView)
    requires
        valid(value),
    ensures
        text_of(value).len() > 0,
        first_char(value)(text_of(value)[0]),
{
    reveal_strlit("null");
    reveal_strlit("true");
    reveal_strlit("false");
    if let JsonView::Number(n) = value {
        lemma_number_text(n);
    }
}

proof fn lemma_unique(a: JsonView, b: JsonView, x: Seq<char>, y: Seq<char>)
    requires
        valid(a),
        valid(b),
        closes(x),
        closes(y),
        text_of(a) + x == text_of(b) + y,
    ensures
        a == b,
        x == y,
    decreases a,
{
    lemma_first_char(a);
    lemma_first_char(b);
    let s = text_of(a) + x;
    let t = text_of(b) + y;
    assert(s[0] == text_of(a)[0]);
    assert(t[0] == text_of(b)[0]);
    match (a, b) {
        (JsonView::Number(m), JsonView::Number(n)) => {
            lemma_number_unique(m, n, x, y);
        },
        (JsonView::Text(m), JsonView::Text(n)) => {
            lemma_quoted_unique(m, n, x, y);
        },
        (JsonView::Array(m), JsonView::Array(n)) => {
            assert(s.skip(1) =~= items_text(m) + (seq![']'] + x));
            assert(t.skip(1) =~= items_text(n) + (seq![']'] + y));
            lemma_items_unique(m, n, x, y);
        },
        (JsonView::Object(m), JsonView::Object(n)) => {
            assert(s.skip(1) =~= entries_text(m) + (seq!['}'] + x));
            assert(t.skip(1) =~= entries_text(n) + (seq!['}'] + y));
            lemma_entries_unique(m, n, x, y);
        },
        _ => {
            assert(a == b);
            assert(x =~= s.skip(text_of(a).len() as int));
            assert(y =~= t.skip(text_of(b).len() as int));
        },
    }
}

proof fn lemma_items_unique(a: Seq<JsonView>, b: Seq<JsonView>, x: Seq<char>, y: Seq<char>)
    requires
        valid_items(a),
        valid_items(b),
        items_text(a) + (seq![']'] + x) == items_text(b) + (seq![']'] + y),
    ensures
        a == b,
        x == y,
    decreases a,
{
    let p = seq![']'] + x;
    let q = seq![']'] + y;
    let s = items_text(a) + p;
    let t = items_text(b) + q;
    lemma_valid_items(a);
    lemma_valid_items(b);
    let p1 = if a.len() <= 1 { p } else { seq![','] + items_text(a.skip(1)) + p };
    let q1 = if b.len() <= 1 { q } else { seq![','] + items_text(b.skip(1)) + q };
    if a.len() > 0 {
        lemma_first_char(a[0]);
        if a.len() > 1 {
            lemma_items_front(a);
        }
        assert(s =~= text_of(a[0]) + p1);
        assert(s[0] == text_of(a[0])[0]);
    } else {
        assert(s =~= p);
    }
    if b.len() > 0 {
        lemma_first_char(b[0]);
        if b.len() > 1 {
            lemma_items_front(b);
        }
        assert(t =~= text_of(b[0]) + q1);
        assert(t[0] == text_of(b[0])[0]);
    } else {
        assert(t =~= q);
    }
    assert(a.len() > 0 <==> b.len() > 0);
    if a.len() > 0 {
        lemma_unique(a[0], b[0], p1, q1);
        assert(p1[0] == (if a.len() <= 1 { ']' } else { ',' }));
        assert(q1[0] == (if b.len() <= 1 { ']' } else { ',' }));
        if a.len() > 1 {
            assert(p1.skip(1) =~= items_text(a.skip(1)) + p);
            assert(q1.skip(1) =~= items_text(b.skip(1)) + q);
            lemma_items_unique(a.skip(1), b.skip(1), x, y);
            assert(a =~= seq![a[0]] + a.skip(1));
            assert(b =~= seq![b[0]] + b.skip(1));
        } else {
            assert(a =~= seq![a[0]]);
            assert(b =~= seq![b[0]]);
            assert(x =~= p.skip(1));
            assert(y =~= q.skip(1));
        }
    } else {
        assert(a =~= b);
        assert(x =~= p.skip(1));
        assert(y =~= q.skip(1));
    }
}

/// What follows the first entry of `entries` when `rest` follows them all.
spec fn after_first(entries: Seq<(Seq<char>, JsonView)>, rest: Seq<char>) -> Seq<char> {
    if entries.len() <= 1 {
        rest
    } else {
        seq![','] + entries_text(entries.skip(1)) + rest
    }
}

proof fn lemma_entries_shape(entries: Seq<(Seq<char>, JsonView)>, rest: Seq<char>)
    requires
        entries.len() > 0,
    ensures
        entries_text(entries) + rest == quoted(entries[0].0) + (seq![':'] + (text_of(entries[0].1)
            + after_first(entries, rest))),
{
    if entries.len() > 1 {
        lemma_entries_front(entries);
    }
    assert(entries_text(entries) + rest =~= quoted(entries[0].0) + (seq![':'] + (text_of(
        entries[0].1,
    ) + after_first(entries, rest))));
}

#[verifier::rlimit(40)]
proof fn lemma_entries_unique(
    a: Seq<(Seq<char>, JsonView)>,
    b: Seq<(Seq<char>, JsonView)>,
    x: Seq<char>,
    y: Seq<char>,
)
    requires
        valid_entries(a),
        valid_entries(b),
        entries_text(a) + (seq!['}'] + x) == entries_text(b) + (seq!['}'] + y),
    ensures
        a == b,
        x == y,
    decreases a,
{
    let p = seq!['}'] + x;
    let q = seq!['}'] + y;
    let s = entries_text(a) + p;
    let t = entries_text(b) + q;
    lemma_valid_entries(a);
    lemma_valid_entries(b);
    let p1 = after_first(a, p);
    let q1 = after_first(b, q);
    if a.len() > 0 {
        lemma_entries_shape(a, p);
        assert(s[0] == '"');
    } else {
        assert(s =~= p);
    }
    if b.len() > 0 {
        lemma_entries_shape(b, q);
        assert(t[0] == '"');
    } else {
        assert(t =~= q);
    }
    assert(a.len() > 0 <==> b.len() > 0);
    if a.len() > 0 {
        let u = seq![':'] + (text_of(a[0].1) + p1);
        let v = seq![':'] + (text_of(b[0].1) + q1);
        lemma_quoted_unique(a[0].0, b[0].0, u, v);
        assert(u.skip(1) =~= text_of(a[0].1) + p1);
        assert(v.skip(1) =~= text_of(b[0].1) + q1);
        assert(decreases_to!(a => a[0].1)) by {
            assert(decreases_to!(a => a[0]));
            assert(decreases_to!(a[0] => a[0].1));
        }
        lemma_unique(a[0].1, b[0].1, p1, q1);
        assert(p1[0] == (if a.len() <= 1 { '}' } else { ',' }));
        assert(q1[0] == (if b.len() <= 1 { '}' } else { ',' }));
        if a.len() > 1 {
            assert(p1.skip(1) =~= entries_text(a.skip(1)) + p);
            assert(q1.skip(1) =~= entries_text(b.skip(1)) + q);
            lemma_entries_unique(a.skip(1), b.skip(1), x, y);
            assert(a =~= seq![a[0]] + a.skip(1));
            assert(b =~= seq![b[0]] + b.skip(1));
        } else {
            assert(a =~= seq![a[0]]);
            assert(b =~= seq![b[0]]);
            assert(a[0] == b[0]);
            assert(x =~= p.skip(1));
            assert(y =~= q.skip(1));
        }
    } else {
        assert(a =~= b);
        assert(x =~= p.skip(1));
        assert(y =~= q.skip(1));
    }
}

/// Two documents with one compact text are one document.
pub proof fn law_text_determines_document(a: JsonView, b: JsonView)
    requires
        valid(a),
        valid(b),
        text_of(a) == text_of(b),
    ensures
        a == b,
{
    assert(text_of(a) + Seq::<char>::empty() =~= text_of(a));
    assert(text_of(b) + Seq::<char>::empty() =~= text_of(b));
    lemma_unique(a, b, Seq::empty(), Seq::empty());
}

/// What is read under a key is the first entry that stands under it, and nothing where
/// none does.
pub proof fn law_the_first_entry_is_read(
    entries: Seq<(Seq<char>, JsonView)>,
    key: Seq<char>,
    first: int,
)
    requires
        0 <= first <= entries.len(),
        forall|i: int| 0 <= i < first ==> (#[trigger] entries[i]).0 != key,
        first < entries.len() ==> entries[first].0 == key,
    ensures
        first < entries.len() ==> JsonView::Object(entries).get(key) == Some(entries[first].1),
        first == entries.len() ==> JsonView::Object(entries).get(key) is None,
    decreases entries.len(),
{
    if entries.len() > 0 && first > 0 {
        assert(entries[0].0 != key);
        let rest = entries.skip(1);
        assert forall|i: int| 0 <= i < first - 1 implies (#[trigger] rest[i]).0 != key by {
            assert(rest[i] == entries[i + 1]);
        }
        if first < entries.len() {
            assert(rest[first - 1] == entries[first]);
        }
        law_the_first_entry_is_read(rest, key, first - 1);
    }
}

} // verus!
