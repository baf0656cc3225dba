//! JSON documents as plain values, and their compact text.
//!
//! An object keeps its entries in the order in which they are written.
use vstd::prelude::*;
use vstd::utf8::encode_utf8;

use crate::text::{decimal, decimal_of, same, views};

verus! {

/// A JSON number. A number with a fraction or an exponent is held as its text.
#[derive(Debug)]
pub enum JsonNumber {
    PosInt(u64),
    NegInt(i64),
    Float(String),
}

#[derive(Debug)]
pub struct JsonEntry {
    pub key: String,
    pub value: Json,
}

#[derive(Debug)]
pub enum Json {
    Null,
    Bool(bool),
    Number(JsonNumber),
    Text(String),
    Array(Vec<Json>),
    Object(Vec<JsonEntry>),
}

/// What a number is.
#[verifier::ext_equal]
pub enum NumberView {
    PosInt(u64),
    NegInt(i64),
    Float(Seq<char>),
}

/// What a document is: the same tree over mathematical sequences.
#[verifier::ext_equal]
pub enum JsonView {
    Null,
    Bool(bool),
    Number(NumberView),
    Text(Seq<char>),
    Array(Seq<JsonView>),
    Object(Seq<(Seq<char>, JsonView)>),
}

impl JsonNumber {
    pub open spec fn view(&self) -> NumberView {
        match self {
            JsonNumber::PosInt(n) => NumberView::PosInt(*n),
            JsonNumber::NegInt(n) => NumberView::NegInt(*n),
            JsonNumber::Float(text) => NumberView::Float(text@),
        }
    }
}

pub open spec fn json_view(json: Json) -> JsonView
    decreases json,
{
    match json {
        Json::Null => JsonView::Null,
        Json::Bool(b) => JsonView::Bool(b),
        Json::Number(n) => JsonView::Number(n.view()),
        Json::Text(text) => JsonView::Text(text@),
        Json::Array(items) => JsonView::Array(items_view(items@)),
        Json::Object(entries) => JsonView::Object(entries_view(entries@)),
    }
}

pub open spec fn items_view(items: Seq<Json>) -> Seq<JsonView>
    decreases items,
{
    if items.len() == 0 {
        Seq::empty()
    } else {
        items_view(items.drop_last()).push(json_view(items.last()))
    }
}

pub open spec fn entries_view(entries: Seq<JsonEntry>) -> Seq<(Seq<char>, JsonView)>
    decreases entries,
{
    if entries.len() == 0 {
        Seq::empty()
    } else {
        entries_view(entries.drop_last()).push(
            (entries.last().key@, json_view(entries.last().value)),
        )
    }
}

impl Json {
    pub open spec fn view(&self) -> JsonView {
        json_view(*self)
    }
}

pub proof fn lemma_items_view(items: Seq<Json>)
    ensures
        items_view(items).len() == items.len(),
        forall|i: int| 0 <= i < items.len() ==> #[trigger] items_view(items)[i] == items[i]@,
    decreases items,
{
    if items.len() > 0 {
        lemma_items_view(items.drop_last());
    }
}

pub proof fn lemma_entries_view(entries: Seq<JsonEntry>)
    ensures
        entries_view(entries).len() == entries.len(),
        forall|i: int|
            0 <= i < entries.len() ==> #[trigger] entries_view(entries)[i] == (
                entries[i].key@,
                entries[i].value@,
            ),
    decreases entries,
{
    if entries.len() > 0 {
        lemma_entries_view(entries.drop_last());
    }
}

// ---------------------------------------------------------------------------
// Reading a document
// ---------------------------------------------------------------------------
/// The value of the first entry under `key`.
pub open spec fn lookup(entries: Seq<(Seq<char>, JsonView)>, key: Seq<char>) -> Option<JsonView>
    decreases entries.len(),
{
    if entries.len() == 0 {
        None
    } else if entries[0].0 == key {
        Some(entries[0].1)
    } else {
        lookup(entries.skip(1), key)
    }
}

impl JsonView {
    /// The member `key` of an object; nothing else has members.
    pub open spec fn get(self, key: Seq<char>) -> Option<JsonView> {
        match self {
            JsonView::Object(entries) => lookup(entries, key),
            _ => None,
        }
    }

    pub open spec fn as_text(self) -> Option<Seq<char>> {
        match self {
            JsonView::Text(text) => Some(text),
            _ => None,
        }
    }

    pub open spec fn as_u64(self) -> Option<u64> {
        match self {
            JsonView::Number(NumberView::PosInt(n)) => Some(n),
            _ => None,
        }
    }

    pub open spec fn text_at(self, key: Seq<char>) -> Option<Seq<char>> {
        match self.get(key) {
            Some(value) => value.as_text(),
            None => None,
        }
    }

    pub open spec fn u64_at(self, key: Seq<char>) -> Option<u64> {
        match self.get(key) {
            Some(value) => value.as_u64(),
            None => None,
        }
    }

    /// The member `inner` of the member `outer`.
    pub open spec fn get_in(self, outer: Seq<char>, inner: Seq<char>) -> Option<JsonView> {
        match self.get(outer) {
            Some(value) => value.get(inner),
            None => None,
        }
    }
}

/// The text, or the empty text where there is none.
pub open spec fn text_or_empty(text: Option<Seq<char>>) -> Seq<char> {
    match text {
        Some(text) => text,
        None => Seq::empty(),
    }
}

/// The view of an optional borrowed document.
pub open spec fn option_view(value: Option<&Json>) -> Option<JsonView> {
    match value {
        Some(json) => Some(json@),
        None => None,
    }
}

/// The view of an optional borrowed text.
pub open spec fn str_view(value: Option<&str>) -> Option<Seq<char>> {
    match value {
        Some(text) => Some(text@),
        None => None,
    }
}

impl Json {
    pub fn get(&self, key: &str) -> (r: Option<&Json>)
        ensures
            option_view(r) == self@.get(key@),
    {
        match self {
            Json::Object(entries) => {
                proof {
                    lemma_entries_view(entries@);
                    assert(entries_view(entries@).skip(0) =~= entries_view(entries@));
                }
                let mut i: usize = 0;
                while i < entries.len()
                    invariant
                        i <= entries@.len(),
                        self@ == JsonView::Object(entries_view(entries@)),
                        entries_view(entries@).len() == entries@.len(),
                        forall|j: int|
                            0 <= j < entries@.len() ==> #[trigger] entries_view(entries@)[j] == (
                                entries@[j].key@,
                                entries@[j].value@,
                            ),
                        lookup(entries_view(entries@), key@) == lookup(
                            entries_view(entries@).skip(i as int),
                            key@,
                        ),
                    decreases entries@.len() - i,
                {
                    proof {
                        let rest = entries_view(entries@).skip(i as int);
                        assert(rest[0] == entries_view(entries@)[i as int]);
                        assert(rest.skip(1) =~= entries_view(entries@).skip(i + 1));
                    }
                    if same(entries[i].key.as_str(), key) {
                        return Some(&entries[i].value);
                    }
                    i += 1;
                }
                None
            },
            _ => None,
        }
    }

    pub fn as_str(&self) -> (r: Option<&str>)
        ensures
            str_view(r) == self@.as_text(),
    {
        match self {
            Json::Text(text) => Some(text.as_str()),
            _ => None,
        }
    }

    pub fn as_u64(&self) -> (r: Option<u64>)
        ensures
            r == self@.as_u64(),
    {
        match self {
            Json::Number(JsonNumber::PosInt(n)) => Some(*n),
            _ => None,
        }
    }

    /// The text under `key`.
    pub fn str_at(&self, key: &str) -> (r: Option<&str>)
        ensures
            str_view(r) == self@.text_at(key@),
    {
        match self.get(key) {
            Some(value) => value.as_str(),
            None => None,
        }
    }

    /// The unsigned integer under `key`.
    pub fn u64_at(&self, key: &str) -> (r: Option<u64>)
        ensures
            r == self@.u64_at(key@),
    {
        match self.get(key) {
            Some(value) => value.as_u64(),
            None => None,
        }
    }

    /// The member `inner` of the member `outer`.
    pub fn get_in(&self, outer: &str, inner: &str) -> (r: Option<&Json>)
        ensures
            option_view(r) == self@.get_in(outer@, inner@),
    {
        match self.get(outer) {
            Some(value) => value.get(inner),
            None => None,
        }
    }
}

// ---------------------------------------------------------------------------
// Building a document
// ---------------------------------------------------------------------------
/// The view of a list of texts.
pub open spec fn texts_view(texts: Seq<Seq<char>>) -> JsonView {
    JsonView::Array(texts.map_values(|text: Seq<char>| JsonView::Text(text)))
}

/// The view of an optional text; without one it is null.
pub open spec fn optional_text(text: Option<Seq<char>>) -> JsonView {
    match text {
        Some(text) => JsonView::Text(text),
        None => JsonView::Null,
    }
}

/// The view of an optional string.
pub open spec fn string_view(text: Option<String>) -> Option<Seq<char>> {
    match text {
        Some(text) => Some(text@),
        None => None,
    }
}

pub proof fn lemma_push_entry(entries: Seq<JsonEntry>, entry: JsonEntry)
    ensures
        entries_view(entries.push(entry)) == entries_view(entries).push((entry.key@, entry.value@)),
{
    assert(entries.push(entry).drop_last() =~= entries);
}

/// Appends an entry to those of an object.
pub fn push_entry(entries: &mut Vec<JsonEntry>, key: &str, value: Json)
    ensures
        entries_view(final(entries)@) == entries_view(old(entries)@).push((key@, value@)),
{
    let entry = JsonEntry { key: key.to_owned(), value };
    proof {
        lemma_push_entry(entries@, entry);
    }
    entries.push(entry);
}

/// An optional value as an entry, or no entry.
pub open spec fn optional_entry(key: Seq<char>, value: Option<JsonView>) -> Seq<
    (Seq<char>, JsonView),
> {
    match value {
        Some(value) => seq![(key, value)],
        None => Seq::empty(),
    }
}

/// The view of an optional document.
pub open spec fn owned_view(value: Option<Json>) -> Option<JsonView> {
    match value {
        Some(json) => Some(json@),
        None => None,
    }
}

/// Appends an entry where there is a value for it.
pub fn push_optional(entries: &mut Vec<JsonEntry>, key: &str, value: Option<Json>)
    ensures
        entries_view(final(entries)@) == entries_view(old(entries)@) + optional_entry(
            key@,
            owned_view(value),
        ),
{
    let ghost view = owned_view(value);
    if let Some(value) = value {
        push_entry(entries, key, value);
    }
    assert(entries_view(entries@) =~= entries_view(old(entries)@) + optional_entry(key@, view));
}

/// An optional text as an optional value.
pub open spec fn text_value(text: Option<Seq<char>>) -> Option<JsonView> {
    match text {
        Some(text) => Some(JsonView::Text(text)),
        None => None,
    }
}

/// An optional text as an optional value.
pub fn text_json(text: &Option<String>) -> (r: Option<Json>)
    ensures
        owned_view(r) == text_value(string_view(*text)),
{
    match text {
        Some(text) => Some(Json::text(text.as_str())),
        None => None,
    }
}

/// Appends an item to those of an array.
pub fn push_item(items: &mut Vec<Json>, value: Json)
    ensures
        items_view(final(items)@) == items_view(old(items)@).push(value@),
{
    proof {
        assert(items@.push(value).drop_last() =~= items@);
    }
    items.push(value);
}

impl Json {
    pub fn text(text: &str) -> (r: Json)
        ensures
            r@ == JsonView::Text(text@),
    {
        Json::Text(text.to_owned())
    }

    pub fn number(n: u64) -> (r: Json)
        ensures
            r@ == JsonView::Number(NumberView::PosInt(n)),
    {
        Json::Number(JsonNumber::PosInt(n))
    }

    pub fn texts(texts: &Vec<String>) -> (r: Json)
        ensures
            r@ == texts_view(views(texts@)),
    {
        let mut items: Vec<Json> = Vec::new();
        let mut i: usize = 0;
        let ghost all = views(texts@).map_values(|text: Seq<char>| JsonView::Text(text));
        while i < texts.len()
            invariant
                i <= texts@.len(),
                all == views(texts@).map_values(|text: Seq<char>| JsonView::Text(text)),
                items_view(items@) == all.take(i as int),
            decreases texts@.len() - i,
        {
            push_item(&mut items, Json::text(texts[i].as_str()));
            i += 1;
            assert(items_view(items@) =~= all.take(i as int));
        }
        assert(all.take(i as int) =~= all);
        Json::Array(items)
    }

    pub fn optional_text(text: &Option<String>) -> (r: Json)
        ensures
            r@ == optional_text(string_view(*text)),
    {
        match text {
            Some(text) => Json::text(text.as_str()),
            None => Json::Null,
        }
    }
}

// ---------------------------------------------------------------------------
// Copying
// ---------------------------------------------------------------------------
impl Clone for JsonNumber {
    fn clone(&self) -> (r: Self)
        ensures
            r@ == self@,
    {
        match self {
            JsonNumber::PosInt(n) => JsonNumber::PosInt(*n),
            JsonNumber::NegInt(n) => JsonNumber::NegInt(*n),
            JsonNumber::Float(text) => JsonNumber::Float(text.clone()),
        }
    }
}

impl Clone for Json {
    fn clone(&self) -> (r: Self)
        ensures
            r@ == self@,
        decreases self,
    {
        match self {
            Json::Null => Json::Null,
            Json::Bool(b) => Json::Bool(*b),
            Json::Number(n) => Json::Number(n.clone()),
            Json::Text(text) => Json::Text(text.clone()),
            Json::Array(items) => {
                let mut out: Vec<Json> = Vec::new();
                let mut i: usize = 0;
                while i < items.len()
                    invariant
                        i <= items@.len(),
                        items_view(out@) == items_view(items@.take(i as int)),
                        decreases_to!(self => items),
                    decreases items@.len() - i,
                {
                    let copy = items[i].clone();
                    let ghost before = out@;
                    out.push(copy);
                    proof {
                        assert(out@.drop_last() =~= before);
                        assert(items@.take(i + 1).drop_last() =~= items@.take(i as int));
                    }
                    i += 1;
                }
                proof {
                    assert(items@.take(i as int) =~= items@);
                }
                Json::Array(out)
            },
            Json::Object(entries) => {
                let mut out: Vec<JsonEntry> = Vec::new();
                let mut i: usize = 0;
                while i < entries.len()
                    invariant
                        i <= entries@.len(),
                        entries_view(out@) == entries_view(entries@.take(i as int)),
                        decreases_to!(self => entries),
                    decreases entries@.len() - i,
                {
                    let copy = entries[i].value.clone();
                    let ghost before = out@;
                    out.push(JsonEntry { key: entries[i].key.clone(), value: copy });
                    proof {
                        assert(out@.drop_last() =~= before);
                        assert(entries@.take(i + 1).drop_last() =~= entries@.take(i as int));
                    }
                    i += 1;
                }
                proof {
                    assert(entries@.take(i as int) =~= entries@);
                }
                Json::Object(out)
            },
        }
    }
}

// ---------------------------------------------------------------------------
// Compact text
// ---------------------------------------------------------------------------
/// The lower-case hexadecimal digit of `d`.
pub open spec fn hex_digit(d: int) -> char {
    if d < 10 {
        (48 + d) as char
    } else {
        (87 + d) as char
    }
}

/// How a character stands inside a string literal.
pub open spec fn escaped(c: char) -> Seq<char> {
    if c == '"' {
        seq!['\\', '"']
    } else if c == '\\' {
        seq!['\\', '\\']
    } else if c == '\u{8}' {
        seq!['\\', 'b']
    } else if c == '\u{c}' {
        seq!['\\', 'f']
    } else if c == '\n' {
        seq!['\\', 'n']
    } else if c == '\r' {
        seq!['\\', 'r']
    } else if c == '\t' {
        seq!['\\', 't']
    } else if (c as u32) < 0x20 {
        seq!['\\', 'u', '0', '0', hex_digit(c as int / 16), hex_digit(c as int % 16)]
    } else {
        seq![c]
    }
}

pub open spec fn escaped_text(text: Seq<char>) -> Seq<char>
    decreases text.len(),
{
    if text.len() == 0 {
        Seq::empty()
    } else {
        escaped_text(text.drop_last()) + escaped(text.last())
    }
}

/// The string literal of `text`.
pub open spec fn quoted(text: Seq<char>) -> Seq<char> {
    seq!['"'] + escaped_text(text) + seq!['"']
}

pub open spec fn number_text(n: NumberView) -> Seq<char> {
    match n {
        NumberView::PosInt(n) => decimal(n as nat),
        NumberView::NegInt(n) => if n < 0 {
            seq!['-'] + decimal((-n) as nat)
        } else {
            decimal(n as nat)
        },
        NumberView::Float(text) => text,
    }
}

/// The compact text of a document: no white space, entries in order.
pub open spec fn text_of(value: JsonView) -> Seq<char>
    decreases value,
{
    match value {
        JsonView::Null => "null"@,
        JsonView::Bool(b) => if b {
            "true"@
        } else {
            "false"@
        },
        JsonView::Number(n) => number_text(n),
        JsonView::Text(text) => quoted(text),
        JsonView::Array(items) => seq!['['] + items_text(items) + seq![']'],
        JsonView::Object(entries) => seq!['{'] + entries_text(entries) + seq!['}'],
    }
}

/// The items separated by commas.
pub open spec fn items_text(items: Seq<JsonView>) -> Seq<char>
    decreases items,
{
    if items.len() == 0 {
        Seq::empty()
    } else if items.len() == 1 {
        text_of(items[0])
    } else {
        items_text(items.drop_last()) + seq![','] + text_of(items.last())
    }
}

/// The entries separated by commas, each key a string literal.
pub open spec fn entries_text(entries: Seq<(Seq<char>, JsonView)>) -> Seq<char>
    decreases entries,
{
    if entries.len() == 0 {
        Seq::empty()
    } else if entries.len() == 1 {
        quoted(entries[0].0) + seq![':'] + text_of(entries[0].1)
    } else {
        entries_text(entries.drop_last()) + seq![','] + quoted(entries.last().0) + seq![':']
            + text_of(entries.last().1)
    }
}

/// The bytes of the compact text.
pub open spec fn bytes_of(value: JsonView) -> Seq<u8> {
    encode_utf8(text_of(value))
}

/// `serde_json::to_string` on a string: its string literal. Quotes, backslashes and
/// control characters are escaped, the control characters without a short form by
/// their code; every other character stands for itself.
#[verifier::external_body]
fn quote(text: &str) -> (r: String)
    ensures
        r@ == quoted(text@),
{
    serde_json::to_string(text).unwrap_or_default()
}

/// Appends the string literal of `text`.
pub fn write_quoted(text: &str, out: &mut String)
    ensures
        final(out)@ == old(out)@ + quoted(text@),
{
    out.append(quote(text).as_str());
}

fn write_number(n: &JsonNumber, out: &mut String)
    ensures
        final(out)@ == old(out)@ + number_text(n@),
{
    match n {
        JsonNumber::PosInt(n) => {
            out.append(decimal_of(*n).as_str());
        },
        JsonNumber::NegInt(n) => {
            let n: i64 = *n;
            if n < 0 {
                out.push('-');
                let magnitude: u64 = (-(n as i128)) as u64;
                out.append(decimal_of(magnitude).as_str());
            } else {
                out.append(decimal_of(n as u64).as_str());
            }
        },
        JsonNumber::Float(text) => {
            out.append(text.as_str());
        },
    }
    assert(out@ =~= old(out)@ + number_text(n@));
}

impl Json {
    /// Appends the compact text of the document.
    pub fn write_text(&self, out: &mut String)
        ensures
            final(out)@ == old(out)@ + text_of(self@),
        decreases self,
    {
        let ghost start = out@;
        match self {
            Json::Null => {
                out.append("null");
            },
            Json::Bool(b) => {
                if *b {
                    out.append("true");
                } else {
                    out.append("false");
                }
            },
            Json::Number(n) => {
                write_number(n, out);
            },
            Json::Text(text) => {
                write_quoted(text.as_str(), out);
            },
            Json::Array(items) => {
                out.push('[');
                let mut i: usize = 0;
                while i < items.len()
                    invariant
                        i <= items@.len(),
                        out@ == start + seq!['['] + items_text(
                            items_view(items@.take(i as int)),
                        ),
                        decreases_to!(self => items),
                    decreases items@.len() - i,
                {
                    if i > 0 {
                        out.push(',');
                    }
                    items[i].write_text(out);
                    proof {
                        lemma_items_view(items@.take(i as int));
                        lemma_items_view(items@.take(i + 1));
                        assert(items@.take(i + 1).drop_last() =~= items@.take(i as int));
                        let next = items_view(items@.take(i + 1));
                        assert(next.drop_last() =~= items_view(items@.take(i as int)));
                        assert(out@ =~= start + seq!['['] + items_text(next));
                    }
                    i += 1;
                }
                proof {
                    assert(items@.take(i as int) =~= items@);
                }
                out.push(']');
            },
            Json::Object(entries) => {
                out.push('{');
                let mut i: usize = 0;
                while i < entries.len()
                    invariant
                        i <= entries@.len(),
                        out@ == start + seq!['{'] + entries_text(
                            entries_view(entries@.take(i as int)),
                        ),
                        decreases_to!(self => entries),
                    decreases entries@.len() - i,
                {
                    if i > 0 {
                        out.push(',');
                    }
                    write_quoted(entries[i].key.as_str(), out);
                    out.push(':');
                    entries[i].value.write_text(out);
                    proof {
                        lemma_entries_view(entries@.take(i as int));
                        lemma_entries_view(entries@.take(i + 1));
                        assert(entries@.take(i + 1).drop_last() =~= entries@.take(i as int));
                        let next = entries_view(entries@.take(i + 1));
                        assert(next.drop_last() =~= entries_view(entries@.take(i as int)));
                        assert(out@ =~= start + seq!['{'] + entries_text(next));
                    }
                    i += 1;
                }
                proof {
                    assert(entries@.take(i as int) =~= entries@);
                }
                out.push('}');
            },
        }
        assert(out@ =~= start + text_of(self@));
    }

    /// The compact text of the document.
    pub fn to_text(&self) -> (r: String)
        ensures
            r@ == text_of(self@),
    {
        let mut r = String::new();
        self.write_text(&mut r);
        assert(r@ =~= text_of(self@));
        r
    }

    /// The bytes of the compact text.
    pub fn to_bytes(&self) -> (r: Vec<u8>)
        ensures
            r@ == bytes_of(self@),
    {
        self.to_text().as_str().as_bytes_vec()
    }
}

} // verus!
