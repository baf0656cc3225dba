//! The compact text of a document stands on one line.
use vstd::prelude::*;
use vstd::utf8::{encode_scalar, encode_utf8};

use crate::json::{
    bytes_of, entries_text, escaped, escaped_text, hex_digit, items_text, quoted, text_of, JsonView,
    NumberView,
};
use crate::json_law::{number_char, valid, valid_entries, valid_items};
use crate::text::decimal;

verus! {

/// No control character.
pub open spec fn plain_chars(text: Seq<char>) -> bool {
    forall|i: int| 0 <= i < text.len() ==> #[trigger] text[i] as u32 >= 0x20
}

proof fn lemma_plain_joined(a: Seq<char>, b: Seq<char>)
    requires
        plain_chars(a),
        plain_chars(b),
    ensures
        plain_chars(a + b),
{
}

proof fn lemma_plain_decimal(n: nat)
    ensures
        plain_chars(decimal(n)),
    decreases n,
{
    if n >= 10 {
        lemma_plain_decimal(n / 10);
    }
}

proof fn lemma_plain_escaped(text: Seq<char>)
    ensures
        plain_chars(escaped_text(text)),
    decreases text.len(),
{
    if text.len() > 0 {
        lemma_plain_escaped(text.drop_last());
        let c: char = text[text.len() - 1];
        vstd::utf8::char_is_scalar(c);
        vstd::utf8::char_u32_cast(c, c as u32);
        if (c as u32) < 0x20 {
            let high = c as int / 16;
            let low = c as int % 16;
            assert(0 <= high < 16 && 0 <= low < 16);
            assert(hex_digit(high) as u32 >= 0x20);
            assert(hex_digit(low) as u32 >= 0x20);
        }
        assert forall|i: int| 0 <= i < escaped(c).len() implies #[trigger] escaped(c)[i] as u32
            >= 0x20 by {}
        lemma_plain_joined(escaped_text(text.drop_last()), escaped(c));
    }
}

proof fn lemma_plain_quoted(text: Seq<char>)
    ensures
        plain_chars(quoted(text)),
{
    lemma_plain_escaped(text);
}

proof fn lemma_plain_text(value: JsonView)
    requires
        valid(value),
    ensures
        plain_chars(text_of(value)),
    decreases value,
{
    match value {
        JsonView::Null => {
            reveal_strlit("null");
        },
        JsonView::Bool(b) => {
            reveal_strlit("true");
            reveal_strlit("false");
        },
        JsonView::Number(n) => {
            match n {
                NumberView::PosInt(n) => {
                    lemma_plain_decimal(n as nat);
                },
                NumberView::NegInt(n) => {
                    lemma_plain_decimal((-n) as nat);
                },
                NumberView::Float(text) => {
                    assert forall|i: int| 0 <= i < text.len() implies #[trigger] text[i] as u32
                        >= 0x20 by {
                        assert(number_char(text[i]));
                    }
                },
            }
        },
        JsonView::Text(text) => {
            lemma_plain_quoted(text);
        },
        JsonView::Array(items) => {
            lemma_plain_items(items);
        },
        JsonView::Object(entries) => {
            lemma_plain_entries(entries);
        },
    }
}

proof fn lemma_plain_items(items: Seq<JsonView>)
    requires
        valid_items(items),
    ensures
        plain_chars(items_text(items)),
    decreases items,
{
    if items.len() == 1 {
        assert(items.last() == items[0]);
        lemma_plain_text(items[0]);
    } else if items.len() > 1 {
        lemma_plain_items(items.drop_last());
        lemma_plain_text(items.last());
    }
}

proof fn lemma_plain_entries(entries: Seq<(Seq<char>, JsonView)>)
    requires
        valid_entries(entries),
    ensures
        plain_chars(entries_text(entries)),
    decreases entries,
{
    if entries.len() == 1 {
        assert(entries.last() == entries[0]);
        lemma_plain_quoted(entries[0].0);
        lemma_plain_text(entries[0].1);
    } else if entries.len() > 1 {
        lemma_plain_entries(entries.drop_last());
        lemma_plain_quoted(entries.last().0);
        lemma_plain_text(entries.last().1);
    }
}

proof fn lemma_scalar_bytes(scalar: u32)
    requires
        0x20 <= scalar <= 0x10ffff,
    ensures
        forall|i: int| 0 <= i < encode_scalar(scalar).len() ==> #[trigger] encode_scalar(scalar)[i]
            >= 0x20,
{
    assert(scalar <= 0x7f ==> (scalar & 0x7f) as u8 == scalar) by (bit_vector);
    assert(0xc0u8 | ((scalar >> 6) & 0x1f) as u8 >= 0x20) by (bit_vector);
    assert(0xe0u8 | ((scalar >> 12) & 0x0f) as u8 >= 0x20) by (bit_vector);
    assert(0xf0u8 | ((scalar >> 18) & 0x07) as u8 >= 0x20) by (bit_vector);
    assert(0x80u8 | (scalar & 0x3f) as u8 >= 0x20) by (bit_vector);
    assert(0x80u8 | ((scalar >> 6) & 0x3f) as u8 >= 0x20) by (bit_vector);
    assert(0x80u8 | ((scalar >> 12) & 0x3f) as u8 >= 0x20) by (bit_vector);
}

proof fn lemma_plain_bytes(text: Seq<char>)
    requires
        plain_chars(text),
    ensures
        forall|i: int| 0 <= i < encode_utf8(text).len() ==> #[trigger] encode_utf8(text)[i] >= 0x20,
    decreases text.len(),
{
    if text.len() > 0 {
        assert(plain_chars(text.drop_first()));
        lemma_plain_bytes(text.drop_first());
        let c = text[0];
        assert(c as u32 >= 0x20);
        vstd::utf8::char_is_scalar(c);
        lemma_scalar_bytes(text[0] as u32);
        reveal(encode_utf8);
        assert(encode_utf8(text) =~= encode_scalar(text[0] as u32) + encode_utf8(
            text.drop_first(),
        ));
    }
}

/// The bytes of a document hold no control character, and so no line break.
pub proof fn law_document_is_one_line(value: JsonView)
    requires
        valid(value),
    ensures
        forall|i: int| 0 <= i < bytes_of(value).len() ==> #[trigger] bytes_of(value)[i] >= 0x20,
{
    lemma_plain_text(value);
    lemma_plain_bytes(text_of(value));
}

} // verus!
