//! UUIDs as numbers: their text, and the ones that names give.
use vstd::prelude::*;

use crate::json::{hex_digit, quoted};

verus! {

/// The `width` low hexadecimal digits of `n`, most significant first.
pub open spec fn hex_number(n: nat, width: nat) -> Seq<char>
    decreases width,
{
    if width == 0 {
        Seq::empty()
    } else {
        hex_number(n / 16, (width - 1) as nat).push(hex_digit((n % 16) as int))
    }
}

/// The hyphenated text of a UUID.
pub open spec fn uuid_text(value: u128) -> Seq<char> {
    let digits = hex_number(value as nat, 32);
    digits.subrange(0, 8) + seq!['-'] + digits.subrange(8, 12) + seq!['-'] + digits.subrange(12, 16)
        + seq!['-'] + digits.subrange(16, 20) + seq!['-'] + digits.subrange(20, 32)
}

/// The UUID that a text names, or what is wrong with the text.
pub uninterp spec fn uuid_result(text: Seq<char>) -> Result<u128, Seq<char>>;

/// The UUID that a text names.
pub open spec fn parsed_uuid(text: Seq<char>) -> Option<u128> {
    match uuid_result(text) {
        Ok(value) => Some(value),
        Err(_) => None,
    }
}

/// The version 5 UUID of a name in a namespace.
pub uninterp spec fn uuid_v5(namespace: u128, name: Seq<u8>) -> u128;

/// `uuid::Uuid::parse_str`: which UUID a text names, and the text of the error where
/// it names none, depend on the text alone. The hyphenated text of a UUID names it.
#[verifier::external_body]
pub(crate) fn read_uuid(text: &str) -> (r: Result<u128, String>)
    ensures
        match r {
            Ok(value) => uuid_result(text@) == Ok::<u128, Seq<char>>(value),
            Err(e) => uuid_result(text@) == Err::<u128, Seq<char>>(e@),
        },
        forall|value: u128| text@ == #[trigger] uuid_text(value) ==> r is Ok && r->Ok_0 == value,
{
    match uuid::Uuid::parse_str(text) {
        Ok(value) => Ok(value.as_u128()),
        Err(error) => Err(error.to_string()),
    }
}

pub(crate) fn parse_uuid(text: &str) -> (r: Option<u128>)
    ensures
        r == parsed_uuid(text@),
        forall|value: u128| text@ == #[trigger] uuid_text(value) ==> r == Some(value),
{
    match read_uuid(text) {
        Ok(value) => Some(value),
        Err(_) => None,
    }
}

/// The UUID that a JSON text holds, or the text of the error.
pub uninterp spec fn uuid_from_json(text: Seq<char>) -> Result<u128, Seq<char>>;

/// `serde_json::from_value` into a `uuid::Uuid`, on the value that a JSON text
/// holds. What comes out depends on the text alone. A string that is the
/// hyphenated text of a UUID gives the UUID.
#[verifier::external_body]
pub(crate) fn read_json_uuid(text: &str) -> (r: Result<u128, String>)
    ensures
        match r {
            Ok(value) => uuid_from_json(text@) == Ok::<u128, Seq<char>>(value),
            Err(e) => uuid_from_json(text@) == Err::<u128, Seq<char>>(e@),
        },
        forall|value: u128|
            text@ == quoted(#[trigger] uuid_text(value)) ==> r is Ok && r->Ok_0 == value,
{
    let read = serde_json::from_str::<serde_json::Value>(text).and_then(
        serde_json::from_value::<uuid::Uuid>,
    );
    match read {
        Ok(value) => Ok(value.as_u128()),
        Err(error) => Err(error.to_string()),
    }
}

/// `uuid::Uuid::new_v5`: the UUID depends on the namespace and the name alone.
#[verifier::external_body]
pub(crate) fn name_uuid(namespace: u128, name: &[u8]) -> (r: u128)
    ensures
        r == uuid_v5(namespace, name@),
{
    uuid::Uuid::new_v5(&uuid::Uuid::from_u128(namespace), name).as_u128()
}

fn hex_char_of(d: u128) -> (r: char)
    requires
        d < 16,
    ensures
        r == hex_digit(d as int),
{
    if d < 10 {
        (48 + d as u8) as char
    } else {
        (87 + d as u8) as char
    }
}

fn hex_digits(n: u128, width: u32) -> (r: Vec<char>)
    ensures
        r@ == hex_number(n as nat, width as nat),
    decreases width,
{
    if width == 0 {
        Vec::new()
    } else {
        let mut r = hex_digits(n / 16, width - 1);
        r.push(hex_char_of(n % 16));
        r
    }
}

proof fn lemma_hex_number_len(n: nat, width: nat)
    ensures
        hex_number(n, width).len() == width,
    decreases width,
{
    if width > 0 {
        lemma_hex_number_len(n / 16, (width - 1) as nat);
    }
}

/// The hyphenated text of a UUID.
pub fn format_uuid(value: u128) -> (r: String)
    ensures
        r@ == uuid_text(value),
{
    let digits = hex_digits(value, 32);
    proof {
        lemma_hex_number_len(value as nat, 32);
    }
    let mut r = crate::text::substring(&digits, 0, 8);
    r.push('-');
    r.append(crate::text::substring(&digits, 8, 12).as_str());
    r.push('-');
    r.append(crate::text::substring(&digits, 12, 16).as_str());
    r.push('-');
    r.append(crate::text::substring(&digits, 16, 20).as_str());
    r.push('-');
    r.append(crate::text::substring(&digits, 20, 32).as_str());
    assert(r@ =~= uuid_text(value));
    r
}

spec fn pow16(k: nat) -> nat
    decreases k,
{
    if k == 0 {
        1
    } else {
        16 * pow16((k - 1) as nat)
    }
}

proof fn lemma_hex_number_injective(a: nat, b: nat, width: nat)
    requires
        hex_number(a, width) == hex_number(b, width),
        a < pow16(width),
        b < pow16(width),
    ensures
        a == b,
    decreases width,
{
    if width > 0 {
        let w = (width - 1) as nat;
        let x = hex_number(a, width);
        let y = hex_number(b, width);
        assert(x.drop_last() =~= hex_number(a / 16, w));
        assert(y.drop_last() =~= hex_number(b / 16, w));
        assert(x.last() == hex_digit((a % 16) as int));
        assert(y.last() == hex_digit((b % 16) as int));
        assert(pow16(width) == 16 * pow16(w));
        lemma_hex_number_injective(a / 16, b / 16, w);
    }
}

/// Different UUIDs have different texts.
pub proof fn law_uuid_text_injective(a: u128, b: u128)
    requires
        uuid_text(a) == uuid_text(b),
    ensures
        a == b,
{
    let x = hex_number(a as nat, 32);
    let y = hex_number(b as nat, 32);
    lemma_hex_number_len(a as nat, 32);
    lemma_hex_number_len(b as nat, 32);
    let s = uuid_text(a);
    let t = uuid_text(b);
    assert(x =~= s.subrange(0, 8) + s.subrange(9, 13) + s.subrange(14, 18) + s.subrange(19, 23)
        + s.subrange(24, 36));
    assert(y =~= t.subrange(0, 8) + t.subrange(9, 13) + t.subrange(14, 18) + t.subrange(19, 23)
        + t.subrange(24, 36));
    assert(pow16(32) == 0x1_0000_0000_0000_0000_0000_0000_0000_0000) by {
        reveal_with_fuel(pow16, 33);
    }
    lemma_hex_number_injective(a as nat, b as nat, 32);
}

} // verus!
