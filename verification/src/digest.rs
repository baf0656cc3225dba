//! SHA-256 digests, hexadecimal text and length-prefixed hash inputs.
use vstd::prelude::*;
use vstd::utf8::encode_utf8;

use crate::json::hex_digit;
use crate::text::views;

verus! {

/// The SHA-256 digest of a sequence of bytes.
pub uninterp spec fn sha256(bytes: Seq<u8>) -> Seq<u8>;

/// `sha2::Sha256::digest`: the digest is a function of the bytes alone, and it
/// is 32 bytes long.
#[verifier::external_body]
pub(crate) fn digest(bytes: &[u8]) -> (r: Vec<u8>)
    ensures
        r@ == sha256(bytes@),
        r@.len() == 32,
{
    <sha2::Sha256 as sha2::Digest>::digest(bytes).to_vec()
}

// ---------------------------------------------------------------------------
// Hexadecimal text
// ---------------------------------------------------------------------------
/// Two lower-case hexadecimal digits for each byte.
pub open spec fn hex_text(bytes: Seq<u8>) -> Seq<char>
    decreases bytes.len(),
{
    if bytes.len() == 0 {
        Seq::empty()
    } else {
        hex_text(bytes.drop_last()).push(hex_digit(bytes.last() as int / 16)).push(
            hex_digit(bytes.last() as int % 16),
        )
    }
}

fn hex_char(d: u8) -> (r: char)
    requires
        d < 16,
    ensures
        r == hex_digit(d as int),
{
    if d < 10 {
        (48 + d) as char
    } else {
        (87 + d) as char
    }
}

pub fn hex(bytes: &[u8]) -> (r: String)
    ensures
        r@ == hex_text(bytes@),
{
    let mut r = String::new();
    let mut i: usize = 0;
    while i < bytes.len()
        invariant
            i <= bytes@.len(),
            r@ == hex_text(bytes@.take(i as int)),
        decreases bytes@.len() - i,
    {
        let b = bytes[i];
        proof {
            assert(bytes@.take(i + 1).drop_last() =~= bytes@.take(i as int));
            assert(bytes@.take(i + 1).last() == b);
        }
        r.push(hex_char(b / 16));
        r.push(hex_char(b % 16));
        i += 1;
    }
    assert(bytes@.take(i as int) =~= bytes@);
    r
}

/// Hexadecimal text determines the bytes.
pub proof fn law_hex_injective(a: Seq<u8>, b: Seq<u8>)
    requires
        hex_text(a) == hex_text(b),
    ensures
        a == b,
    decreases a.len(),
{
    lemma_hex_len(a);
    lemma_hex_len(b);
    if a.len() > 0 {
        let x = hex_text(a);
        let y = hex_text(b);
        assert(x.drop_last().drop_last() =~= hex_text(a.drop_last()));
        assert(y.drop_last().drop_last() =~= hex_text(b.drop_last()));
        law_hex_injective(a.drop_last(), b.drop_last());
        assert(x[x.len() - 1] == hex_digit(a.last() as int % 16));
        assert(x[x.len() - 2] == hex_digit(a.last() as int / 16));
        assert(y[y.len() - 1] == hex_digit(b.last() as int % 16));
        assert(y[y.len() - 2] == hex_digit(b.last() as int / 16));
        assert(a.last() == b.last());
        assert(a =~= a.drop_last().push(a.last()));
        assert(b =~= b.drop_last().push(b.last()));
    } else {
        assert(a =~= b);
    }
}

pub proof fn lemma_hex_len(bytes: Seq<u8>)
    ensures
        hex_text(bytes).len() == 2 * bytes.len(),
    decreases bytes.len(),
{
    if bytes.len() > 0 {
        lemma_hex_len(bytes.drop_last());
    }
}

/// The hexadecimal SHA-256 digest.
pub open spec fn sha256_text(bytes: Seq<u8>) -> Seq<char> {
    hex_text(sha256(bytes))
}

/// The hexadecimal SHA-256 digest of `bytes`.
pub fn sha256_hex(bytes: &[u8]) -> (r: String)
    ensures
        r@ == sha256_text(bytes@),
        r@.len() == 64,
{
    let d = digest(bytes);
    proof {
        lemma_hex_len(d@);
    }
    hex(d.as_slice())
}

// ---------------------------------------------------------------------------
// Length-prefixed hash inputs
// ---------------------------------------------------------------------------
/// The `width` low base-256 digits of `n`, most significant first.
pub open spec fn be_bytes(n: nat, width: nat) -> Seq<u8>
    decreases width,
{
    if width == 0 {
        Seq::empty()
    } else {
        be_bytes(n / 256, (width - 1) as nat).push((n % 256) as u8)
    }
}

/// The length of `value` in eight bytes, followed by `value`.
pub open spec fn framed(value: Seq<u8>) -> Seq<u8> {
    be_bytes(value.len(), 8) + value
}

/// Each value framed, in order.
pub open spec fn framed_list(values: Seq<Seq<char>>) -> Seq<u8>
    decreases values.len(),
{
    if values.len() == 0 {
        Seq::empty()
    } else {
        framed_list(values.drop_last()) + framed(encode_utf8(values.last()))
    }
}

/// The hash input that nothing has been added to yet.
pub open spec fn preimage_start(domain: Seq<char>) -> Seq<u8> {
    encode_utf8("opscodex/hash-preimage/v1"@) + framed(encode_utf8(domain))
}

pub open spec fn field(name: Seq<char>, value: Seq<u8>) -> Seq<u8> {
    framed(encode_utf8(name)) + framed(value)
}

pub open spec fn list_field(name: Seq<char>, values: Seq<Seq<char>>) -> Seq<u8> {
    framed(encode_utf8(name)) + be_bytes(values.len(), 8) + framed_list(values)
}

pub open spec fn optional_field(name: Seq<char>, value: Option<Seq<u8>>) -> Seq<u8> {
    match value {
        Some(value) => framed(encode_utf8(name)) + seq![1u8] + framed(value),
        None => framed(encode_utf8(name)) + seq![0u8],
    }
}

fn push_be_bytes(out: &mut Vec<u8>, n: u64, width: u64)
    ensures
        final(out)@ == old(out)@ + be_bytes(n as nat, width as nat),
    decreases width,
{
    if width > 0 {
        push_be_bytes(out, n / 256, width - 1);
        out.push((n % 256) as u8);
    }
    assert(out@ =~= old(out)@ + be_bytes(n as nat, width as nat));
}

fn push_bytes(out: &mut Vec<u8>, bytes: &[u8])
    ensures
        final(out)@ == old(out)@ + bytes@,
{
    let ghost start = out@;
    let mut i: usize = 0;
    while i < bytes.len()
        invariant
            i <= bytes@.len(),
            out@ == start + bytes@.take(i as int),
        decreases bytes@.len() - i,
    {
        out.push(bytes[i]);
        i += 1;
        assert(out@ =~= start + bytes@.take(i as int));
    }
    assert(bytes@.take(i as int) =~= bytes@);
}

/// A hash input under construction: every field is preceded by its length, so
/// that no two lists of fields give the same bytes.
pub struct Preimage {
    bytes: Vec<u8>,
}

impl Preimage {
    pub closed spec fn view(&self) -> Seq<u8> {
        self.bytes@
    }

    pub fn canonical(domain: &str) -> (r: Self)
        ensures
            r@ == preimage_start(domain@),
    {
        let mut p = Preimage { bytes: Vec::new() };
        push_bytes(&mut p.bytes, "opscodex/hash-preimage/v1".as_bytes());
        p.push_length_prefixed(domain.as_bytes());
        assert(p@ =~= preimage_start(domain@));
        p
    }

    pub fn push_field(&mut self, name: &str, value: &[u8])
        ensures
            final(self)@ == old(self)@ + field(name@, value@),
    {
        self.push_length_prefixed(name.as_bytes());
        self.push_length_prefixed(value);
        assert(self@ =~= old(self)@ + field(name@, value@));
    }

    pub fn push_string_list(&mut self, name: &str, values: &Vec<String>)
        ensures
            final(self)@ == old(self)@ + list_field(name@, views(values@)),
    {
        self.push_length_prefixed(name.as_bytes());
        push_be_bytes(&mut self.bytes, values.len() as u64, 8);
        let ghost head = self@;
        let mut i: usize = 0;
        proof {
            assert(views(values@.take(0)) =~= Seq::empty());
            assert(self@ =~= head + framed_list(views(values@.take(0))));
        }
        while i < values.len()
            invariant
                i <= values@.len(),
                self@ == head + framed_list(views(values@.take(i as int))),
            decreases values@.len() - i,
        {
            self.push_length_prefixed(values[i].as_str().as_bytes());
            proof {
                let next = views(values@.take(i + 1));
                assert(next.drop_last() =~= views(values@.take(i as int)));
                assert(next.last() == values@[i as int]@);
                assert(self@ =~= head + framed_list(next));
            }
            i += 1;
        }
        assert(values@.take(i as int) =~= values@);
        assert(self@ =~= old(self)@ + list_field(name@, views(values@)));
    }

    pub fn push_optional_field(&mut self, name: &str, value: Option<&[u8]>)
        ensures
            final(self)@ == old(self)@ + optional_field(
                name@,
                match value {
                    Some(v) => Some(v@),
                    None => None,
                },
            ),
    {
        self.push_length_prefixed(name.as_bytes());
        match value {
            Some(v) => {
                self.bytes.push(1);
                self.push_length_prefixed(v);
                assert(self@ =~= old(self)@ + optional_field(name@, Some(v@)));
            },
            None => {
                self.bytes.push(0);
                assert(self@ =~= old(self)@ + optional_field(name@, None));
            },
        }
    }

    fn push_length_prefixed(&mut self, value: &[u8])
        ensures
            final(self)@ == old(self)@ + framed(value@),
    {
        push_be_bytes(&mut self.bytes, value.len() as u64, 8);
        push_bytes(&mut self.bytes, value);
        assert(self@ =~= old(self)@ + framed(value@));
    }

    /// The hexadecimal SHA-256 digest of the input.
    pub fn finish(&self) -> (r: String)
        ensures
            r@ == sha256_text(self@),
            r@.len() == 64,
    {
        sha256_hex(self.bytes.as_slice())
    }
}

// ---------------------------------------------------------------------------
// Fields can be told apart
// ---------------------------------------------------------------------------
/// The length fits into its prefix.
pub open spec fn fits(value: Seq<u8>) -> bool {
    value.len() <= u64::MAX
}

pub proof fn lemma_be_bytes_len(n: nat, width: nat)
    ensures
        be_bytes(n, width).len() == width,
    decreases width,
{
    if width > 0 {
        lemma_be_bytes_len(n / 256, (width - 1) as nat);
    }
}

spec fn pow256(k: nat) -> nat
    decreases k,
{
    if k == 0 {
        1
    } else {
        256 * pow256((k - 1) as nat)
    }
}

proof fn lemma_be_bytes_injective(a: nat, b: nat, width: nat)
    requires
        be_bytes(a, width) == be_bytes(b, width),
        a < pow256(width),
        b < pow256(width),
    ensures
        a == b,
    decreases width,
{
    if width > 0 {
        let w = (width - 1) as nat;
        let x = be_bytes(a, width);
        let y = be_bytes(b, width);
        assert(x.drop_last() =~= be_bytes(a / 256, w));
        assert(y.drop_last() =~= be_bytes(b / 256, w));
        assert(x.last() == (a % 256) as u8);
        assert(y.last() == (b % 256) as u8);
        assert(pow256(width) == 256 * pow256(w));
        lemma_be_bytes_injective(a / 256, b / 256, w);
    }
}

proof fn lemma_u64_fits()
    ensures
        u64::MAX < pow256(8),
{
    reveal_with_fuel(pow256, 9);
    assert(pow256(8) == 0x1_0000_0000_0000_0000);
}

pub proof fn lemma_framed_unique(a: Seq<u8>, b: Seq<u8>, x: Seq<u8>, y: Seq<u8>)
    requires
        fits(a),
        fits(b),
        framed(a) + x == framed(b) + y,
    ensures
        a == b,
        x == y,
{
    let s = framed(a) + x;
    let t = framed(b) + y;
    lemma_be_bytes_len(a.len(), 8);
    lemma_be_bytes_len(b.len(), 8);
    assert(s.take(8) =~= be_bytes(a.len(), 8));
    assert(t.take(8) =~= be_bytes(b.len(), 8));
    lemma_u64_fits();
    lemma_be_bytes_injective(a.len(), b.len(), 8);
    assert(a =~= s.subrange(8, 8 + a.len() as int));
    assert(b =~= t.subrange(8, 8 + b.len() as int));
    assert(x =~= s.skip(8 + a.len() as int));
    assert(y =~= t.skip(8 + b.len() as int));
}

/// A named value is told apart from any other, whatever follows.
pub proof fn lemma_field_unique(
    name: Seq<char>,
    a: Seq<u8>,
    b: Seq<u8>,
    x: Seq<u8>,
    y: Seq<u8>,
)
    requires
        fits(a),
        fits(b),
        field(name, a) + x == field(name, b) + y,
    ensures
        a == b,
        x == y,
{
    let n = framed(encode_utf8(name));
    let s = field(name, a) + x;
    let t = field(name, b) + y;
    assert(s.skip(n.len() as int) =~= framed(a) + x);
    assert(t.skip(n.len() as int) =~= framed(b) + y);
    lemma_framed_unique(a, b, x, y);
}

pub open spec fn list_fits(values: Seq<Seq<char>>) -> bool {
    &&& values.len() <= u64::MAX
    &&& forall|i: int| 0 <= i < values.len() ==> fits(encode_utf8(#[trigger] values[i]))
}

proof fn lemma_framed_list_front(values: Seq<Seq<char>>)
    requires
        values.len() > 0,
    ensures
        framed_list(values) == framed(encode_utf8(values[0])) + framed_list(values.skip(1)),
    decreases values.len(),
{
    if values.len() == 1 {
        assert(values.drop_last() =~= Seq::empty());
        assert(values.skip(1) =~= Seq::empty());
        assert(framed_list(values) =~= framed(encode_utf8(values[0])) + framed_list(
            values.skip(1),
        ));
    } else {
        lemma_framed_list_front(values.drop_last());
        assert(values.drop_last().skip(1) =~= values.skip(1).drop_last());
        assert(framed_list(values) =~= framed(encode_utf8(values[0])) + framed_list(
            values.skip(1),
        ));
    }
}

proof fn lemma_framed_list_unique(
    a: Seq<Seq<char>>,
    b: Seq<Seq<char>>,
    x: Seq<u8>,
    y: Seq<u8>,
)
    requires
        list_fits(a),
        list_fits(b),
        a.len() == b.len(),
        framed_list(a) + x == framed_list(b) + y,
    ensures
        a == b,
        x == y,
    decreases a.len(),
{
    if a.len() > 0 {
        lemma_framed_list_front(a);
        lemma_framed_list_front(b);
        let p = framed_list(a.skip(1)) + x;
        let q = framed_list(b.skip(1)) + y;
        assert(framed_list(a) + x =~= framed(encode_utf8(a[0])) + p);
        assert(framed_list(b) + y =~= framed(encode_utf8(b[0])) + q);
        lemma_framed_unique(encode_utf8(a[0]), encode_utf8(b[0]), p, q);
        vstd::utf8::encode_utf8_decode_utf8(a[0]);
        vstd::utf8::encode_utf8_decode_utf8(b[0]);
        lemma_framed_list_unique(a.skip(1), b.skip(1), x, y);
        assert(a =~= seq![a[0]] + a.skip(1));
        assert(b =~= seq![b[0]] + b.skip(1));
    } else {
        assert(a =~= b);
        assert(x =~= framed_list(a) + x);
        assert(y =~= framed_list(b) + y);
    }
}

/// A named list is told apart from any other, whatever follows.
pub proof fn lemma_list_field_unique(
    name: Seq<char>,
    a: Seq<Seq<char>>,
    b: Seq<Seq<char>>,
    x: Seq<u8>,
    y: Seq<u8>,
)
    requires
        list_fits(a),
        list_fits(b),
        list_field(name, a) + x == list_field(name, b) + y,
    ensures
        a == b,
        x == y,
{
    let n = framed(encode_utf8(name));
    let s = list_field(name, a) + x;
    let t = list_field(name, b) + y;
    let k = n.len() as int;
    lemma_be_bytes_len(a.len(), 8);
    lemma_be_bytes_len(b.len(), 8);
    assert(s.subrange(k, k + 8) =~= be_bytes(a.len(), 8));
    assert(t.subrange(k, k + 8) =~= be_bytes(b.len(), 8));
    lemma_u64_fits();
    lemma_be_bytes_injective(a.len(), b.len(), 8);
    assert(s.skip(k + 8) =~= framed_list(a) + x);
    assert(t.skip(k + 8) =~= framed_list(b) + y);
    lemma_framed_list_unique(a, b, x, y);
}

/// A named optional value is told apart from any other, whatever follows.
pub proof fn lemma_optional_field_unique(
    name: Seq<char>,
    a: Option<Seq<u8>>,
    b: Option<Seq<u8>>,
    x: Seq<u8>,
    y: Seq<u8>,
)
    requires
        a matches Some(v) ==> fits(v),
        b matches Some(v) ==> fits(v),
        optional_field(name, a) + x == optional_field(name, b) + y,
    ensures
        a == b,
        x == y,
{
    let n = framed(encode_utf8(name));
    let s = optional_field(name, a) + x;
    let t = optional_field(name, b) + y;
    let k = n.len() as int;
    assert(s[k] == (if a is Some { 1u8 } else { 0u8 }));
    assert(t[k] == (if b is Some { 1u8 } else { 0u8 }));
    match (a, b) {
        (Some(u), Some(v)) => {
            assert(s.skip(k + 1) =~= framed(u) + x);
            assert(t.skip(k + 1) =~= framed(v) + y);
            lemma_framed_unique(u, v, x, y);
        },
        _ => {
            assert(x =~= s.skip(k + 1));
            assert(y =~= t.skip(k + 1));
        },
    }
}

} // verus!
