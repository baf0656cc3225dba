//! Server-sent events as a model sends them: bytes in, the data of each event
//! out.
use vstd::prelude::*;
use vstd::utf8::{decode_utf8, encode_utf8, encode_utf8_decode_utf8, valid_utf8};

use crate::error::{ErrorView, OpsCodexError, OpsResult};
use crate::text::{
    chars_of, find_from, has_prefix, join, join_strings, lemma_find_from, lemma_split_nonempty,
    matches_at, skip_white, split, split_str, starts_with, substring, trim_start, views,
};

verus! {

// ---------------------------------------------------------------------------
// Text in bytes
// ---------------------------------------------------------------------------
/// What `std::str::from_utf8` says of bytes that are not UTF-8.
pub uninterp spec fn utf8_error(bytes: Seq<u8>) -> Seq<char>;

/// `std::str::from_utf8`: the text that the bytes encode, or, where they are not
/// UTF-8, an error whose text depends on the bytes alone.
#[verifier::external_body]
fn read_utf8(bytes: &Vec<u8>) -> (r: Result<String, String>)
    ensures
        match r {
            Ok(text) => valid_utf8(bytes@) && encode_utf8(text@) == bytes@,
            Err(e) => !valid_utf8(bytes@) && e@ == utf8_error(bytes@),
        },
{
    match std::str::from_utf8(bytes) {
        Ok(text) => Ok(text.to_owned()),
        Err(error) => Err(error.to_string()),
    }
}

// ---------------------------------------------------------------------------
// Lines
// ---------------------------------------------------------------------------
pub open spec fn without_return(line: Seq<char>) -> Seq<char> {
    if line.len() > 0 && line.last() == '\r' {
        line.drop_last()
    } else {
        line
    }
}

/// The lines of a text. A line ends with a newline, before which a carriage
/// return may stand; what follows the last one is a line where it is not empty.
pub open spec fn lines_of(text: Seq<char>) -> Seq<Seq<char>> {
    let parts = split(text, '\n');
    let n = parts.len() - 1;
    let ended = Seq::new(n as nat, |i: int| without_return(parts[i]));
    if parts[n].len() == 0 {
        ended
    } else {
        ended.push(parts[n])
    }
}

fn strip_return(line: &str) -> (r: String)
    ensures
        r@ == without_return(line@),
{
    let chars = chars_of(line);
    let n: usize = chars.len();
    if n > 0 && chars[n - 1] == '\r' {
        let r = substring(&chars, 0, n - 1);
        assert(r@ =~= line@.drop_last());
        r
    } else {
        line.to_owned()
    }
}

fn split_lines(text: &str) -> (r: Vec<String>)
    ensures
        views(r@) == lines_of(text@),
{
    let parts = split_str(text, '\n');
    let ghost seen = views(parts@);
    proof {
        lemma_split_nonempty(text@, '\n');
    }
    let n: usize = parts.len() - 1;
    let mut r: Vec<String> = Vec::new();
    let mut i: usize = 0;
    while i < n
        invariant
            i <= n,
            n == parts@.len() - 1,
            seen == views(parts@),
            r@.len() == i,
            forall|k: int| 0 <= k < i ==> (#[trigger] r@[k])@ == without_return(seen[k]),
        decreases n - i,
    {
        assert(seen[i as int] == parts@[i as int]@);
        r.push(strip_return(parts[i].as_str()));
        i += 1;
    }
    assert(seen[n as int] == parts@[n as int]@);
    if !parts[n].as_str().is_empty() {
        r.push(parts[n].clone());
    }
    assert(views(r@) =~= lines_of(text@));
    r
}

// ---------------------------------------------------------------------------
// Events
// ---------------------------------------------------------------------------
/// The data fields of an event.
pub open spec fn data_fields(lines: Seq<Seq<char>>) -> Seq<Seq<char>>
    decreases lines.len(),
{
    if lines.len() == 0 {
        Seq::empty()
    } else {
        let before = data_fields(lines.drop_last());
        if starts_with(lines.last(), "data:"@) {
            before.push(trim_start(lines.last().skip("data:"@.len() as int)))
        } else {
            before
        }
    }
}

/// The data of an event: its data fields, one to a line; nothing where they are
/// empty.
pub open spec fn data_of(frame: Seq<u8>) -> Result<Option<Seq<char>>, ErrorView> {
    if !valid_utf8(frame) {
        Err(ErrorView::Protocol(utf8_error(frame)))
    } else {
        let data = join(data_fields(lines_of(decode_utf8(frame))), "\n"@);
        if data.len() == 0 {
            Ok(None)
        } else {
            Ok(Some(data))
        }
    }
}

/// Reads the data of an event.
pub fn frame_data(frame: &Vec<u8>) -> (r: OpsResult<Option<String>>)
    ensures
        match r {
            Ok(data) => data_of(frame@) == Ok::<Option<Seq<char>>, ErrorView>(
                crate::json::string_view(data),
            ),
            Err(e) => data_of(frame@) == Err::<Option<Seq<char>>, ErrorView>(e@),
        },
{
    let text = match read_utf8(frame) {
        Ok(text) => text,
        Err(e) => return Err(OpsCodexError::Protocol(e)),
    };
    proof {
        encode_utf8_decode_utf8(text@);
        reveal_strlit("data:");
        assert("data:"@.len() == 5);
    }
    let lines = split_lines(text.as_str());
    let ghost seen = views(lines@);
    let mut fields: Vec<String> = Vec::new();
    let mut i: usize = 0;
    assert(views(fields@) =~= data_fields(seen.take(0)));
    while i < lines.len()
        invariant
            i <= lines@.len(),
            seen == views(lines@),
            "data:"@.len() == 5,
            views(fields@) == data_fields(seen.take(i as int)),
        decreases lines@.len() - i,
    {
        proof {
            assert(seen[i as int] == lines@[i as int]@);
            assert(seen.take(i + 1).drop_last() =~= seen.take(i as int));
            assert(seen.take(i + 1).last() == seen[i as int]);
        }
        if has_prefix(lines[i].as_str(), "data:") {
            let chars = chars_of(lines[i].as_str());
            let from = skip_white(&chars, 5);
            let field = substring(&chars, from, chars.len());
            assert(field@ =~= chars@.skip(from as int));
            let ghost before = fields@;
            fields.push(field);
            assert(views(fields@) =~= views(before).push(field@));
        }
        i += 1;
    }
    assert(seen.take(i as int) =~= seen);
    let data = join_strings(&fields, "\n");
    if data.as_str().is_empty() {
        Ok(None)
    } else {
        Ok(Some(data))
    }
}

/// Where the first event in the bytes ends, and how long its separator is. An
/// empty line of newlines alone is looked for first.
pub open spec fn boundary(bytes: Seq<u8>) -> Option<(int, int)> {
    match find_from(bytes, seq![10u8, 10u8], 0) {
        Some(i) => Some((i, 2)),
        None => match find_from(bytes, seq![13u8, 10u8, 13u8, 10u8], 0) {
            Some(i) => Some((i, 4)),
            None => None,
        },
    }
}

proof fn lemma_boundary(bytes: Seq<u8>)
    ensures
        boundary(bytes) matches Some((i, k)) ==> 0 <= i && (k == 2 || k == 4) && i + k
            <= bytes.len(),
{
    lemma_find_from(bytes, seq![10u8, 10u8], 0);
    lemma_find_from(bytes, seq![13u8, 10u8, 13u8, 10u8], 0);
}

fn find_newlines(bytes: &Vec<u8>) -> (r: Option<usize>)
    ensures
        match r {
            Some(i) => find_from(bytes@, seq![10u8, 10u8], 0) == Some(i as int),
            None => find_from(bytes@, seq![10u8, 10u8], 0) is None,
        },
{
    let n: usize = bytes.len();
    let mut i: usize = 0;
    while i < n
        invariant
            i <= n,
            n == bytes@.len(),
            find_from(bytes@, seq![10u8, 10u8], 0) == find_from(bytes@, seq![10u8, 10u8], i as int),
        decreases n - i,
    {
        if n - i >= 2 && bytes[i] == 10 && bytes[i + 1] == 10 {
            assert(bytes@.subrange(i as int, i + 2) =~= seq![10u8, 10u8]);
            return Some(i);
        }
        proof {
            if matches_at(bytes@, seq![10u8, 10u8], i as int) {
                let here = bytes@.subrange(i as int, i + 2);
                assert(here[0] == bytes@[i as int] && here[1] == bytes@[i + 1]);
            }
        }
        i += 1;
    }
    assert(find_from(bytes@, seq![10u8, 10u8], n + 1) is None);
    None
}

fn find_returns(bytes: &Vec<u8>) -> (r: Option<usize>)
    ensures
        match r {
            Some(i) => find_from(bytes@, seq![13u8, 10u8, 13u8, 10u8], 0) == Some(i as int),
            None => find_from(bytes@, seq![13u8, 10u8, 13u8, 10u8], 0) is None,
        },
{
    let ghost needle = seq![13u8, 10u8, 13u8, 10u8];
    let n: usize = bytes.len();
    let mut i: usize = 0;
    while i < n
        invariant
            i <= n,
            n == bytes@.len(),
            needle == seq![13u8, 10u8, 13u8, 10u8],
            find_from(bytes@, needle, 0) == find_from(bytes@, needle, i as int),
        decreases n - i,
    {
        if n - i >= 4 && bytes[i] == 13 && bytes[i + 1] == 10 && bytes[i + 2] == 13 && bytes[i + 3]
            == 10 {
            assert(bytes@.subrange(i as int, i + 4) =~= needle);
            return Some(i);
        }
        proof {
            if matches_at(bytes@, needle, i as int) {
                let here = bytes@.subrange(i as int, i + 4);
                assert(here[0] == bytes@[i as int] && here[1] == bytes@[i + 1] && here[2]
                    == bytes@[i + 2] && here[3] == bytes@[i + 3]);
            }
        }
        i += 1;
    }
    assert(find_from(bytes@, needle, n + 1) is None);
    None
}

/// Finds where the first event in the bytes ends.
pub fn frame_boundary(bytes: &Vec<u8>) -> (r: Option<(usize, usize)>)
    ensures
        match r {
            Some((i, k)) => boundary(bytes@) == Some((i as int, k as int)),
            None => boundary(bytes@) is None,
        },
{
    match find_newlines(bytes) {
        Some(i) => Some((i, 2)),
        None => match find_returns(bytes) {
            Some(i) => Some((i, 4)),
            None => None,
        },
    }
}

/// The data of the complete events in the bytes, or the first error.
pub open spec fn data_in(bytes: Seq<u8>) -> Result<Seq<Seq<char>>, ErrorView>
    decreases bytes.len(),
    via data_decreases
{
    match boundary(bytes) {
        None => Ok(Seq::empty()),
        Some((i, k)) => match data_of(bytes.take(i)) {
            Err(e) => Err(e),
            Ok(data) => match data_in(bytes.skip(i + k)) {
                Err(e) => Err(e),
                Ok(later) => Ok(
                    match data {
                        Some(data) => seq![data] + later,
                        None => later,
                    },
                ),
            },
        },
    }
}

#[via_fn]
proof fn data_decreases(bytes: Seq<u8>) {
    lemma_boundary(bytes);
}

/// What is left of the bytes: what follows the complete events, or what follows
/// the first that could not be read.
pub open spec fn left_of(bytes: Seq<u8>) -> Seq<u8>
    decreases bytes.len(),
    via left_decreases
{
    match boundary(bytes) {
        None => bytes,
        Some((i, k)) => if data_of(bytes.take(i)) is Err {
            bytes.skip(i + k)
        } else {
            left_of(bytes.skip(i + k))
        },
    }
}

#[via_fn]
proof fn left_decreases(bytes: Seq<u8>) {
    lemma_boundary(bytes);
}

fn part(bytes: &Vec<u8>, from: usize, to: usize) -> (r: Vec<u8>)
    requires
        from <= to <= bytes@.len(),
    ensures
        r@ == bytes@.subrange(from as int, to as int),
{
    let mut r: Vec<u8> = Vec::new();
    let mut i: usize = from;
    while i < to
        invariant
            from <= i <= to <= bytes@.len(),
            r@ == bytes@.subrange(from as int, i as int),
        decreases to - i,
    {
        r.push(bytes[i]);
        i += 1;
        assert(r@ =~= bytes@.subrange(from as int, i as int));
    }
    r
}

/// Bytes that have not made an event yet.
#[derive(Debug)]
pub struct SseDecoder {
    pub buffer: Vec<u8>,
}

impl Default for SseDecoder {
    fn default() -> (r: Self)
        ensures
            r.buffer@.len() == 0,
    {
        SseDecoder { buffer: Vec::new() }
    }
}

impl SseDecoder {
    /// Takes bytes and gives the data of the events that they complete.
    pub fn push(&mut self, bytes: &Vec<u8>) -> (r: OpsResult<Vec<String>>)
        ensures
            match r {
                Ok(data) => data_in(old(self).buffer@ + bytes@) == Ok::<Seq<Seq<char>>, ErrorView>(
                    views(data@),
                ),
                Err(e) => data_in(old(self).buffer@ + bytes@) == Err::<Seq<Seq<char>>, ErrorView>(
                    e@,
                ),
            },
            final(self).buffer@ == left_of(old(self).buffer@ + bytes@),
    {
        let ghost whole = self.buffer@ + bytes@;
        let mut fresh = part(bytes, 0, bytes.len());
        self.buffer.append(&mut fresh);
        assert(self.buffer@ =~= whole);
        let mut out: Vec<String> = Vec::new();
        assert(views(out@) =~= Seq::empty());
        proof {
            lemma_data_joined(views(out@), data_in(whole));
        }
        loop
            invariant
                whole == old(self).buffer@ + bytes@,
                data_in(whole) == joined(views(out@), data_in(self.buffer@)),
                left_of(whole) == left_of(self.buffer@),
            ensures
                boundary(self.buffer@) is None,
            decreases self.buffer@.len(),
        {
            let (index, width) = match frame_boundary(&self.buffer) {
                Some(found) => found,
                None => {
                    break;
                },
            };
            proof {
                lemma_boundary(self.buffer@);
            }
            let ghost before = self.buffer@;
            let n: usize = self.buffer.len();
            let frame = part(&self.buffer, 0, index);
            let rest = part(&self.buffer, index + width, n);
            assert(frame@ =~= before.take(index as int));
            assert(rest@ =~= before.skip(index + width));
            self.buffer = rest;
            match frame_data(&frame) {
                Err(e) => return Err(e),
                Ok(Some(data)) => {
                    let ghost seen = views(out@);
                    out.push(data);
                    proof {
                        assert(views(out@) =~= seen.push(data@));
                        lemma_data_pushed(seen, data@, data_in(rest@));
                    }
                },
                Ok(None) => {},
            }
        }
        assert(views(out@) + Seq::empty() =~= views(out@));
        Ok(out)
    }

    /// Takes what is left as the last event.
    pub fn finish(&mut self) -> (r: OpsResult<Option<String>>)
        ensures
            final(self).buffer@.len() == 0,
            if old(self).buffer@.len() == 0 {
                r == Ok::<Option<String>, OpsCodexError>(None)
            } else {
                match r {
                    Ok(data) => data_of(old(self).buffer@) == Ok::<Option<Seq<char>>, ErrorView>(
                        crate::json::string_view(data),
                    ),
                    Err(e) => data_of(old(self).buffer@) == Err::<Option<Seq<char>>, ErrorView>(e@),
                }
            },
    {
        if self.buffer.len() == 0 {
            return Ok(None);
        }
        let n: usize = self.buffer.len();
        let frame = part(&self.buffer, 0, n);
        assert(frame@ =~= self.buffer@);
        self.buffer = Vec::new();
        frame_data(&frame)
    }
}

/// Data that came before other data or an error.
pub open spec fn joined(first: Seq<Seq<char>>, later: Result<Seq<Seq<char>>, ErrorView>) -> Result<
    Seq<Seq<char>>,
    ErrorView,
> {
    match later {
        Ok(later) => Ok(first + later),
        Err(e) => Err(e),
    }
}

proof fn lemma_data_joined(first: Seq<Seq<char>>, later: Result<Seq<Seq<char>>, ErrorView>)
    requires
        first.len() == 0,
    ensures
        joined(first, later) == later,
{
    if let Ok(data) = later {
        assert(first + data =~= data);
    }
}

proof fn lemma_data_pushed(
    first: Seq<Seq<char>>,
    next: Seq<char>,
    later: Result<Seq<Seq<char>>, ErrorView>,
)
    ensures
        joined(first.push(next), later) == joined(first, joined(seq![next], later)),
{
    if let Ok(data) = later {
        assert(first.push(next) + data =~= first + (seq![next] + data));
    }
}

/// Where events are separated by newlines alone, it does not matter in which
/// pieces the bytes come: the same data is found, and the same bytes are left.
pub proof fn law_pieces_make_the_same_events(a: Seq<u8>, b: Seq<u8>)
    requires
        !(a + b).contains(13u8),
        data_in(a) is Ok,
    ensures
        data_in(a + b) == joined(data_in(a)->Ok_0, data_in(left_of(a) + b)),
        left_of(a + b) == left_of(left_of(a) + b),
    decreases a.len(),
{
    lemma_boundary(a);
    lemma_plain_boundary(a, b);
    match boundary(a) {
        None => {
            lemma_data_joined(data_in(a)->Ok_0, data_in(a + b));
        },
        Some((i, k)) => {
            let rest = a.skip(i + k);
            assert((a + b).take(i) =~= a.take(i));
            assert((a + b).skip(i + k) =~= rest + b);
            assert(!(rest + b).contains(13u8)) by {
                if (rest + b).contains(13u8) {
                    let j = choose|j: int| 0 <= j < (rest + b).len() && (rest + b)[j] == 13u8;
                    assert((a + b)[j + i + k] == 13u8);
                }
            }
            law_pieces_make_the_same_events(rest, b);
            if let Ok(later) = data_in(left_of(a) + b) {
                if let Some(data) = data_of(a.take(i))->Ok_0 {
                    let first = data_in(rest)->Ok_0;
                    assert(seq![data] + (first + later) =~= (seq![data] + first) + later);
                }
            }
        },
    }
}

/// A separator of newlines that is found stays where it is when bytes follow.
proof fn lemma_plain_boundary(a: Seq<u8>, b: Seq<u8>)
    requires
        !(a + b).contains(13u8),
    ensures
        boundary(a) matches Some(at) ==> boundary(a + b) == Some(at),
{
    let plain = seq![10u8, 10u8];
    let other = seq![13u8, 10u8, 13u8, 10u8];
    let all = a + b;
    lemma_find_from(a, plain, 0);
    lemma_find_from(all, plain, 0);
    lemma_find_from(a, other, 0);
    if let Some(i) = find_from(a, other, 0) {
        assert(a.subrange(i, i + 4)[0] == 13u8);
        assert(all[i] == 13u8);
    }
    if let Some(i) = find_from(a, plain, 0) {
        assert(all.subrange(i, i + 2) =~= a.subrange(i, i + 2));
        assert(matches_at(all, plain, i));
        assert(find_from(all, plain, 0) is Some);
        let j = find_from(all, plain, 0)->0;
        if j < i {
            assert(all.subrange(j, j + 2) =~= a.subrange(j, j + 2));
            assert(matches_at(a, plain, j));
        }
        assert(j == i);
    }
}

} // verus!
