//! Documents with a head of settings between two lines of dashes.
use vstd::prelude::*;

use crate::text::{
    chars_of, find_chars, find_from, has_prefix, lemma_find_from, skip_white, starts_with,
    substring, trim_start,
};

verus! {

/// A document that starts with three dashes, without them.
pub open spec fn opened(text: Seq<char>) -> Option<Seq<char>> {
    if starts_with(text, "---"@) {
        Some(text.skip(3))
    } else {
        None
    }
}

/// What stands before the line that closes the head, and what stands behind
/// its dashes.
pub open spec fn closed(rest: Seq<char>) -> Option<(Seq<char>, Seq<char>)> {
    match find_from(rest, "\n---"@, 0) {
        Some(at) => Some((rest.take(at), rest.skip(at + 4))),
        None => None,
    }
}

/// A text without the line ends at its start.
pub open spec fn without_line_ends(text: Seq<char>) -> Seq<char>
    decreases text.len(),
{
    if text.len() > 0 && (text[0] == '\n' || text[0] == '\r') {
        without_line_ends(text.skip(1))
    } else {
        text
    }
}

/// Takes the dashes off a document.
pub fn open_head(chars: &Vec<char>, from: usize) -> (r: Option<usize>)
    requires
        from <= chars@.len(),
    ensures
        match r {
            Some(i) => i <= chars@.len() && opened(chars@.skip(from as int)) == Some(
                chars@.skip(i as int),
            ),
            None => opened(chars@.skip(from as int)) is None,
        },
{
    let n: usize = chars.len();
    let rest = substring(chars, from, n);
    assert(rest@ =~= chars@.skip(from as int));
    if has_prefix(rest.as_str(), "---") {
        proof {
            reveal_strlit("---");
            assert("---"@.len() == 3);
            assert(chars@.skip(from as int).skip(3) =~= chars@.skip(from + 3));
        }
        Some(from + 3)
    } else {
        None
    }
}

/// Skips the line ends at the start of a text.
pub fn skip_line_ends(chars: &Vec<char>, from: usize) -> (r: usize)
    requires
        from <= chars@.len(),
    ensures
        from <= r <= chars@.len(),
        without_line_ends(chars@.skip(from as int)) == chars@.skip(r as int),
{
    let mut i: usize = from;
    while i < chars.len() && (chars[i] == '\n' || chars[i] == '\r')
        invariant
            from <= i <= chars@.len(),
            without_line_ends(chars@.skip(from as int)) == without_line_ends(chars@.skip(i as int)),
        decreases chars@.len() - i,
    {
        assert(chars@.skip(i as int)[0] == chars@[i as int]);
        assert(chars@.skip(i as int).skip(1) =~= chars@.skip(i + 1));
        i += 1;
    }
    assert(i < chars@.len() ==> chars@.skip(i as int)[0] == chars@[i as int]);
    i
}

/// Cuts the head off at the line that closes it.
pub fn close_head(chars: &Vec<char>, from: usize) -> (r: Option<(String, String)>)
    requires
        from <= chars@.len(),
    ensures
        match r {
            Some(parts) => closed(chars@.skip(from as int)) == Some((parts.0@, parts.1@)),
            None => closed(chars@.skip(from as int)) is None,
        },
{
    let n: usize = chars.len();
    let rest = chars_of(substring(chars, from, n).as_str());
    assert(rest@ =~= chars@.skip(from as int));
    let line = chars_of("\n---");
    proof {
        reveal_strlit("\n---");
        assert("\n---"@.len() == 4);
        lemma_find_from(rest@, "\n---"@, 0);
    }
    match find_chars(&rest, &line, 0) {
        Some(at) => {
            let m: usize = rest.len();
            let head = substring(&rest, 0, at);
            let body = substring(&rest, at + 4, m);
            assert(head@ =~= rest@.take(at as int));
            assert(body@ =~= rest@.skip(at + 4));
            Some((head, body))
        },
        None => None,
    }
}

/// The text without white space at its start.
pub fn skip_start(chars: &Vec<char>) -> (r: usize)
    ensures
        r <= chars@.len(),
        trim_start(chars@) == chars@.skip(r as int),
{
    assert(chars@.skip(0) =~= chars@);
    skip_white(chars, 0)
}

} // verus!
