//! What redaction guarantees of its result.
use vstd::prelude::*;

use crate::evidence::redact::{
    assignment_redacted, bearer_redacted, entries_redacted, items_redacted, json_redacted,
    keys_redacted, lemma_run_end, pem_redacted, replaced, run_end, sensitive_key, text_redacted,
    white_end, RunKind,
};
use crate::json::JsonView;
use crate::text::{contains, find_from, lemma_find_from, lower, matches_at, trim_start};

verus! {

/// A key with this prefix stands at `i`: at least `min_rest` key characters
/// follow the prefix.
pub open spec fn key_at(s: Seq<char>, prefix: Seq<char>, min_rest: int, i: int) -> bool {
    matches_at(s, prefix, i) && run_end(s, RunKind::Key, i + prefix.len()) - (i + prefix.len())
        >= min_rest
}

/// The prefix is made of key characters and does not occur in the replacement.
pub open spec fn plain_prefix(prefix: Seq<char>) -> bool {
    &&& prefix.len() > 0
    &&& forall|i: int| 0 <= i < prefix.len() ==> RunKind::Key.admits(#[trigger] prefix[i])
    &&& !contains("REDACTED"@, prefix)
}

proof fn lemma_match_chars(s: Seq<char>, prefix: Seq<char>, i: int)
    requires
        matches_at(s, prefix, i),
    ensures
        forall|j: int| 0 <= j < prefix.len() ==> s[i + j] == #[trigger] prefix[j],
{
    assert forall|j: int| 0 <= j < prefix.len() implies s[i + j] == #[trigger] prefix[j] by {
        assert(s.subrange(i, i + prefix.len())[j] == s[i + j]);
    }
}

proof fn lemma_match_from_chars(s: Seq<char>, prefix: Seq<char>, i: int)
    requires
        0 <= i,
        i + prefix.len() <= s.len(),
        forall|j: int| 0 <= j < prefix.len() ==> s[i + j] == #[trigger] prefix[j],
    ensures
        matches_at(s, prefix, i),
{
    assert(s.subrange(i, i + prefix.len()) =~= prefix);
}

/// A run ends at the same place in two texts that agree up to and including its
/// end, or where the second stops it.
proof fn lemma_same_run(s: Seq<char>, t: Seq<char>, from: int, to: int)
    requires
        0 <= from <= to <= s.len(),
        to < t.len(),
        forall|i: int| 0 <= i < to ==> s[i] == t[i],
        run_end(s, RunKind::Key, from) <= to,
        !RunKind::Key.admits(t[to]),
    ensures
        run_end(t, RunKind::Key, from) == run_end(s, RunKind::Key, from),
    decreases to - from,
{
    lemma_run_end(s, RunKind::Key, from);
    if from < to && RunKind::Key.admits(s[from]) {
        lemma_same_run(s, t, from + 1, to);
    }
}

proof fn lemma_run_reaches(s: Seq<char>, from: int, at: int)
    requires
        0 <= from <= at <= s.len(),
        at <= run_end(s, RunKind::Key, from),
    ensures
        run_end(s, RunKind::Key, at) == run_end(s, RunKind::Key, from),
    decreases at - from,
{
    if from < at {
        lemma_run_end(s, RunKind::Key, from);
        assert(RunKind::Key.admits(s[from]));
        lemma_run_reaches(s, from + 1, at);
    }
}

proof fn lemma_replacement()
    ensures
        "[REDACTED]"@.len() == 10,
        "[REDACTED]"@[0] == '[',
        "[REDACTED]"@[9] == ']',
        "REDACTED"@.len() == 8,
        forall|i: int| 0 <= i < 8 ==> "[REDACTED]"@[i + 1] == #[trigger] "REDACTED"@[i],
        !RunKind::Key.admits('['),
        !RunKind::Key.admits(']'),
{
    reveal_strlit("[REDACTED]");
    reveal_strlit("REDACTED");
    assert("[REDACTED]"@ =~= seq!['['] + "REDACTED"@ + seq![']']);
}

/// No key stands before `from`: what a replacement further on changes of that.
proof fn lemma_replace_keeps(
    s: Seq<char>,
    prefix: Seq<char>,
    min_rest: int,
    from: int,
    start: int,
    end: int,
)
    requires
        plain_prefix(prefix),
        0 <= from <= start,
        matches_at(s, prefix, start),
        end == run_end(s, RunKind::Key, start + prefix.len()),
        end - (start + prefix.len()) >= min_rest,
        forall|i: int| from <= i < start ==> !matches_at(s, prefix, i),
        forall|i: int| 0 <= i < from ==> !key_at(s, prefix, min_rest, i),
    ensures
        forall|i: int|
            0 <= i < start + 10 ==> !key_at(
                replaced(s, start, end, "[REDACTED]"@),
                prefix,
                min_rest,
                i,
            ),
{
    let t = replaced(s, start, end, "[REDACTED]"@);
    let p = prefix.len() as int;
    lemma_replacement();
    lemma_run_end(s, RunKind::Key, start + p);
    assert(t.len() == start + 10 + (s.len() - end));
    assert forall|i: int| 0 <= i < start implies t[i] == s[i] by {}
    assert(t[start] == '[');
    assert(t[start + 9] == ']');
    assert forall|i: int| 0 <= i < start + 10 implies !key_at(t, prefix, min_rest, i) by {
        if matches_at(t, prefix, i) {
            lemma_match_chars(t, prefix, i);
            if i <= start < i + p {
                assert(prefix[start - i] == '[');
                assert(false);
            }
            if i <= start + 9 < i + p {
                assert(prefix[start + 9 - i] == ']');
                assert(false);
            }
            if i > start {
                // The match lies inside the replacement.
                let q = i - start - 1;
                assert forall|j: int| 0 <= j < p implies "REDACTED"@[q + j] == #[trigger] prefix[j] by {
                    assert(t[i + j] == "[REDACTED]"@[q + j + 1]);
                }
                lemma_match_from_chars("REDACTED"@, prefix, q);
                assert(false);
            }
            // The match lies before the replacement.
            assert forall|j: int| 0 <= j < p implies s[i + j] == #[trigger] prefix[j] by {
                assert(t[i + j] == s[i + j]);
            }
            lemma_match_from_chars(s, prefix, i);
            assert(i < from);
            assert(!key_at(s, prefix, min_rest, i));
            lemma_run_end(s, RunKind::Key, i + p);
            if run_end(s, RunKind::Key, i + p) > start {
                lemma_match_chars(s, prefix, start);
                lemma_run_covers(s, prefix, start);
                lemma_run_reaches(s, i + p, start);
                lemma_run_reaches(s, start, start + p);
                assert(false);
            }
            lemma_same_run(s, t, i + p, start);
        }
    }
}

/// A run that starts at a match covers it.
proof fn lemma_run_covers(s: Seq<char>, prefix: Seq<char>, start: int)
    requires
        plain_prefix(prefix),
        matches_at(s, prefix, start),
    ensures
        start + prefix.len() <= run_end(s, RunKind::Key, start),
{
    lemma_match_chars(s, prefix, start);
    lemma_run_end(s, RunKind::Key, start);
    let e = run_end(s, RunKind::Key, start);
    if e < start + prefix.len() {
        assert(s[start + (e - start)] == prefix[e - start]);
    }
}

proof fn lemma_no_key_left(s: Seq<char>, prefix: Seq<char>, min_rest: int, from: int)
    requires
        plain_prefix(prefix),
        min_rest > 0,
        0 <= from <= s.len(),
        forall|i: int| 0 <= i < from ==> !key_at(s, prefix, min_rest, i),
    ensures
        forall|i: int| !key_at(keys_redacted(s, prefix, min_rest, from).0, prefix, min_rest, i),
    decreases s.len() - from,
{
    lemma_find_from(s, prefix, from);
    match find_from(s, prefix, from) {
        None => {
            assert(keys_redacted(s, prefix, min_rest, from).0 == s);
            assert forall|i: int| !key_at(s, prefix, min_rest, i) by {
                if i >= from {
                    assert(!matches_at(s, prefix, i));
                }
            }
        },
        Some(start) => {
            let rest = start + prefix.len();
            let end = run_end(s, RunKind::Key, rest);
            lemma_run_end(s, RunKind::Key, rest);
            if end - rest >= min_rest {
                lemma_replacement();
                lemma_replace_keeps(s, prefix, min_rest, from, start, end);
                let next = replaced(s, start, end, "[REDACTED]"@);
                assert(next.len() == start + 10 + (s.len() - end));
                lemma_no_key_left(next, prefix, min_rest, start + 10);
                assert(keys_redacted(s, prefix, min_rest, from).0 == keys_redacted(
                    next,
                    prefix,
                    min_rest,
                    start + 10,
                ).0);
            } else {
                assert forall|i: int| 0 <= i < rest implies !key_at(s, prefix, min_rest, i) by {
                    if from <= i && i > start && matches_at(s, prefix, i) {
                        // A match that overlaps the one at `start` is followed by a
                        // shorter run.
                        lemma_run_end(s, RunKind::Key, i + prefix.len());
                        lemma_run_covers(s, prefix, start);
                        lemma_run_covers(s, prefix, i);
                        lemma_run_reaches(s, start, i);
                        lemma_run_reaches(s, start, rest);
                        lemma_run_end(s, RunKind::Key, start);
                        lemma_run_reaches(s, i, i + prefix.len());
                    }
                }
                lemma_no_key_left(s, prefix, min_rest, rest);
                assert(keys_redacted(s, prefix, min_rest, from) == keys_redacted(
                    s,
                    prefix,
                    min_rest,
                    rest,
                ));
            }
        },
    }
}

/// No key of the given form is left by the step that takes them out.
pub proof fn law_no_key_is_left(s: Seq<char>, prefix: Seq<char>, min_rest: int)
    requires
        plain_prefix(prefix),
        min_rest > 0,
    ensures
        forall|i: int| !key_at(keys_redacted(s, prefix, min_rest, 0).0, prefix, min_rest, i),
{
    lemma_no_key_left(s, prefix, min_rest, 0);
}

/// The prefixes that are looked for are plain.
pub proof fn law_known_prefixes_are_plain()
    ensures
        plain_prefix("sk-"@),
        plain_prefix("AKIA"@),
{
    reveal_strlit("sk-");
    reveal_strlit("AKIA");
    reveal_strlit("REDACTED");
    assert("sk-"@ =~= seq!['s', 'k', '-']);
    assert("AKIA"@ =~= seq!['A', 'K', 'I', 'A']);
    assert("REDACTED"@ =~= seq!['R', 'E', 'D', 'A', 'C', 'T', 'E', 'D']);
    assert forall|i: int| !matches_at("REDACTED"@, "sk-"@, i) by {
        if matches_at("REDACTED"@, "sk-"@, i) {
            lemma_match_chars("REDACTED"@, "sk-"@, i);
            assert("REDACTED"@[i + 0] == "sk-"@[0]);
        }
    }
    assert forall|i: int| !matches_at("REDACTED"@, "AKIA"@, i) by {
        if matches_at("REDACTED"@, "AKIA"@, i) {
            lemma_match_chars("REDACTED"@, "AKIA"@, i);
            assert("REDACTED"@[i + 1] == "AKIA"@[1]);
        }
    }
}

// ---------------------------------------------------------------------------
// The whole of a text
// ---------------------------------------------------------------------------
/// No key with this prefix stands anywhere.
pub open spec fn free_of(s: Seq<char>, prefix: Seq<char>, min_rest: int) -> bool {
    forall|i: int| !key_at(s, prefix, min_rest, i)
}

proof fn lemma_run_at_least(s: Seq<char>, from: int, to: int)
    requires
        0 <= from <= to <= s.len(),
        forall|j: int| from <= j < to ==> RunKind::Key.admits(#[trigger] s[j]),
    ensures
        run_end(s, RunKind::Key, from) >= to,
    decreases to - from,
{
    lemma_run_end(s, RunKind::Key, from);
    if from < to {
        assert(RunKind::Key.admits(s[from]));
        lemma_run_at_least(s, from + 1, to);
    }
}

/// The characters of a key are key characters.
proof fn lemma_key_span(s: Seq<char>, prefix: Seq<char>, min_rest: int, i: int)
    requires
        plain_prefix(prefix),
        min_rest > 0,
        key_at(s, prefix, min_rest, i),
    ensures
        0 <= i,
        i + prefix.len() + min_rest <= s.len(),
        forall|j: int|
            i <= j < i + prefix.len() + min_rest ==> RunKind::Key.admits(#[trigger] s[j]),
        forall|j: int| 0 <= j < prefix.len() ==> s[i + j] == #[trigger] prefix[j],
{
    lemma_match_chars(s, prefix, i);
    lemma_run_end(s, RunKind::Key, i + prefix.len());
    assert forall|j: int| i <= j < i + prefix.len() + min_rest implies RunKind::Key.admits(
        #[trigger] s[j],
    ) by {
        if j < i + prefix.len() {
            assert(s[i + (j - i)] == prefix[j - i]);
        }
    }
}

proof fn lemma_key_from_span(s: Seq<char>, prefix: Seq<char>, min_rest: int, i: int)
    requires
        min_rest > 0,
        0 <= i,
        i + prefix.len() + min_rest <= s.len(),
        forall|j: int|
            i + prefix.len() <= j < i + prefix.len() + min_rest ==> RunKind::Key.admits(
                #[trigger] s[j],
            ),
        forall|j: int| 0 <= j < prefix.len() ==> s[i + j] == #[trigger] prefix[j],
    ensures
        key_at(s, prefix, min_rest, i),
{
    lemma_match_from_chars(s, prefix, i);
    lemma_run_at_least(s, i + prefix.len(), i + prefix.len() + min_rest);
}

/// A replacement makes no key.
proof fn lemma_replacement_makes_no_key(
    s: Seq<char>,
    from: int,
    to: int,
    prefix: Seq<char>,
    min_rest: int,
)
    requires
        plain_prefix(prefix),
        min_rest > 8,
        0 <= from <= to <= s.len(),
        free_of(s, prefix, min_rest),
    ensures
        free_of(replaced(s, from, to, "[REDACTED]"@), prefix, min_rest),
{
    lemma_replacement();
    let t = replaced(s, from, to, "[REDACTED]"@);
    assert forall|i: int| !key_at(t, prefix, min_rest, i) by {
        if key_at(t, prefix, min_rest, i) {
            lemma_key_span(t, prefix, min_rest, i);
            let end = i + prefix.len() + min_rest;
            assert(t[from] == '[');
            assert(t[from + 9] == ']');
            if i <= from < end {
                assert(RunKind::Key.admits(t[from]));
            }
            if i <= from + 9 < end {
                assert(RunKind::Key.admits(t[from + 9]));
            }
            let at = if i < from {
                i
            } else {
                i - from - 10 + to
            };
            assert(end <= from || i >= from + 10);
            assert forall|j: int| i <= j < end implies #[trigger] t[j] == s[j - i + at] by {}
            assert forall|j: int| 0 <= j < prefix.len() implies s[at + j] == #[trigger] prefix[j] by {
                assert(t[i + j] == s[i + j - i + at]);
            }
            assert forall|j: int|
                at + prefix.len() <= j < at + prefix.len()
                    + min_rest implies RunKind::Key.admits(#[trigger] s[j]) by {
                assert(t[j - at + i] == s[j]);
            }
            lemma_key_from_span(s, prefix, min_rest, at);
        }
    }
}

/// Taking keys with one prefix out makes no key with another.
proof fn lemma_keys_make_no_key(
    s: Seq<char>,
    other: Seq<char>,
    other_rest: int,
    from: int,
    prefix: Seq<char>,
    min_rest: int,
)
    requires
        plain_prefix(prefix),
        plain_prefix(other),
        min_rest > 8,
        other_rest > 0,
        0 <= from <= s.len(),
        free_of(s, prefix, min_rest),
    ensures
        free_of(keys_redacted(s, other, other_rest, from).0, prefix, min_rest),
    decreases s.len() - from,
{
    lemma_find_from(s, other, from);
    match find_from(s, other, from) {
        None => {},
        Some(start) => {
            let rest = start + other.len();
            let end = run_end(s, RunKind::Key, rest);
            lemma_run_end(s, RunKind::Key, rest);
            if end - rest >= other_rest {
                lemma_replacement();
                let next = replaced(s, start, end, "[REDACTED]"@);
                lemma_replacement_makes_no_key(s, start, end, prefix, min_rest);
                assert(next.len() == start + 10 + (s.len() - end));
                lemma_keys_make_no_key(next, other, other_rest, start + 10, prefix, min_rest);
            } else {
                lemma_keys_make_no_key(s, other, other_rest, rest, prefix, min_rest);
            }
        },
    }
}

proof fn lemma_white_end(s: Seq<char>, from: int)
    requires
        0 <= from <= s.len(),
    ensures
        from <= white_end(s, from) <= s.len(),
{
    lemma_trim_shorter(s.skip(from));
}

proof fn lemma_trim_shorter(s: Seq<char>)
    ensures
        trim_start(s).len() <= s.len(),
    decreases s.len(),
{
    if s.len() > 0 {
        lemma_trim_shorter(s.skip(1));
    }
}

/// Taking the value of an assignment out makes no key.
proof fn lemma_assignment_makes_no_key(
    s: Seq<char>,
    key: Seq<char>,
    from: int,
    prefix: Seq<char>,
    min_rest: int,
)
    requires
        plain_prefix(prefix),
        min_rest > 8,
        key.len() > 0,
        0 <= from <= s.len(),
        free_of(s, prefix, min_rest),
    ensures
        free_of(assignment_redacted(s, key, from).0, prefix, min_rest),
    decreases s.len() - from,
{
    lemma_find_from(lower(s), key, from);
    match find_from(lower(s), key, from) {
        None => {},
        Some(start) => {
            let after = (start + key.len()) as int;
            lemma_white_end(s, after);
            let sign = white_end(s, after);
            if sign >= s.len() {
            } else if s[sign] != '=' && s[sign] != ':' {
                lemma_assignment_makes_no_key(s, key, after, prefix, min_rest);
            } else {
                lemma_white_end(s, sign + 1);
                let value = white_end(s, sign + 1);
                lemma_run_end(s, RunKind::Value, value);
                let end = run_end(s, RunKind::Value, value);
                if end > value {
                    lemma_replacement_makes_no_key(s, value, end, prefix, min_rest);
                } else {
                    lemma_assignment_makes_no_key(s, key, after, prefix, min_rest);
                }
            }
        },
    }
}

/// None of the letters of `Bearer` stands in the prefix.
spec fn no_bearer(prefix: Seq<char>) -> bool {
    forall|j: int|
        0 <= j < prefix.len() ==> {
            let c = #[trigger] prefix[j];
            c != 'B' && c != 'e' && c != 'a' && c != 'r'
        }
}

/// Taking a bearer token out makes no key.
proof fn lemma_bearer_makes_no_key(s: Seq<char>, prefix: Seq<char>, min_rest: int)
    requires
        plain_prefix(prefix),
        no_bearer(prefix),
        min_rest > 8,
        free_of(s, prefix, min_rest),
    ensures
        free_of(bearer_redacted(s).0, prefix, min_rest),
{
    lemma_find_from(lower(s), "bearer "@, 0);
    reveal_strlit("bearer ");
    reveal_strlit("Bearer [REDACTED]");
    lemma_replacement();
    assert("bearer "@ =~= seq!['b', 'e', 'a', 'r', 'e', 'r', ' ']);
    assert("Bearer [REDACTED]"@ =~= seq!['B', 'e', 'a', 'r', 'e', 'r', ' '] + "[REDACTED]"@) by {
        reveal_strlit("[REDACTED]");
    }
    match find_from(lower(s), "bearer "@, 0) {
        None => {},
        Some(index) => {
            let rest = index + 7;
            lemma_run_end(s, RunKind::Word, rest);
            let end = run_end(s, RunKind::Word, rest);
            if end - rest > 8 {
                let by = "Bearer [REDACTED]"@;
                let t = replaced(s, index, end, by);
                lemma_match_chars(lower(s), "bearer "@, index);
                assert forall|j: int| index <= j < index + 6 implies RunKind::Key.admits(
                    #[trigger] s[j],
                ) by {
                    assert(lower(s)[index + (j - index)] == "bearer "@[j - index]);
                }
                assert forall|i: int| !key_at(t, prefix, min_rest, i) by {
                    if key_at(t, prefix, min_rest, i) {
                        lemma_key_span(t, prefix, min_rest, i);
                        let stop = i + prefix.len() + min_rest;
                        assert(t[index + 6] == by[6]);
                        assert(t[index + 7] == by[7]);
                        assert(t[index + 16] == by[16]);
                        if i <= index + 6 < stop {
                            assert(RunKind::Key.admits(t[index + 6]));
                        }
                        if i <= index + 7 < stop {
                            assert(RunKind::Key.admits(t[index + 7]));
                        }
                        if i <= index + 16 < stop {
                            assert(RunKind::Key.admits(t[index + 16]));
                        }
                        assert(stop <= index + 6 || i >= index + 17);
                        if i >= index + 17 {
                            let at = i - index - 17 + end;
                            assert forall|j: int| i <= j < stop implies #[trigger] t[j] == s[j - i
                                + at] by {}
                            assert forall|j: int| 0 <= j < prefix.len() implies s[at + j]
                                == #[trigger] prefix[j] by {
                                assert(t[i + j] == s[i + j - i + at]);
                            }
                            assert forall|j: int|
                                at + prefix.len() <= j < at + prefix.len()
                                    + min_rest implies RunKind::Key.admits(#[trigger] s[j]) by {
                                assert(t[j - at + i] == s[j]);
                            }
                            lemma_key_from_span(s, prefix, min_rest, at);
                        } else {
                            assert forall|j: int| 0 <= j < prefix.len() implies s[i + j]
                                == #[trigger] prefix[j] by {
                                if i + j >= index {
                                    assert(t[i + j] == by[i + j - index]);
                                    assert(t[i + j] == prefix[j]);
                                }
                            }
                            assert forall|j: int|
                                i + prefix.len() <= j < i + prefix.len()
                                    + min_rest implies RunKind::Key.admits(#[trigger] s[j]) by {
                                if j < index {
                                    assert(t[j] == s[j]);
                                }
                            }
                            lemma_key_from_span(s, prefix, min_rest, i);
                        }
                    }
                }
            }
        },
    }
}

/// All that follows the search for keys makes no key.
proof fn lemma_later_steps_make_no_key(s: Seq<char>, prefix: Seq<char>, min_rest: int)
    requires
        plain_prefix(prefix),
        no_bearer(prefix),
        min_rest > 8,
        free_of(s, prefix, min_rest),
    ensures
        free_of(
            assignment_redacted(
                assignment_redacted(
                    assignment_redacted(
                        assignment_redacted(
                            assignment_redacted(bearer_redacted(s).0, "password"@, 0).0,
                            "secret"@,
                            0,
                        ).0,
                        "api_key"@,
                        0,
                    ).0,
                    "api-key"@,
                    0,
                ).0,
                "token"@,
                0,
            ).0,
            prefix,
            min_rest,
        ),
{
    reveal_strlit("password");
    reveal_strlit("secret");
    reveal_strlit("api_key");
    reveal_strlit("api-key");
    reveal_strlit("token");
    assert("password"@.len() > 0 && "secret"@.len() > 0 && "api_key"@.len() > 0);
    assert("api-key"@.len() > 0 && "token"@.len() > 0);
    lemma_bearer_makes_no_key(s, prefix, min_rest);
    let d = bearer_redacted(s).0;
    lemma_assignment_makes_no_key(d, "password"@, 0, prefix, min_rest);
    let e = assignment_redacted(d, "password"@, 0).0;
    lemma_assignment_makes_no_key(e, "secret"@, 0, prefix, min_rest);
    let f = assignment_redacted(e, "secret"@, 0).0;
    lemma_assignment_makes_no_key(f, "api_key"@, 0, prefix, min_rest);
    let g = assignment_redacted(f, "api_key"@, 0).0;
    lemma_assignment_makes_no_key(g, "api-key"@, 0, prefix, min_rest);
    let h = assignment_redacted(g, "api-key"@, 0).0;
    lemma_assignment_makes_no_key(h, "token"@, 0, prefix, min_rest);
}

/// A text that was redacted holds no key of either form, whatever it held before and
/// whatever else was taken out of it.
pub proof fn law_redacted_text_holds_no_key(s: Seq<char>)
    ensures
        free_of(text_redacted(s).0, "sk-"@, 20),
        free_of(text_redacted(s).0, "AKIA"@, 16),
{
    law_known_prefixes_are_plain();
    reveal_strlit("sk-");
    reveal_strlit("AKIA");
    assert("sk-"@ =~= seq!['s', 'k', '-']);
    assert("AKIA"@ =~= seq!['A', 'K', 'I', 'A']);
    let a = pem_redacted(s).0;
    let b = keys_redacted(a, "sk-"@, 20, 0).0;
    let c = keys_redacted(b, "AKIA"@, 16, 0).0;
    law_no_key_is_left(a, "sk-"@, 20);
    law_no_key_is_left(b, "AKIA"@, 16);
    lemma_keys_make_no_key(b, "AKIA"@, 16, 0, "sk-"@, 20);
    lemma_later_steps_make_no_key(c, "sk-"@, 20);
    lemma_later_steps_make_no_key(c, "AKIA"@, 16);
}

// ---------------------------------------------------------------------------
// Documents
// ---------------------------------------------------------------------------
/// No text in the document holds a key, and nothing stands under a sensitive name.
pub open spec fn holds_no_secret(value: JsonView) -> bool
    decreases value,
{
    match value {
        JsonView::Text(text) => free_of(text, "sk-"@, 20) && free_of(text, "AKIA"@, 16),
        JsonView::Array(items) => items_hold_no_secret(items),
        JsonView::Object(entries) => entries_hold_no_secret(entries),
        _ => true,
    }
}

pub open spec fn items_hold_no_secret(items: Seq<JsonView>) -> bool
    decreases items,
{
    items.len() == 0 || (items_hold_no_secret(items.drop_last()) && holds_no_secret(items.last()))
}

pub open spec fn entries_hold_no_secret(entries: Seq<(Seq<char>, JsonView)>) -> bool
    decreases entries,
{
    entries.len() == 0 || (entries_hold_no_secret(entries.drop_last()) && if sensitive_key(
        entries.last().0,
    ) {
        entries.last().1 == JsonView::Text("[REDACTED]"@)
    } else {
        holds_no_secret(entries.last().1)
    })
}

/// A document that was redacted holds no key in any text, at any depth, and under a
/// sensitive name only the mark that something was taken out.
pub proof fn law_redacted_document_holds_no_secret(value: JsonView)
    ensures
        holds_no_secret(json_redacted(value).0),
    decreases value,
{
    match value {
        JsonView::Text(text) => law_redacted_text_holds_no_key(text),
        JsonView::Array(items) => lemma_redacted_items(items),
        JsonView::Object(entries) => lemma_redacted_entries(entries),
        _ => {},
    }
}

proof fn lemma_redacted_items(items: Seq<JsonView>)
    ensures
        items_hold_no_secret(items_redacted(items).0),
    decreases items,
{
    if items.len() > 0 {
        lemma_redacted_items(items.drop_last());
        law_redacted_document_holds_no_secret(items.last());
        let r = items_redacted(items).0;
        assert(r.drop_last() =~= items_redacted(items.drop_last()).0);
    }
}

proof fn lemma_redacted_entries(entries: Seq<(Seq<char>, JsonView)>)
    ensures
        entries_hold_no_secret(entries_redacted(entries).0),
    decreases entries,
{
    if entries.len() > 0 {
        lemma_redacted_entries(entries.drop_last());
        if !sensitive_key(entries.last().0) {
            law_redacted_document_holds_no_secret(entries.last().1);
        }
        let r = entries_redacted(entries).0;
        assert(r.drop_last() =~= entries_redacted(entries.drop_last()).0);
    }
}

} // verus!
