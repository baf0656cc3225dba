//! Secrets taken out of text and documents before they are kept or sent on.
use vstd::prelude::*;

use crate::json::{
    entries_view, items_view, lemma_entries_view, lemma_items_view, push_entry, push_item, Json,
    JsonEntry, JsonView,
};
use crate::text::{
    char_is_alphanumeric, chars_of, find_chars, find_from, is_alphanumeric, lemma_find_from, lower,
    lower_chars, lower_str, same, skip_white, string_of, trim_start, white_space,
};

verus! {

// ---------------------------------------------------------------------------
// Runs of characters
// ---------------------------------------------------------------------------
/// What the characters of a run are.
#[derive(Clone, Copy, PartialEq, Eq, Structural)]
pub enum RunKind {
    /// Letters, digits, `_` and `-`.
    Key,
    /// Anything but white space.
    Word,
    /// Anything but white space, `,`, `;` and `"`.
    Value,
}

impl RunKind {
    pub open spec fn admits(self, c: char) -> bool {
        match self {
            RunKind::Key => is_alphanumeric(c) || c == '_' || c == '-',
            RunKind::Word => !white_space(c),
            RunKind::Value => !white_space(c) && c != ',' && c != ';' && c != '"',
        }
    }

    fn admits_char(self, c: char) -> (r: bool)
        ensures
            r == self.admits(c),
    {
        match self {
            RunKind::Key => char_is_alphanumeric(c) || c == '_' || c == '-',
            RunKind::Word => !c.is_whitespace(),
            RunKind::Value => !c.is_whitespace() && c != ',' && c != ';' && c != '"',
        }
    }
}

/// The end of the run that starts at `from`.
pub open spec fn run_end(s: Seq<char>, kind: RunKind, from: int) -> int
    decreases s.len() - from,
{
    if 0 <= from < s.len() && kind.admits(s[from]) {
        run_end(s, kind, from + 1)
    } else {
        from
    }
}

fn find_run_end(s: &Vec<char>, kind: RunKind, from: usize) -> (r: usize)
    requires
        from <= s@.len(),
    ensures
        r == run_end(s@, kind, from as int),
        from <= r <= s@.len(),
{
    let mut i: usize = from;
    while i < s.len() && kind.admits_char(s[i])
        invariant
            from <= i <= s@.len(),
            run_end(s@, kind, from as int) == run_end(s@, kind, i as int),
        decreases s@.len() - i,
    {
        i += 1;
    }
    i
}

/// `s` with `s[from..to]` replaced.
pub open spec fn replaced(s: Seq<char>, from: int, to: int, by: Seq<char>) -> Seq<char> {
    s.take(from) + by + s.skip(to)
}

fn replace_range(s: &Vec<char>, from: usize, to: usize, by: &str) -> (r: Vec<char>)
    requires
        from <= to <= s@.len(),
    ensures
        r@ == replaced(s@, from as int, to as int, by@),
{
    let by = chars_of(by);
    let mut r: Vec<char> = Vec::new();
    let mut i: usize = 0;
    while i < from
        invariant
            i <= from <= s@.len(),
            r@ == s@.take(i as int),
        decreases from - i,
    {
        r.push(s[i]);
        i += 1;
        assert(r@ =~= s@.take(i as int));
    }
    let mut j: usize = 0;
    while j < by.len()
        invariant
            j <= by@.len(),
            from <= s@.len(),
            r@ == s@.take(from as int) + by@.take(j as int),
        decreases by@.len() - j,
    {
        r.push(by[j]);
        j += 1;
        assert(r@ =~= s@.take(from as int) + by@.take(j as int));
    }
    assert(by@.take(j as int) =~= by@);
    let mut k: usize = to;
    assert(r@ =~= s@.take(from as int) + by@ + s@.subrange(to as int, k as int));
    while k < s.len()
        invariant
            from <= to <= k <= s@.len(),
            r@ == s@.take(from as int) + by@ + s@.subrange(to as int, k as int),
        decreases s@.len() - k,
    {
        r.push(s[k]);
        k += 1;
        assert(r@ =~= s@.take(from as int) + by@ + s@.subrange(to as int, k as int));
    }
    assert(s@.subrange(to as int, k as int) =~= s@.skip(to as int));
    r
}

// ---------------------------------------------------------------------------
// Private keys
// ---------------------------------------------------------------------------
/// The private key block ends after it begins. A text in which the first end
/// marker comes before the first begin marker is not redacted.
pub open spec fn pem_in_order(s: Seq<char>) -> bool {
    match (find_from(s, "-----BEGIN "@, 0), find_from(s, "-----END "@, 0)) {
        (Some(start), Some(end)) => start <= end + 5,
        _ => true,
    }
}

/// From the first begin marker to the dashes of the first end marker.
pub open spec fn pem_redacted(s: Seq<char>) -> (Seq<char>, bool) {
    match (find_from(s, "-----BEGIN "@, 0), find_from(s, "-----END "@, 0)) {
        (Some(start), Some(end)) => (replaced(s, start, end + 5, "[REDACTED_PRIVATE_KEY]"@), true),
        _ => (s, false),
    }
}

fn redact_pem(s: Vec<char>) -> (r: (Vec<char>, bool))
    requires
        pem_in_order(s@),
    ensures
        (r.0@, r.1) == pem_redacted(s@),
{
    let begin = chars_of("-----BEGIN ");
    let end = chars_of("-----END ");
    proof {
        lemma_find_from(s@, "-----BEGIN "@, 0);
        lemma_find_from(s@, "-----END "@, 0);
        reveal_strlit("-----END ");
        assert("-----END "@.len() == 9);
    }
    let n: usize = s.len();
    match find_chars(&s, &begin, 0) {
        Some(start) => match find_chars(&s, &end, 0) {
            Some(at) => {
                assert(at + 9 <= n);
                (replace_range(&s, start, at + 5, "[REDACTED_PRIVATE_KEY]"), true)
            },
            None => (s, false),
        },
        None => (s, false),
    }
}

// ---------------------------------------------------------------------------
// Keys with a known prefix
// ---------------------------------------------------------------------------
/// From `from` on, each occurrence of `prefix` that at least `min_rest` key
/// characters follow is replaced together with them.
pub open spec fn keys_redacted(
    s: Seq<char>,
    prefix: Seq<char>,
    min_rest: int,
    from: int,
) -> (Seq<char>, bool)
    decreases s.len() - from,
    when prefix.len() > 0 && from >= 0
{
    match find_from(s, prefix, from) {
        None => (s, false),
        Some(start) => {
            proof {
                lemma_find_from(s, prefix, from);
            }
            let rest = start + prefix.len();
            let end = run_end(s, RunKind::Key, rest as int);
            proof {
                lemma_run_end(s, RunKind::Key, rest as int);
            }
            if end - rest >= min_rest {
                let next = replaced(s, start, end, "[REDACTED]"@);
                (keys_redacted(next, prefix, min_rest, start + "[REDACTED]"@.len()).0, true)
            } else {
                keys_redacted(s, prefix, min_rest, rest as int)
            }
        },
    }
}

pub proof fn lemma_run_end(s: Seq<char>, kind: RunKind, from: int)
    requires
        0 <= from <= s.len(),
    ensures
        from <= run_end(s, kind, from) <= s.len(),
        forall|i: int| from <= i < run_end(s, kind, from) ==> kind.admits(#[trigger] s[i]),
        run_end(s, kind, from) < s.len() ==> !kind.admits(s[run_end(s, kind, from)]),
    decreases s.len() - from,
{
    if from < s.len() && kind.admits(s[from]) {
        lemma_run_end(s, kind, from + 1);
    }
}

fn replace_prefixed(s: Vec<char>, prefix: &str, min_rest: usize) -> (r: (Vec<char>, bool))
    requires
        prefix@.len() > 0,
    ensures
        (r.0@, r.1) == keys_redacted(s@, prefix@, min_rest as int, 0),
{
    let needle = chars_of(prefix);
    let ghost whole = keys_redacted(s@, prefix@, min_rest as int, 0);
    let mut text = s;
    let mut changed = false;
    let mut from: usize = 0;
    loop
        invariant
            needle@ == prefix@,
            prefix@.len() > 0,
            from <= text@.len(),
            whole == keys_redacted(s@, prefix@, min_rest as int, 0),
            whole == ({
                let rest = keys_redacted(text@, prefix@, min_rest as int, from as int);
                (rest.0, changed || rest.1)
            }),
        decreases text@.len() - from,
    {
        proof {
            lemma_find_from(text@, prefix@, from as int);
        }
        let start = match find_chars(&text, &needle, from) {
            Some(start) => start,
            None => {
                return (text, changed);
            },
        };
        let n: usize = text.len();
        assert(start + prefix@.len() <= n);
        let rest: usize = start + needle.len();
        proof {
            lemma_run_end(text@, RunKind::Key, rest as int);
        }
        let end = find_run_end(&text, RunKind::Key, rest);
        if end - rest >= min_rest {
            let next = replace_range(&text, start, end, "[REDACTED]");
            proof {
                reveal_strlit("[REDACTED]");
                assert("[REDACTED]"@.len() == 10);
            }
            let n: usize = next.len();
            assert(start + 10 <= n);
            text = next;
            changed = true;
            from = start + 10;
        } else {
            from = rest;
        }
    }
}

// ---------------------------------------------------------------------------
// Bearer tokens
// ---------------------------------------------------------------------------
/// The first bearer token, if it is longer than eight characters.
pub open spec fn bearer_redacted(s: Seq<char>) -> (Seq<char>, bool) {
    match find_from(lower(s), "bearer "@, 0) {
        None => (s, false),
        Some(index) => {
            let rest = index + 7;
            let end = run_end(s, RunKind::Word, rest);
            if end - rest > 8 {
                (replaced(s, index, end, "Bearer [REDACTED]"@), true)
            } else {
                (s, false)
            }
        },
    }
}

fn redact_bearer(s: Vec<char>) -> (r: (Vec<char>, bool))
    ensures
        (r.0@, r.1) == bearer_redacted(s@),
{
    let lowered = lower_chars(&s);
    let needle = chars_of("bearer ");
    proof {
        lemma_find_from(lowered@, "bearer "@, 0);
        reveal_strlit("bearer ");
        assert("bearer "@.len() == 7);
    }
    match find_chars(&lowered, &needle, 0) {
        Some(index) => {
            let n: usize = s.len();
            assert(index + 7 <= n);
            let rest: usize = index + 7;
            let end = find_run_end(&s, RunKind::Word, rest);
            if end - rest > 8 {
                (replace_range(&s, index, end, "Bearer [REDACTED]"), true)
            } else {
                (s, false)
            }
        },
        None => (s, false),
    }
}

// ---------------------------------------------------------------------------
// Assignments
// ---------------------------------------------------------------------------
/// The index at which the white space from `from` on ends.
pub open spec fn white_end(s: Seq<char>, from: int) -> int {
    s.len() - trim_start(s.skip(from)).len()
}

/// The value of the first assignment to `key` at or after `from` that has one.
/// A `key` at the end of the text ends the search.
pub open spec fn assignment_redacted(s: Seq<char>, key: Seq<char>, from: int) -> (Seq<char>, bool)
    decreases s.len() - from,
    when key.len() > 0 && from >= 0
{
    match find_from(lower(s), key, from) {
        None => (s, false),
        Some(start) => {
            proof {
                lemma_find_from(lower(s), key, from);
            }
            let after = (start + key.len()) as int;
            let sign = white_end(s, after);
            if sign >= s.len() {
                (s, false)
            } else if s[sign] != '=' && s[sign] != ':' {
                assignment_redacted(s, key, after)
            } else {
                let value = white_end(s, sign + 1);
                let end = run_end(s, RunKind::Value, value);
                if end > value {
                    (replaced(s, value, end, "[REDACTED]"@), true)
                } else {
                    assignment_redacted(s, key, after)
                }
            }
        },
    }
}

fn redact_assignment(s: Vec<char>, key: &str) -> (r: (Vec<char>, bool))
    requires
        key@.len() > 0,
    ensures
        (r.0@, r.1) == assignment_redacted(s@, key@, 0),
{
    let lowered = lower_chars(&s);
    let needle = chars_of(key);
    let ghost whole = assignment_redacted(s@, key@, 0);
    let mut from: usize = 0;
    loop
        invariant
            needle@ == key@,
            key@.len() > 0,
            lowered@ == lower(s@),
            from <= s@.len(),
            whole == assignment_redacted(s@, key@, from as int),
            whole == assignment_redacted(s@, key@, 0),
        decreases s@.len() - from,
    {
        proof {
            lemma_find_from(lowered@, key@, from as int);
        }
        let start = match find_chars(&lowered, &needle, from) {
            Some(start) => start,
            None => {
                return (s, false);
            },
        };
        let n: usize = s.len();
        assert(start + key@.len() <= n);
        let after: usize = start + needle.len();
        let sign = skip_white(&s, after);
        if sign >= s.len() {
            return (s, false);
        }
        if s[sign] != '=' && s[sign] != ':' {
            from = after;
        } else {
            let value = skip_white(&s, sign + 1);
            let end = find_run_end(&s, RunKind::Value, value);
            if end > value {
                return (replace_range(&s, value, end, "[REDACTED]"), true);
            }
            from = after;
        }
    }
}

// ---------------------------------------------------------------------------
// Text
// ---------------------------------------------------------------------------
/// The text without secrets, and whether anything was taken out: private keys,
/// then keys by prefix, then a bearer token, then assignments.
pub open spec fn text_redacted(s: Seq<char>) -> (Seq<char>, bool) {
    let a = pem_redacted(s);
    let b = keys_redacted(a.0, "sk-"@, 20, 0);
    let c = keys_redacted(b.0, "AKIA"@, 16, 0);
    let d = bearer_redacted(c.0);
    let e = assignment_redacted(d.0, "password"@, 0);
    let f = assignment_redacted(e.0, "secret"@, 0);
    let g = assignment_redacted(f.0, "api_key"@, 0);
    let h = assignment_redacted(g.0, "api-key"@, 0);
    let i = assignment_redacted(h.0, "token"@, 0);
    (i.0, a.1 || b.1 || c.1 || d.1 || e.1 || f.1 || g.1 || h.1 || i.1)
}

/// Whether a text can be redacted.
pub fn is_redactable(input: &str) -> (r: bool)
    ensures
        r == pem_in_order(input@),
{
    let s = chars_of(input);
    let begin = chars_of("-----BEGIN ");
    let end = chars_of("-----END ");
    match find_chars(&s, &begin, 0) {
        Some(start) => match find_chars(&s, &end, 0) {
            Some(at) => start <= 5 || start - 5 <= at,
            None => true,
        },
        None => true,
    }
}

pub fn redact_text(input: &str) -> (r: (String, bool))
    requires
        pem_in_order(input@),
    ensures
        (r.0@, r.1) == text_redacted(input@),
{
    proof {
        reveal_strlit("sk-");
        reveal_strlit("AKIA");
        reveal_strlit("password");
        reveal_strlit("secret");
        reveal_strlit("api_key");
        reveal_strlit("api-key");
        reveal_strlit("token");
        assert("sk-"@.len() == 3 && "AKIA"@.len() == 4 && "password"@.len() == 8);
        assert("secret"@.len() == 6 && "api_key"@.len() == 7 && "api-key"@.len() == 7);
        assert("token"@.len() == 5);
    }
    let a = redact_pem(chars_of(input));
    let b = replace_prefixed(a.0, "sk-", 20);
    let c = replace_prefixed(b.0, "AKIA", 16);
    let d = redact_bearer(c.0);
    let e = redact_assignment(d.0, "password");
    let f = redact_assignment(e.0, "secret");
    let g = redact_assignment(f.0, "api_key");
    let h = redact_assignment(g.0, "api-key");
    let i = redact_assignment(h.0, "token");
    (string_of(&i.0), a.1 || b.1 || c.1 || d.1 || e.1 || f.1 || g.1 || h.1 || i.1)
}

// ---------------------------------------------------------------------------
// Documents
// ---------------------------------------------------------------------------
/// What stands under this key is secret whatever it is.
pub open spec fn sensitive_key(key: Seq<char>) -> bool {
    let k = lower(key);
    k == "password"@ || k == "secret"@ || k == "token"@ || k == "api_key"@ || k == "apikey"@ || k
        == "authorization"@ || k == "private_key"@
}

pub fn is_sensitive_key(key: &str) -> (r: bool)
    ensures
        r == sensitive_key(key@),
{
    let k = lower_str(key);
    same(k.as_str(), "password") || same(k.as_str(), "secret") || same(k.as_str(), "token") || same(
        k.as_str(),
        "api_key",
    ) || same(k.as_str(), "apikey") || same(k.as_str(), "authorization") || same(
        k.as_str(),
        "private_key",
    )
}

/// Every text in the document that is looked at can be redacted.
pub open spec fn redactable(value: JsonView) -> bool
    decreases value,
{
    match value {
        JsonView::Text(text) => pem_in_order(text),
        JsonView::Array(items) => items_redactable(items),
        JsonView::Object(entries) => entries_redactable(entries),
        _ => true,
    }
}

pub open spec fn items_redactable(items: Seq<JsonView>) -> bool
    decreases items,
{
    items.len() == 0 || (items_redactable(items.drop_last()) && redactable(items.last()))
}

pub open spec fn entries_redactable(entries: Seq<(Seq<char>, JsonView)>) -> bool
    decreases entries,
{
    entries.len() == 0 || (entries_redactable(entries.drop_last()) && (sensitive_key(
        entries.last().0,
    ) || redactable(entries.last().1)))
}

/// The document without secrets, and whether anything was taken out.
pub open spec fn json_redacted(value: JsonView) -> (JsonView, bool)
    decreases value,
{
    match value {
        JsonView::Text(text) => (JsonView::Text(text_redacted(text).0), text_redacted(text).1),
        JsonView::Array(items) => (
            JsonView::Array(items_redacted(items).0),
            items_redacted(items).1,
        ),
        JsonView::Object(entries) => (
            JsonView::Object(entries_redacted(entries).0),
            entries_redacted(entries).1,
        ),
        other => (other, false),
    }
}

pub open spec fn items_redacted(items: Seq<JsonView>) -> (Seq<JsonView>, bool)
    decreases items,
{
    if items.len() == 0 {
        (Seq::empty(), false)
    } else {
        let before = items_redacted(items.drop_last());
        let last = json_redacted(items.last());
        (before.0.push(last.0), before.1 || last.1)
    }
}

pub open spec fn entries_redacted(entries: Seq<(Seq<char>, JsonView)>) -> (
    Seq<(Seq<char>, JsonView)>,
    bool,
)
    decreases entries,
{
    if entries.len() == 0 {
        (Seq::empty(), false)
    } else {
        let before = entries_redacted(entries.drop_last());
        let key = entries.last().0;
        if sensitive_key(key) {
            (before.0.push((key, JsonView::Text("[REDACTED]"@))), true)
        } else {
            let last = json_redacted(entries.last().1);
            (before.0.push((key, last.0)), before.1 || last.1)
        }
    }
}

proof fn lemma_items_prefix(items: Seq<JsonView>, n: int)
    requires
        items_redactable(items),
        0 <= n <= items.len(),
    ensures
        items_redactable(items.take(n)),
    decreases items.len(),
{
    if n == items.len() {
        assert(items.take(n) =~= items);
    } else {
        lemma_items_prefix(items.drop_last(), n);
        assert(items.drop_last().take(n) =~= items.take(n));
    }
}

proof fn lemma_entries_prefix(entries: Seq<(Seq<char>, JsonView)>, n: int)
    requires
        entries_redactable(entries),
        0 <= n <= entries.len(),
    ensures
        entries_redactable(entries.take(n)),
    decreases entries.len(),
{
    if n == entries.len() {
        assert(entries.take(n) =~= entries);
    } else {
        lemma_entries_prefix(entries.drop_last(), n);
        assert(entries.drop_last().take(n) =~= entries.take(n));
    }
}

/// Whether every text that redaction looks at can be redacted.
pub fn is_json_redactable(value: &Json) -> (r: bool)
    ensures
        r == redactable(value@),
    decreases value,
{
    match value {
        Json::Text(text) => is_redactable(text.as_str()),
        Json::Array(items) => {
            let mut i: usize = 0;
            let mut ok = true;
            while i < items.len()
                invariant
                    i <= items@.len(),
                    decreases_to!(value => items),
                    ok == items_redactable(items_view(items@.take(i as int))),
                decreases items@.len() - i,
            {
                let this = is_json_redactable(&items[i]);
                ok = ok && this;
                proof {
                    lemma_items_view(items@.take(i + 1));
                    lemma_items_view(items@.take(i as int));
                    assert(items@.take(i + 1).drop_last() =~= items@.take(i as int));
                    assert(items_view(items@.take(i + 1)).drop_last() =~= items_view(
                        items@.take(i as int),
                    ));
                }
                i += 1;
            }
            assert(items@.take(i as int) =~= items@);
            ok
        },
        Json::Object(entries) => {
            let mut i: usize = 0;
            let mut ok = true;
            while i < entries.len()
                invariant
                    i <= entries@.len(),
                    decreases_to!(value => entries),
                    ok == entries_redactable(entries_view(entries@.take(i as int))),
                decreases entries@.len() - i,
            {
                let this = is_sensitive_key(entries[i].key.as_str()) || is_json_redactable(
                    &entries[i].value,
                );
                ok = ok && this;
                proof {
                    lemma_entries_view(entries@.take(i + 1));
                    lemma_entries_view(entries@.take(i as int));
                    assert(entries@.take(i + 1).drop_last() =~= entries@.take(i as int));
                    assert(entries_view(entries@.take(i + 1)).drop_last() =~= entries_view(
                        entries@.take(i as int),
                    ));
                }
                i += 1;
            }
            assert(entries@.take(i as int) =~= entries@);
            ok
        },
        _ => true,
    }
}

pub fn redact_json(value: &Json) -> (r: (Json, bool))
    requires
        redactable(value@),
    ensures
        (r.0@, r.1) == json_redacted(value@),
    decreases value,
{
    match value {
        Json::Text(text) => {
            let (redacted, changed) = redact_text(text.as_str());
            (Json::Text(redacted), changed)
        },
        Json::Array(items) => {
            let mut out: Vec<Json> = Vec::new();
            let mut changed = false;
            let mut i: usize = 0;
            while i < items.len()
                invariant
                    i <= items@.len(),
                    decreases_to!(value => items),
                    items_redactable(items_view(items@)),
                    (items_view(out@), changed) == items_redacted(
                        items_view(items@.take(i as int)),
                    ),
                decreases items@.len() - i,
            {
                proof {
                    lemma_items_view(items@);
                    lemma_items_view(items@.take(i + 1));
                    lemma_items_view(items@.take(i as int));
                    assert(items_view(items@.take(i + 1)) =~= items_view(items@).take(i + 1));
                    lemma_items_prefix(items_view(items@), i + 1);
                    assert(items_view(items@.take(i + 1)).last() == items@[i as int]@);
                    assert(items_view(items@.take(i + 1)).drop_last() =~= items_view(
                        items@.take(i as int),
                    ));
                }
                let (item, this) = redact_json(&items[i]);
                push_item(&mut out, item);
                changed = changed || this;
                i += 1;
            }
            assert(items@.take(i as int) =~= items@);
            (Json::Array(out), changed)
        },
        Json::Object(entries) => {
            let mut out: Vec<JsonEntry> = Vec::new();
            let mut changed = false;
            let mut i: usize = 0;
            while i < entries.len()
                invariant
                    i <= entries@.len(),
                    decreases_to!(value => entries),
                    entries_redactable(entries_view(entries@)),
                    (entries_view(out@), changed) == entries_redacted(
                        entries_view(entries@.take(i as int)),
                    ),
                decreases entries@.len() - i,
            {
                proof {
                    lemma_entries_view(entries@);
                    lemma_entries_view(entries@.take(i + 1));
                    lemma_entries_view(entries@.take(i as int));
                    assert(entries_view(entries@.take(i + 1)) =~= entries_view(entries@).take(
                        i + 1,
                    ));
                    lemma_entries_prefix(entries_view(entries@), i + 1);
                    assert(entries_view(entries@.take(i + 1)).last() == (
                        entries@[i as int].key@,
                        entries@[i as int].value@,
                    ));
                    assert(entries_view(entries@.take(i + 1)).drop_last() =~= entries_view(
                        entries@.take(i as int),
                    ));
                }
                let key = entries[i].key.as_str();
                if is_sensitive_key(key) {
                    push_entry(&mut out, key, Json::text("[REDACTED]"));
                    changed = true;
                } else {
                    let (child, this) = redact_json(&entries[i].value);
                    push_entry(&mut out, key, child);
                    changed = changed || this;
                }
                i += 1;
            }
            assert(entries@.take(i as int) =~= entries@);
            (Json::Object(out), changed)
        },
        _ => (value.clone(), false),
    }
}

} // verus!
