//! What evidence holds, what is kept of it and what is taken out of it.
use vstd::prelude::*;
use vstd::utf8::{decode_utf8, encode_utf8};

use crate::digest::sha256_text;
use crate::error::OpsResult;
use crate::evidence::artifact::{path_parts, read_limit, read_result, scoped, sha256_id};
use crate::evidence::diagnosis::{
    confidence_of, is_parsed, json_candidate, Diagnosis, LooseConfidence, LooseDiagnosis,
};
use crate::evidence::redact::{
    assignment_redacted, bearer_redacted, entries_redacted, items_redacted, json_redacted,
    keys_redacted,
    pem_redacted, replaced, run_end, sensitive_key, text_redacted, RunKind,
};
use crate::evidence::{floor_boundary, is_finalized, output_entries, summary_of, EvidenceMeta};
use crate::json::JsonView;
use crate::json_law::law_the_first_entry_is_read;
use crate::json_map::map_bytes;
use crate::runtime::thread::EvidenceId;
use crate::text::{
    contains, find_from, lemma_find_from, lower, matches_at, rfind_char, trim, trim_start,
    white_space,
};

verus! {

/// What was put aside is read back as it was, as far as the reader asks and the store
/// allows, and at least one byte of it.
pub proof fn law_artifacts_are_read_back(
    before: Map<Seq<char>, Seq<u8>>,
    workspace_id: Seq<char>,
    id: Seq<char>,
    bytes: Seq<u8>,
    asked: usize,
    allowed: usize,
    r: OpsResult<Vec<u8>>,
)
    requires
        sha256_id(id),
        read_result(
            before.insert(scoped(workspace_id, id), bytes),
            workspace_id,
            id,
            read_limit(asked, allowed),
            r,
        ),
    ensures
        r matches Ok(read) && {
            &&& bytes.len() <= asked && bytes.len() <= allowed ==> read@ == bytes
            &&& read@.len() <= bytes.len()
            &&& forall|i: int| 0 <= i < read@.len() ==> read@[i] == bytes[i]
            &&& read@.len() <= asked || read@.len() <= 1
            &&& read@.len() <= allowed || read@.len() <= 1
            &&& read@.len() == bytes.len() || read@.len() == asked || read@.len() == allowed
                || read@.len() == 1
            &&& 0 < allowed <= asked && bytes.len() > allowed ==> read@.len() == allowed
            &&& 0 < asked <= allowed && bytes.len() > asked ==> read@.len() == asked
        },
{
}

/// An artifact is named by sixty-four hexadecimal digits, and lies under its workspace
/// and the first two of them.
pub proof fn law_artifacts_are_named_by_their_hash(workspace_id: Seq<char>, id: Seq<char>)
    ensures
        sha256_id(id) <==> id.len() == 64 && forall|i: int|
            0 <= i < 64 ==> ('0' <= #[trigger] id[i] <= '9' || 'a' <= id[i] <= 'f' || 'A' <= id[i]
                <= 'F'),
        path_parts(workspace_id, id).0 == workspace_id,
        path_parts(workspace_id, id).2 == id,
        sha256_id(id) ==> path_parts(workspace_id, id).1 == seq![id[0], id[1]],
{
    if sha256_id(id) {
        assert(id.take(2) =~= seq![id[0], id[1]]);
    }
}

/// Evidence names what it was gathered from and holds the hash and the size of what
/// was found, without what was taken out of it, and the reference under which that was
/// put aside, if it was. What it held before, it still holds.
pub proof fn law_evidence_is_completed(
    r: EvidenceMeta,
    meta: EvidenceMeta,
    content: JsonView,
    artifact_ref: Option<String>,
    evidence_id: EvidenceId,
)
    requires
        is_finalized(r, meta, content, artifact_ref, evidence_id),
    ensures
        r.evidence_id == Some(evidence_id),
        r.artifact_ref == artifact_ref,
        r.sha256@ == sha256_text(map_bytes(json_redacted(content).0)),
        r.byte_size == map_bytes(json_redacted(content).0).len(),
        r.source == meta.source,
        r.query == meta.query,
        r.timestamp == meta.timestamp,
        r.duration_ms == meta.duration_ms,
        r.truncated == meta.truncated,
        r.time_range == meta.time_range,
        r.content_type == meta.content_type,
        r.sensitivity == meta.sensitivity,
        meta.summary@.len() > 0 ==> r.summary@ == meta.summary@,
        meta.source_kind is Some ==> r.source_kind == meta.source_kind,
        meta.source_kind is None ==> r.source_kind == Some(meta.source),
        meta.source_ref is Some ==> r.source_ref == meta.source_ref,
        meta.source_ref is None ==> r.source_ref == Some(meta.source),
        meta.query_or_operation is Some ==> r.query_or_operation == meta.query_or_operation,
        meta.query_or_operation is None ==> r.query_or_operation == meta.query,
        meta.observed_at is Some ==> r.observed_at == meta.observed_at,
        meta.observed_at is None ==> r.observed_at == Some(meta.timestamp),
{
}

/// What a model is told of a result: what was found, or under which reference it was
/// put aside, the identifier of the evidence, its hash and its summary.
pub proof fn law_results_are_told(evidence: EvidenceMeta, content: JsonView)
    ensures
        ({
            let told = JsonView::Object(output_entries(&evidence, content));
            &&& evidence.artifact_ref is None ==> told.get("content"@) == Some(content)
            &&& evidence.artifact_ref matches Some(reference) ==> told.text_at("artifact_ref"@)
                == Some(reference@) && told.get("content"@) is None
            &&& evidence.evidence_id matches Some(id) ==> told.text_at("evidence_id"@) == Some(
                id.text(),
            )
            &&& told.text_at("sha256"@) == Some(evidence.sha256@)
            &&& told.text_at("summary"@) == Some(evidence.summary@)
            &&& told.get("success"@) == Some(JsonView::Bool(true))
            &&& told.get("truncated"@) == Some(JsonView::Bool(evidence.truncated))
        }),
{
    reveal_strlit("content");
    reveal_strlit("artifact_ref");
    reveal_strlit("evidence_id");
    reveal_strlit("sha256");
    reveal_strlit("success");
    reveal_strlit("summary");
    reveal_strlit("truncated");
    assert("content"@.len() == 7 && "artifact_ref"@.len() == 12 && "evidence_id"@.len() == 11);
    assert("sha256"@.len() == 6 && "success"@.len() == 7 && "summary"@.len() == 7
        && "truncated"@.len() == 9);
    assert("content"@[0] == 'c' && "success"@[2] == 'c' && "summary"@[2] == 'm');
    assert("success"@[0] == 's' && "summary"@[0] == 's');
    let entries = output_entries(&evidence, content);
    if evidence.artifact_ref is None {
        law_the_first_entry_is_read(entries, "content"@, 0);
    } else {
        law_the_first_entry_is_read(entries, "artifact_ref"@, 0);
        law_the_first_entry_is_read(entries, "content"@, 6);
    }
    law_the_first_entry_is_read(entries, "evidence_id"@, 1);
    law_the_first_entry_is_read(entries, "sha256"@, 2);
    law_the_first_entry_is_read(entries, "success"@, 3);
    law_the_first_entry_is_read(entries, "summary"@, 4);
    law_the_first_entry_is_read(entries, "truncated"@, 5);
}

/// A text that is short enough is its own summary. Of a longer one the summary is what
/// a beginning of its bytes says, with an ellipsis behind it.
pub proof fn law_summaries_are_short(text: Seq<char>, max: int)
    requires
        max > 1,
    ensures
        encode_utf8(text).len() <= max ==> summary_of(JsonView::Text(text), max) == text,
        encode_utf8(text).len() > max ==> exists|n: int|
            1 <= n < max && summary_of(JsonView::Text(text), max) == #[trigger] decode_utf8(
                encode_utf8(text).take(n),
            ).push('\u{2026}'),
{
    let bytes = encode_utf8(text);
    if bytes.len() > max {
        lemma_floor(bytes, max);
        let end = floor_boundary(bytes, max);
        let n: int = if end <= 1 {
            1
        } else {
            end - 1
        };
        assert(summary_of(JsonView::Text(text), max) == decode_utf8(bytes.take(n)).push(
            '\u{2026}',
        ));
    }
}

proof fn lemma_floor(bytes: Seq<u8>, n: int)
    ensures
        floor_boundary(bytes, n) <= n,
    decreases n,
{
    if n > 0 {
        lemma_floor(bytes, n - 1);
    }
}

/// A diagnosis holds what the object in an answer said: its summary, its claims in
/// their order with what they state and cite, its actions and its limitations. An
/// answer without such an object claims nothing, and says so.
pub proof fn law_diagnoses_say_what_the_answer_said(
    diagnosis: Diagnosis,
    content: Seq<char>,
    parsed: Option<LooseDiagnosis>,
)
    requires
        is_parsed(diagnosis, content, parsed),
    ensures
        parsed matches Some(loose) ==> {
            &&& loose.summary matches Some(summary) ==> diagnosis.summary@ == summary@
            &&& diagnosis.claims@.len() == loose.claims@.len()
            &&& forall|i: int|
                0 <= i < loose.claims@.len() ==> {
                    &&& (#[trigger] diagnosis.claims@[i]).claim_id == loose.claims@[i].claim_id
                    &&& diagnosis.claims@[i].kind == loose.claims@[i].kind
                    &&& diagnosis.claims@[i].statement == loose.claims@[i].statement
                    &&& diagnosis.claims@[i].evidence_ids == loose.claims@[i].evidence_ids
                }
            &&& diagnosis.recommended_actions == loose.recommended_actions
            &&& diagnosis.limitations == loose.limitations
        },
        parsed is None ==> diagnosis.claims@.len() == 0 && diagnosis.recommended_actions@.len() == 0
            && diagnosis.limitations@.len() == 1,
        (parsed is None || parsed->0.summary is None) && content.len() <= 280
            ==> diagnosis.summary@ == content,
        (parsed is None || parsed->0.summary is None) && content.len() > 280
            ==> diagnosis.summary@ == content.take(280),
{
}

/// How sure a claim is: as sure as it says, in whatever case it says so, and hardly
/// sure where it does not say it.
pub proof fn law_confidence_is_read(value: Option<LooseConfidence>)
    ensures
        confidence_of(value) is High <==> match value {
            Some(LooseConfidence::Level(level)) => level is High,
            Some(LooseConfidence::Text(text)) => lower(text@) == "high"@,
            None => false,
        },
        confidence_of(value) is Medium <==> match value {
            Some(LooseConfidence::Level(level)) => level is Medium,
            Some(LooseConfidence::Text(text)) => lower(text@) == "medium"@ || lower(text@)
                == "med"@,
            None => false,
        },
{
    reveal_strlit("high");
    reveal_strlit("medium");
    reveal_strlit("med");
    assert("high"@.len() == 4 && "medium"@.len() == 6 && "med"@.len() == 3);
}

/// An answer that is an object is taken as it is. In any other, what is taken begins
/// with an opening brace, ends with a closing one, and stands in the answer.
pub proof fn law_objects_are_found_in_answers(content: Seq<char>)
    ensures
        trim(content).len() > 0 && trim(content)[0] == '{' ==> json_candidate(content) == Some(
            trim(content),
        ),
        json_candidate(content) matches Some(object) ==> {
            &&& object.len() > 0
            &&& object[0] == '{'
            &&& exists|at: int|
                0 <= at && at + object.len() <= trim(content).len() && #[trigger] trim(
                    content,
                ).subrange(at, at + object.len()) == object
            &&& trim(content)[0] != '{' ==> object.last() == '}'
        },
        trim(content).len() > 0 && trim(content)[0] != '{' && !contains(trim(content), "```"@)
            && !contains(trim(content), "```json"@) ==> json_candidate(content) is None,
{
    let trimmed = trim(content);
    if trimmed.len() > 0 && trimmed[0] == '{' {
        assert(trimmed.subrange(0, 0 + trimmed.len() as int) =~= trimmed);
    } else {
        lemma_find_from(trimmed, "```json"@, 0);
        lemma_find_from(trimmed, "```"@, 0);
        let fence = match find_from(trimmed, "```json"@, 0) {
            Some(at) => Some(at),
            None => find_from(trimmed, "```"@, 0),
        };
        if let Some(at) = fence {
            let after = trimmed.skip(at);
            lemma_find_from(after, seq!['{'], 0);
            lemma_rfind(after, '}');
            if let (Some(start), Some(end)) = (
                find_from(after, seq!['{'], 0),
                rfind_char(after, '}'),
            ) {
                if end > start {
                    let object = after.subrange(start, end + 1);
                    assert(after.subrange(start, start + 1)[0] == seq!['{'][0]);
                    assert(trimmed.subrange(at + start, at + start + object.len()) =~= object);
                }
            }
        }
    }
}

proof fn lemma_rfind(s: Seq<char>, c: char)
    ensures
        rfind_char(s, c) matches Some(at) ==> 0 <= at < s.len() && s[at] == c && forall|i: int|
            at < i < s.len() ==> s[i] != c,
        rfind_char(s, c) is None ==> forall|i: int| 0 <= i < s.len() ==> s[i] != c,
    decreases s.len(),
{
    if s.len() > 0 && s.last() != c {
        let init = s.drop_last();
        lemma_rfind(init, c);
        assert forall|i: int| 0 <= i < init.len() implies init[i] == s[i] by {}
        assert forall|i: int|
            (match rfind_char(s, c) {
                Some(at) => at,
                None => -1int,
            }) < i < s.len() implies s[i] != c by {
            if i < init.len() {
                assert(init[i] == s[i]);
            }
        }
    }
}

// ---------------------------------------------------------------------------
// Redaction
// ---------------------------------------------------------------------------
/// A text that holds nothing that looks like a secret is left as it is.
pub proof fn law_harmless_text_is_kept(s: Seq<char>)
    requires
        !contains(s, "-----BEGIN "@) || !contains(s, "-----END "@),
        !contains(s, "sk-"@),
        !contains(s, "AKIA"@),
        !contains(lower(s), "bearer "@),
        !contains(lower(s), "password"@),
        !contains(lower(s), "secret"@),
        !contains(lower(s), "api_key"@),
        !contains(lower(s), "api-key"@),
        !contains(lower(s), "token"@),
    ensures
        text_redacted(s) == (s, false),
{
    reveal_strlit("sk-");
    reveal_strlit("AKIA");
    reveal_strlit("password");
    reveal_strlit("secret");
    reveal_strlit("api_key");
    reveal_strlit("api-key");
    reveal_strlit("token");
    lemma_find_from(s, "-----BEGIN "@, 0);
    lemma_find_from(s, "-----END "@, 0);
    lemma_find_from(s, "sk-"@, 0);
    lemma_find_from(s, "AKIA"@, 0);
    lemma_find_from(lower(s), "bearer "@, 0);
    lemma_find_from(lower(s), "password"@, 0);
    lemma_find_from(lower(s), "secret"@, 0);
    lemma_find_from(lower(s), "api_key"@, 0);
    lemma_find_from(lower(s), "api-key"@, 0);
    lemma_find_from(lower(s), "token"@, 0);
}

proof fn lemma_run_to_end(s: Seq<char>, kind: RunKind, from: int)
    requires
        0 <= from <= s.len(),
        forall|i: int| from <= i < s.len() ==> kind.admits(#[trigger] s[i]),
    ensures
        run_end(s, kind, from) == s.len(),
    decreases s.len() - from,
{
    if from < s.len() {
        lemma_run_to_end(s, kind, from + 1);
    }
}

/// What is assigned to a secret name is taken out, whole.
pub proof fn law_assigned_secrets_are_taken_out(name: Seq<char>, sign: char, value: Seq<char>)
    requires
        name.len() > 0,
        lower(name) == name,
        sign == '=' || sign == ':',
        value.len() > 0,
        forall|i: int|
            0 <= i < value.len() ==> !white_space(#[trigger] value[i]) && value[i] != ',' && value[i]
                != ';' && value[i] != '"',
    ensures
        assignment_redacted(name.push(sign) + value, name, 0) == (
            name.push(sign) + "[REDACTED]"@,
            true,
        ),
{
    let s = name.push(sign) + value;
    let n = name.len() as int;
    assert(lower(s).subrange(0, n) =~= name) by {
        assert forall|i: int| 0 <= i < n implies lower(s)[i] == name[i] by {
            assert(s[i] == name[i]);
            assert(lower(name)[i] == name[i]);
        }
    }
    assert(matches_at(lower(s), name, 0));
    assert(s.skip(n)[0] == sign);
    assert(!white_space('=') && !white_space(':'));
    assert(trim_start(s.skip(n)) == s.skip(n));
    assert(s[n] == sign);
    assert(s.skip(n + 1) =~= value);
    assert(trim_start(s.skip(n + 1)) == s.skip(n + 1));
    assert forall|i: int| n + 1 <= i < s.len() implies RunKind::Value.admits(#[trigger] s[i]) by {
        assert(s[i] == value[i - n - 1]);
    }
    lemma_run_to_end(s, RunKind::Value, n + 1);
    assert(replaced(s, n + 1, s.len() as int, "[REDACTED]"@) =~= name.push(sign) + "[REDACTED]"@);
}

/// A bearer token of more than eight characters is taken out, whole.
pub proof fn law_bearer_tokens_are_taken_out(token: Seq<char>)
    requires
        token.len() > 8,
        forall|i: int| 0 <= i < token.len() ==> !white_space(#[trigger] token[i]),
    ensures
        bearer_redacted("Bearer "@ + token) == ("Bearer [REDACTED]"@, true),
{
    reveal_strlit("Bearer ");
    reveal_strlit("bearer ");
    let s = "Bearer "@ + token;
    assert(lower(s).subrange(0, 7) =~= "bearer "@);
    assert(matches_at(lower(s), "bearer "@, 0));
    assert forall|i: int| 7 <= i < s.len() implies RunKind::Word.admits(#[trigger] s[i]) by {
        assert(s[i] == token[i - 7]);
    }
    lemma_run_to_end(s, RunKind::Word, 7);
    assert(replaced(s, 0, s.len() as int, "Bearer [REDACTED]"@) =~= "Bearer [REDACTED]"@);
}

/// A private key is taken out from the first line that opens one to the first that
/// closes one, whatever stands between them; what stands before it is kept.
pub proof fn law_private_keys_are_taken_out(s: Seq<char>, opens: int, closes: int)
    requires
        matches_at(s, "-----BEGIN "@, opens),
        forall|i: int| 0 <= i < opens ==> !matches_at(s, "-----BEGIN "@, i),
        matches_at(s, "-----END "@, closes),
        forall|i: int| 0 <= i < closes ==> !matches_at(s, "-----END "@, i),
        0 <= opens <= closes,
    ensures
        pem_redacted(s).1,
        pem_redacted(s).0.take(opens) == s.take(opens),
        matches_at(pem_redacted(s).0, "[REDACTED_PRIVATE_KEY]"@, opens),
        pem_redacted(s).0.len() == s.len() - (closes + 5 - opens) + "[REDACTED_PRIVATE_KEY]"@.len(),
{
    lemma_find_from(s, "-----BEGIN "@, 0);
    lemma_find_from(s, "-----END "@, 0);
    reveal_strlit("-----END ");
    let r = pem_redacted(s).0;
    let mark = "[REDACTED_PRIVATE_KEY]"@;
    assert(r.take(opens) =~= s.take(opens));
    assert(r.subrange(opens, opens + mark.len()) =~= mark);
}

/// A document keeps its shape. Under the name of a secret stands the mark that it was
/// taken out, under any other name what is left of what stood there; numbers, truth
/// values and nothing are kept.
pub proof fn law_documents_keep_their_shape(value: JsonView)
    ensures
        match value {
            JsonView::Text(text) => json_redacted(value) == (
                JsonView::Text(text_redacted(text).0),
                text_redacted(text).1,
            ),
            JsonView::Array(items) => json_redacted(value).0 matches JsonView::Array(kept)
                && kept.len() == items.len() && forall|i: int|
                0 <= i < items.len() ==> #[trigger] kept[i] == json_redacted(items[i]).0,
            JsonView::Object(entries) => json_redacted(value).0 matches JsonView::Object(kept)
                && kept.len() == entries.len() && forall|i: int|
                0 <= i < entries.len() ==> (#[trigger] kept[i]).0 == entries[i].0 && kept[i].1 == (
                if lower(entries[i].0) == "password"@ || lower(entries[i].0) == "secret"@ || lower(
                    entries[i].0,
                ) == "token"@ || lower(entries[i].0) == "api_key"@ || lower(entries[i].0)
                    == "apikey"@ || lower(entries[i].0) == "authorization"@ || lower(entries[i].0)
                    == "private_key"@ {
                    JsonView::Text("[REDACTED]"@)
                } else {
                    json_redacted(entries[i].1).0
                }),
            _ => json_redacted(value) == (value, false),
        },
{
    match value {
        JsonView::Array(items) => lemma_items(items),
        JsonView::Object(entries) => lemma_entries(entries),
        _ => {},
    }
}

proof fn lemma_items(items: Seq<JsonView>)
    ensures
        items_redacted(items).0.len() == items.len(),
        forall|i: int|
            0 <= i < items.len() ==> #[trigger] items_redacted(items).0[i] == json_redacted(
                items[i],
            ).0,
    decreases items.len(),
{
    if items.len() > 0 {
        lemma_items(items.drop_last());
    }
}

proof fn lemma_entries(entries: Seq<(Seq<char>, JsonView)>)
    ensures
        entries_redacted(entries).0.len() == entries.len(),
        forall|i: int|
            0 <= i < entries.len() ==> (#[trigger] entries_redacted(entries).0[i]).0 == entries[i].0
                && entries_redacted(entries).0[i].1 == (if sensitive_key(entries[i].0) {
                JsonView::Text("[REDACTED]"@)
            } else {
                json_redacted(entries[i].1).0
            }),
    decreases entries.len(),
{
    if entries.len() > 0 {
        lemma_entries(entries.drop_last());
    }
}

/// The names under which secrets are assigned.
pub open spec fn secret_name(name: Seq<char>) -> bool {
    name == "password"@ || name == "secret"@ || name == "api_key"@ || name == "api-key"@ || name
        == "token"@
}

/// What is put in place of a secret makes no new one: a name that does not occur in a
/// text does not occur where the end of the text was taken out.
proof fn lemma_mark_makes_no_name(head: Seq<char>, value: Seq<char>, name: Seq<char>)
    requires
        secret_name(name),
        !contains(lower(head + value), name),
    ensures
        !contains(lower(head + "[REDACTED]"@), name),
{
    reveal_strlit("password");
    reveal_strlit("secret");
    reveal_strlit("api_key");
    reveal_strlit("api-key");
    reveal_strlit("token");
    reveal_strlit("[REDACTED]");
    let old_text = lower(head + value);
    let text = lower(head + "[REDACTED]"@);
    let n = head.len() as int;
    let tail = seq!['[', 'r', 'e', 'd', 'a', 'c', 't', 'e', 'd', ']'];
    assert forall|k: int| 0 <= k < 10 implies text[n + k] == #[trigger] tail[k] by {
        assert((head + "[REDACTED]"@)[n + k] == "[REDACTED]"@[k]);
    }
    assert forall|i: int| !matches_at(text, name, i) by {
        if matches_at(text, name, i) {
            let found = text.subrange(i, i + name.len());
            assert forall|k: int| 0 <= k < name.len() implies #[trigger] name[k] == text[i + k] by {
                assert(found[k] == text[i + k]);
            }
            if i + name.len() <= n {
                assert(old_text.subrange(i, i + name.len()) =~= found) by {
                    assert forall|j: int| 0 <= j < n implies #[trigger] old_text[j] == text[j] by {
                        assert((head + value)[j] == (head + "[REDACTED]"@)[j]);
                    }
                }
                assert(matches_at(old_text, name, i));
            } else if i <= n {
                assert(name[n - i] == text[n]);
                assert(tail[0] == '[');
                assert(text[n + 0] == '[');
            } else {
                assert(name[0] == text[n + (i - n)]);
                assert(name[1] == text[n + (i - n + 1)]);
                assert(name[0] == tail[i - n]);
                assert(name[1] == tail[i - n + 1]);
            }
        }
    }
}

proof fn lemma_nothing_to_redact(s: Seq<char>, name: Seq<char>)
    requires
        secret_name(name),
        !contains(lower(s), name),
    ensures
        assignment_redacted(s, name, 0) == (s, false),
{
    reveal_strlit("password");
    reveal_strlit("secret");
    reveal_strlit("api_key");
    reveal_strlit("api-key");
    reveal_strlit("token");
    lemma_find_from(lower(s), name, 0);
}

/// The first steps leave a text alone that holds no key and no bearer token.
proof fn lemma_no_keys(s: Seq<char>)
    requires
        !contains(s, "-----BEGIN "@),
        !contains(s, "sk-"@),
        !contains(s, "AKIA"@),
    ensures
        pem_redacted(s) == (s, false),
        keys_redacted(s, "sk-"@, 20, 0) == (s, false),
        keys_redacted(s, "AKIA"@, 16, 0) == (s, false),
{
    reveal_strlit("sk-");
    reveal_strlit("AKIA");
    lemma_find_from(s, "-----BEGIN "@, 0);
    lemma_find_from(s, "sk-"@, 0);
    lemma_find_from(s, "AKIA"@, 0);
}

/// A text that assigns a value to the name of a secret, and holds nothing else that
/// looks like one, is left with the name and the mark that the value was taken out.
pub proof fn law_text_loses_assigned_secrets(name: Seq<char>, sign: char, value: Seq<char>)
    requires
        secret_name(name),
        sign == '=' || sign == ':',
        value.len() > 0,
        forall|i: int|
            0 <= i < value.len() ==> !white_space(#[trigger] value[i]) && value[i] != ',' && value[i]
                != ';' && value[i] != '"',
        !contains(name.push(sign) + value, "-----BEGIN "@),
        !contains(name.push(sign) + value, "sk-"@),
        !contains(name.push(sign) + value, "AKIA"@),
        !contains(lower(name.push(sign) + value), "bearer "@),
        forall|other: Seq<char>| #[trigger]
            secret_name(other) && other != name ==> !contains(
                lower(name.push(sign) + value),
                other,
            ),
    ensures
        text_redacted(name.push(sign) + value) == (name.push(sign) + "[REDACTED]"@, true),
{
    reveal_strlit("password");
    reveal_strlit("secret");
    reveal_strlit("api_key");
    reveal_strlit("api-key");
    reveal_strlit("token");
    assert("password"@.len() == 8 && "secret"@.len() == 6 && "token"@.len() == 5);
    assert("api_key"@.len() == 7 && "api-key"@.len() == 7);
    assert("api_key"@[3] == '_' && "api-key"@[3] == '-');
    let head = name.push(sign);
    let s = head + value;
    let r = head + "[REDACTED]"@;
    assert(lower(name) =~= name);
    lemma_no_keys(s);
    lemma_find_from(lower(s), "bearer "@, 0);
    law_assigned_secrets_are_taken_out(name, sign, value);
    assert forall|other: Seq<char>| #[trigger] secret_name(other) && other != name implies
        assignment_redacted(s, other, 0) == (s, false) && assignment_redacted(r, other, 0) == (
        r,
        false,
    ) by {
        lemma_nothing_to_redact(s, other);
        lemma_mark_makes_no_name(head, value, other);
        lemma_nothing_to_redact(r, other);
    }
    assert(secret_name("password"@) && secret_name("secret"@) && secret_name("api_key"@));
    assert(secret_name("api-key"@) && secret_name("token"@));
}

/// A bearer token is taken out of a text that holds nothing else that looks like a
/// secret.
pub proof fn law_text_loses_bearer_tokens(token: Seq<char>)
    requires
        token.len() > 8,
        forall|i: int| 0 <= i < token.len() ==> !white_space(#[trigger] token[i]),
        !contains("Bearer "@ + token, "-----BEGIN "@),
        !contains("Bearer "@ + token, "sk-"@),
        !contains("Bearer "@ + token, "AKIA"@),
        forall|name: Seq<char>| #[trigger]
            secret_name(name) ==> !contains(lower("Bearer "@ + token), name),
    ensures
        text_redacted("Bearer "@ + token) == ("Bearer [REDACTED]"@, true),
{
    reveal_strlit("Bearer ");
    reveal_strlit("[REDACTED]");
    reveal_strlit("Bearer [REDACTED]");
    let r = "Bearer [REDACTED]"@;
    assert("Bearer "@ + "[REDACTED]"@ =~= r);
    lemma_no_keys("Bearer "@ + token);
    law_bearer_tokens_are_taken_out(token);
    assert forall|name: Seq<char>| #[trigger] secret_name(name) implies assignment_redacted(
        r,
        name,
        0,
    ) == (r, false) by {
        lemma_mark_makes_no_name("Bearer "@, token, name);
        lemma_nothing_to_redact(r, name);
    }
    assert(secret_name("password"@) && secret_name("secret"@) && secret_name("api_key"@));
    assert(secret_name("api-key"@) && secret_name("token"@));
}

/// A text with a private key is always changed.
pub proof fn law_text_loses_private_keys(s: Seq<char>)
    requires
        contains(s, "-----BEGIN "@),
        contains(s, "-----END "@),
    ensures
        text_redacted(s).1,
{
    lemma_find_from(s, "-----BEGIN "@, 0);
    lemma_find_from(s, "-----END "@, 0);
}

} // verus!
