//! What extensions may do, and what is made of their answers, told case by case.
use vstd::prelude::*;
use vstd::utf8::encode_utf8;

use crate::digest::sha256_text;
use crate::error::{ErrorView, OpsCodexError};
use crate::evidence::EvidenceMeta;
use crate::extensions::capability::{
    effect_named, enablement, law_id_gives_its_parts, CapabilityDescriptor, CapabilityEffect,
    CapabilitySource, RecoveryMode,
};
use crate::extensions::custom::{
    allowed_env, custom_entries, describes, fits, is_reported, manifest_error, recovery_of, risk_of,
    tool_error, CustomToolManifest,
};
use crate::extensions::mcp::{
    answer_of, call_error, ceiling_error, checked_url_error, describes_mcp, frame, header_of,
    http_answer, is_answer, is_listed_tool, mcp_entries, mcp_error, request_entries, CallReply,
    HeaderView, HttpReply, McpListedTool, McpSpecView,
};
use crate::extensions::supervisor::{
    kept, passed_on, upper, wait_error, ChildSupervisor, SpawnSpec, Waited,
};
use crate::json::{string_view, JsonView};
use crate::json_law::law_the_first_entry_is_read;
use crate::json_map::map_bytes;
use crate::text::{
    contains, decimal, find_from, is_digit, lemma_decimal_len, lemma_decimal_value, lemma_find_from,
    law_numerals_are_read_back, lower, matches_at, split, starts_with, trim, trim_end, trim_start,
    white_space,
};
use crate::time::Timestamp;
use crate::url_text::UrlView;

verus! {

// ---------------------------------------------------------------------------
// Capabilities
// ---------------------------------------------------------------------------
/// Observing is the mildest effect, then come changes that can be undone, then those
/// that cannot, then effects outside; of two effects the stricter is taken.
pub proof fn law_effects_are_ordered(a: CapabilityEffect, b: Option<CapabilityEffect>)
    ensures
        CapabilityEffect::Observe.strictness() < CapabilityEffect::ChangeReversible.strictness(),
        CapabilityEffect::ChangeReversible.strictness()
            < CapabilityEffect::ChangeIrreversible.strictness(),
        CapabilityEffect::ChangeIrreversible.strictness()
            < CapabilityEffect::ExternalSideEffect.strictness(),
        b is None ==> a.stricter(b) == a,
        b matches Some(other) ==> (a.stricter(b) == a || a.stricter(b) == other) && a.stricter(
            b,
        ).strictness() >= a.strictness() && a.stricter(b).strictness() >= other.strictness(),
{
}

/// A workspace admits an effect exactly where it is no stricter than the strictest that
/// it admits.
pub proof fn law_ceilings_hold(
    id: Seq<char>,
    effect: CapabilityEffect,
    workspace_max: Option<CapabilityEffect>,
)
    ensures
        workspace_max is None ==> ceiling_error(id, effect, workspace_max) is None,
        workspace_max == Some(CapabilityEffect::Observe) ==> (ceiling_error(
            id,
            effect,
            workspace_max,
        ) is None <==> effect is Observe),
        workspace_max == Some(CapabilityEffect::ChangeReversible) ==> (ceiling_error(
            id,
            effect,
            workspace_max,
        ) is None <==> effect is Observe || effect is ChangeReversible),
        workspace_max == Some(CapabilityEffect::ChangeIrreversible) ==> (ceiling_error(
            id,
            effect,
            workspace_max,
        ) is None <==> !(effect is ExternalSideEffect)),
        workspace_max == Some(CapabilityEffect::ExternalSideEffect) ==> ceiling_error(
            id,
            effect,
            workspace_max,
        ) is None,
        ceiling_error(id, effect, workspace_max) matches Some(e) ==> e is Policy,
{
}

/// A capability can be enabled exactly where it has an identifier made of three parts
/// and a name, none of them blank, says how it is recovered unless it is built in, and
/// has a budget.
pub proof fn law_capabilities_are_enabled(
    namespace: Seq<char>,
    tool: Seq<char>,
    version: Seq<char>,
    name: Seq<char>,
    source: CapabilitySource,
    recovery: Option<RecoveryMode>,
    no_budget: bool,
)
    requires
        !namespace.contains('/'),
        !version.contains('@'),
        namespace != "builtin"@ || !tool.contains('/'),
    ensures
        enablement(
            namespace + "/"@ + tool + "@"@ + version,
            name,
            source,
            recovery,
            no_budget,
        ) is None <==> {
            &&& trim(namespace).len() > 0
            &&& trim(tool).len() > 0
            &&& trim(version).len() > 0
            &&& trim(name).len() > 0
            &&& source is Builtin || recovery is Some
            &&& !no_budget
        },
{
    law_id_gives_its_parts(namespace, tool, version);
}

/// A tool that only observes is safe; for any other the user is asked.
pub proof fn law_effects_have_risks(effect: CapabilityEffect)
    ensures
        risk_of(effect) is Safe <==> effect is Observe,
        risk_of(effect) is Ask <==> !(effect is Observe),
{
}

// ---------------------------------------------------------------------------
// Custom tools
// ---------------------------------------------------------------------------
/// A manifest is taken exactly where it lies under a path that leads nowhere else, could
/// be read, and is that of a tool.
pub proof fn law_manifests_are_taken(
    path: Seq<char>,
    read: Result<Result<CustomToolManifest, String>, String>,
)
    ensures
        manifest_error(path, read) is None <==> {
            &&& !path.contains('\0')
            &&& !split(path, '/').contains(".."@)
            &&& read matches Ok(Ok(manifest)) && manifest.api_version@ == "opscodex.dev/v1"@
                && manifest.kind@ == "Tool"@
        },
{
}

/// A custom tool is installed exactly where its command is an absolute path that leads
/// nowhere else and is there, it names an effect and a way to recover, the effect is
/// within the ceiling of the workspace, and it is trusted. It then has at least the
/// effect that it names and that it is given, and carries the hash of its program.
pub proof fn law_custom_tools_are_installed(
    manifest: CustomToolManifest,
    exists: bool,
    trusted_local: bool,
    effect_override: Option<CapabilityEffect>,
    workspace_max: Option<CapabilityEffect>,
    binary: Seq<u8>,
    d: CapabilityDescriptor,
)
    requires
        tool_error(manifest, exists, trusted_local, effect_override, workspace_max) is None,
        describes(
            d,
            manifest,
            effect_named(manifest.spec.effect@)->Ok_0.stricter(effect_override),
            recovery_of(manifest.spec)->Ok_0,
            trusted_local,
            binary,
        ),
    ensures
        exists,
        trusted_local,
        starts_with(manifest.spec.command@, "/"@),
        !manifest.spec.command@.contains('\0'),
        !split(manifest.spec.command@, '/').contains(".."@),
        manifest.spec.recovery is Some,
        d.recovery is Some,
        d.trusted_local,
        d.enabled,
        d.source is Custom,
        d.id@ == "custom/"@ + manifest.metadata.name@ + "@"@ + manifest.metadata.version@,
        d.name@ == "custom/"@ + manifest.metadata.name@,
        d.input_schema == manifest.spec.input_schema,
        d.output_schema == manifest.spec.output_schema,
        string_view(d.provenance.binary_hash) == Some(sha256_text(binary)),
        d.provenance.schema_hash@ == sha256_text(map_bytes(manifest.spec.input_schema@)),
        d.provenance.version@ == manifest.metadata.version@,
        effect_override is None ==> {
            &&& d.effect is Observe <==> manifest.spec.effect@ == "observe"@
            &&& d.effect is ChangeReversible <==> manifest.spec.effect@ == "change_reversible"@
            &&& d.effect is ChangeIrreversible <==> manifest.spec.effect@ == "change_irreversible"@
            &&& d.effect is ExternalSideEffect <==> manifest.spec.effect@
                == "external_side_effect"@
        },
        workspace_max == Some(CapabilityEffect::Observe) ==> d.effect is Observe,
        manifest.spec.timeout_seconds matches Some(n) ==> n > 0 ==> d.timeout_seconds == n,
        manifest.spec.timeout_seconds is None ==> d.timeout_seconds == 10,
        manifest.spec.max_output_bytes matches Some(n) ==> n > 0 ==> d.max_output_bytes == n,
        manifest.spec.max_output_bytes is None ==> d.max_output_bytes == 65536,
        d.timeout_seconds > 0,
        d.max_output_bytes > 0,
{
    reveal_strlit("observe");
    reveal_strlit("change_reversible");
    reveal_strlit("change_irreversible");
    reveal_strlit("external_side_effect");
    assert("observe"@.len() == 7 && "change_reversible"@.len() == 17);
    assert("change_irreversible"@.len() == 19 && "external_side_effect"@.len() == 20);
    reveal_strlit("custom");
    reveal_strlit("/");
    reveal_strlit("custom/");
    assert("custom"@ + "/"@ =~= "custom/"@);
}

/// Of an environment a custom tool is given, in order, what its manifest lists.
pub proof fn law_custom_tools_see_what_is_listed(
    env: Seq<(String, String)>,
    allowlist: Seq<Seq<char>>,
)
    ensures
        allowed_env(env, allowlist) == env.filter(
            |entry: (String, String)| allowlist.contains(entry.0@),
        ),
    decreases env.len(),
{
    reveal(Seq::filter);
    if env.len() > 0 {
        law_custom_tools_see_what_is_listed(env.drop_last(), allowlist);
    }
}

/// What a process is given of an environment is, in order, what does not look like a
/// secret.
pub proof fn law_processes_see_no_secrets(env: Seq<(String, String)>)
    ensures
        passed_on(env) == env.filter(
            |entry: (String, String)|
                !contains(upper(entry.0@), "TOKEN"@) && !contains(upper(entry.0@), "SECRET"@)
                    && !contains(upper(entry.0@), "PASSWORD"@) && !contains(
                    upper(entry.0@),
                    "API_KEY"@,
                ) && upper(entry.0@) != "AWS_SECRET_ACCESS_KEY"@ && upper(entry.0@)
                    != "OPENAI_API_KEY"@,
        ),
    decreases env.len(),
{
    reveal(Seq::filter);
    if env.len() > 0 {
        law_processes_see_no_secrets(env.drop_last());
    }
}

/// An output is taken exactly where it is of the type that its schema names, where it
/// names one.
pub proof fn law_outputs_are_of_their_type(value: JsonView, schema: JsonView)
    ensures
        schema.text_at("type"@) == Some("object"@) ==> (fits(value, schema) <==> value is Object),
        schema.text_at("type"@) == Some("array"@) ==> (fits(value, schema) <==> value is Array),
        schema.text_at("type"@) == Some("string"@) ==> (fits(value, schema) <==> value is Text),
        schema.text_at("type"@) == Some("number"@) ==> (fits(value, schema) <==> value is Number),
        schema.text_at("type"@) == Some("integer"@) ==> (fits(value, schema) <==> value is Number),
        schema.text_at("type"@) == Some("boolean"@) ==> (fits(value, schema) <==> value is Bool),
        schema.text_at("type"@) == Some("null"@) ==> (fits(value, schema) <==> value is Null),
        schema.text_at("type"@) is None ==> fits(value, schema),
{
    reveal_strlit("object");
    reveal_strlit("array");
    reveal_strlit("string");
    reveal_strlit("number");
    reveal_strlit("integer");
    reveal_strlit("boolean");
    reveal_strlit("null");
    assert("object"@.len() == 6 && "object"@[0] == 'o');
    assert("array"@.len() == 5 && "string"@.len() == 6 && "string"@[0] == 's');
    assert("number"@.len() == 6 && "number"@[0] == 'n' && "integer"@.len() == 7);
    assert("integer"@[0] == 'i' && "boolean"@.len() == 7 && "boolean"@[0] == 'b');
    assert("null"@.len() == 4);
}

/// What is told of the result of a custom tool or of one behind a server: the result
/// itself, the tool and its version, and where it came from.
pub proof fn law_extension_results_are_told(
    d: CapabilityDescriptor,
    result: JsonView,
    truncated: bool,
)
    ensures
        ({
            let custom = JsonView::Object(custom_entries(d, result, truncated));
            let remote = JsonView::Object(mcp_entries(d, result));
            &&& custom.get("result"@) == Some(result)
            &&& custom.text_at("source"@) == Some("custom"@)
            &&& custom.text_at("tool"@) == Some(d.name@)
            &&& custom.get("truncated"@) == Some(JsonView::Bool(truncated))
            &&& custom.text_at("version"@) == Some(d.provenance.version@)
            &&& custom.text_at("hash"@) == Some(d.provenance.schema_hash@)
            &&& remote.get("result"@) == Some(result)
            &&& remote.text_at("source"@) == Some("mcp"@)
            &&& remote.text_at("tool"@) == Some(d.name@)
            &&& remote.text_at("version"@) == Some(d.provenance.version@)
            &&& remote.text_at("hash"@) == Some(d.provenance.schema_hash@)
        }),
{
    reveal_strlit("hash");
    reveal_strlit("result");
    reveal_strlit("source");
    reveal_strlit("tool");
    reveal_strlit("truncated");
    reveal_strlit("version");
    assert("hash"@.len() == 4 && "hash"@[0] == 'h' && "tool"@.len() == 4 && "tool"@[0] == 't');
    assert("result"@.len() == 6 && "result"@[0] == 'r' && "source"@.len() == 6);
    assert("source"@[0] == 's' && "truncated"@.len() == 9 && "version"@.len() == 7);
    let custom = custom_entries(d, result, truncated);
    law_the_first_entry_is_read(custom, "hash"@, 0);
    law_the_first_entry_is_read(custom, "result"@, 1);
    law_the_first_entry_is_read(custom, "source"@, 2);
    law_the_first_entry_is_read(custom, "tool"@, 3);
    law_the_first_entry_is_read(custom, "truncated"@, 4);
    law_the_first_entry_is_read(custom, "version"@, 5);
    let remote = mcp_entries(d, result);
    law_the_first_entry_is_read(remote, "hash"@, 0);
    law_the_first_entry_is_read(remote, "result"@, 1);
    law_the_first_entry_is_read(remote, "source"@, 2);
    law_the_first_entry_is_read(remote, "tool"@, 3);
    law_the_first_entry_is_read(remote, "version"@, 4);
}

/// The evidence of an extension names its source, what was asked and when, and says
/// whether something was cut off.
pub proof fn law_extensions_leave_evidence(
    r: EvidenceMeta,
    source: Seq<char>,
    query: Seq<char>,
    summary: Seq<char>,
    truncated: bool,
    now: Timestamp,
)
    requires
        is_reported(r, source, query, summary, truncated, now),
    ensures
        r.source@ == source,
        string_view(r.query) == Some(query),
        string_view(r.query_or_operation) == Some(query),
        r.summary@ == summary,
        r.truncated == truncated,
        r.timestamp == now,
        r.observed_at == Some(now),
        r.evidence_id is None,
        r.artifact_ref is None,
{
}

// ---------------------------------------------------------------------------
// Processes
// ---------------------------------------------------------------------------
/// A process is started exactly where its command is an absolute path that is there and
/// neither it nor the directory that it runs in leads elsewhere.
pub proof fn law_processes_are_started(spec: SpawnSpec, exists: bool)
    ensures
        ChildSupervisor::spawn_error(spec, exists) is None <==> {
            &&& exists
            &&& starts_with(spec.command@, "/"@)
            &&& !spec.command@.contains('\0')
            &&& !split(spec.command@, '/').contains(".."@)
            &&& spec.cwd matches Some(cwd) ==> !cwd@.contains('\0') && !split(cwd@, '/').contains(
                ".."@,
            )
        },
{
}

/// A process did its work exactly where it exited well; a cancelled one is told as
/// cancelled and one that took too long as such.
pub proof fn law_processes_end(waited: Waited)
    ensures
        wait_error(waited) is None <==> (waited matches Waited::Exited { success, .. } && success),
        wait_error(waited) == Some(ErrorView::Cancelled) <==> waited is Cancelled,
        (wait_error(waited) matches Some(e) && e is Timeout) <==> waited is TimedOut,
        waited is Failed ==> (wait_error(waited) matches Some(e) && e is Tool),
{
}

/// A process is started again only after it failed or took too long, while there are
/// starts left, and while nobody has called it off.
pub proof fn law_failed_processes_start_again(
    supervisor: ChildSupervisor,
    attempts: u32,
    error: OpsCodexError,
    cancelled: bool,
)
    ensures
        supervisor.starts_again(attempts, error@, cancelled) <==> (error is Timeout || error is Tool)
            && attempts < supervisor.max_restarts && !cancelled,
{
}

/// Of an output as much is kept as there is room for, from its beginning, and it is
/// told whether anything was cut off.
pub proof fn law_outputs_are_bounded(output: Seq<u8>, max: int)
    requires
        max >= 0,
    ensures
        kept(output, max).0.len() <= max,
        kept(output, max).0.len() <= output.len(),
        forall|i: int| 0 <= i < kept(output, max).0.len() ==> kept(output, max).0[i] == output[i],
        kept(output, max).1 <==> output.len() > max,
        kept(output, max).1 ==> kept(output, max).0.len() == max,
        !kept(output, max).1 ==> kept(output, max).0 == output,
{
}

// ---------------------------------------------------------------------------
// Servers
// ---------------------------------------------------------------------------
/// A request carries its number, its method and its parameters.
pub proof fn law_requests_say_what_is_asked(id: u64, method: Seq<char>, params: JsonView)
    ensures
        ({
            let request = JsonView::Object(request_entries(id, method, params));
            &&& request.u64_at("id"@) == Some(id)
            &&& request.text_at("jsonrpc"@) == Some("2.0"@)
            &&& request.text_at("method"@) == Some(method)
            &&& request.get("params"@) == Some(params)
        }),
{
    reveal_strlit("id");
    reveal_strlit("jsonrpc");
    reveal_strlit("method");
    reveal_strlit("params");
    assert("id"@.len() == 2 && "jsonrpc"@.len() == 7 && "method"@.len() == 6);
    assert("params"@.len() == 6 && "params"@[0] == 'p' && "method"@[0] == 'm');
    let entries = request_entries(id, method, params);
    law_the_first_entry_is_read(entries, "id"@, 0);
    law_the_first_entry_is_read(entries, "jsonrpc"@, 1);
    law_the_first_entry_is_read(entries, "method"@, 2);
    law_the_first_entry_is_read(entries, "params"@, 3);
}

/// A response answers a request exactly where it carries its number. It fails where it
/// carries an error, and otherwise gives its result.
pub proof fn law_responses_answer_their_request(
    id: u64,
    response: JsonView,
    n: u64,
    label: Seq<char>,
)
    ensures
        response.u64_at("id"@) == Some(n) ==> (is_answer(id, response) <==> n == id),
        response.get("id"@) is None ==> !is_answer(id, response),
        response.text_at("id"@) is Some ==> !is_answer(id, response),
        answer_of(label, response) is Err <==> response.get("error"@) is Some,
        response.get("error"@) is None ==> (response.get("result"@) matches Some(result)
            ==> answer_of(label, response) == Ok::<JsonView, ErrorView>(result)),
        answer_of(label, response) matches Err(e) ==> e is Tool,
{
}

/// What a call over HTTP gives: an answer only where one came and is no error.
pub proof fn law_http_replies_are_answers(reply: HttpReply)
    ensures
        http_answer(reply) is Ok <==> (reply matches HttpReply::Payload(payload) && payload@.get(
            "error"@,
        ) is None),
        reply is Cancelled ==> http_answer(reply) == Err::<JsonView, ErrorView>(
            ErrorView::Cancelled,
        ),
        reply is TimedOut ==> http_answer(reply)->Err_0 is Timeout,
        reply is Failed ==> http_answer(reply)->Err_0 is Tool,
        reply is Undecodable ==> http_answer(reply)->Err_0 is Protocol,
{
}

/// A call succeeds exactly where an answer came.
pub proof fn law_calls_succeed_with_an_answer(reply: CallReply)
    ensures
        call_error(reply) is None <==> (reply matches CallReply::Answered(answer) && answer is Ok),
        reply is Cancelled ==> call_error(reply) == Some(ErrorView::Cancelled),
        reply is TimedOut ==> (call_error(reply) matches Some(e) && e is Timeout),
{
}

/// A tool that a server lists is taken by its name, with its own schema where it has
/// one.
pub proof fn law_listed_tools_are_taken(tool: McpListedTool, item: JsonView)
    requires
        is_listed_tool(tool, item),
    ensures
        item.text_at("name"@) == Some(tool.name@),
        item.text_at("description"@) matches Some(text) ==> tool.description@ == text,
        item.get("inputSchema"@) matches Some(schema) ==> tool.input_schema@ == schema,
        item.get("inputSchema"@) is None ==> tool.input_schema@.text_at("type"@) == Some(
            "object"@,
        ),
{
    if item.get("inputSchema"@) is None {
        law_the_first_entry_is_read(tool.input_schema@->Object_0, "type"@, 0);
    }
}

/// A tool behind a server is installed with the effect and the way to recover that it
/// is given, within the ceiling of the workspace, under the names of the server and of
/// the tool.
pub proof fn law_remote_tools_are_installed(
    spec: McpSpecView,
    listed: McpListedTool,
    d: CapabilityDescriptor,
)
    requires
        mcp_error(spec, listed.name@) is None,
        describes_mcp(d, spec, listed),
    ensures
        d.source is Mcp,
        d.enabled,
        d.name@ == "mcp/"@ + (spec.server_id + "/"@ + listed.name@),
        d.id@ == "mcp"@ + "/"@ + (spec.server_id + "/"@ + listed.name@) + "@"@ + spec.version,
        d.effect == spec.effect,
        d.recovery == Some(spec.recovery),
        d.trusted_local == spec.trusted_local,
        d.input_schema == listed.input_schema,
        d.provenance.schema_hash@ == sha256_text(map_bytes(listed.input_schema@)),
        d.provenance.version@ == spec.version,
        string_view(d.provenance.origin) == Some(spec.origin),
        d.timeout_seconds == 30,
        d.max_output_bytes == 65536,
        spec.workspace_max == Some(CapabilityEffect::Observe) ==> d.effect is Observe,
        spec.workspace_max == Some(CapabilityEffect::ChangeReversible) ==> d.effect is Observe
            || d.effect is ChangeReversible,
{
}

/// An endpoint is taken exactly where it is reached over TLS or is this machine, carries
/// no credentials, and is listed by its host, whatever the case of the letters.
pub proof fn law_endpoints_are_listed(url: UrlView, allowlist: Seq<Seq<char>>)
    requires
        url.host is Some,
    ensures
        checked_url_error(url, allowlist) is None <==> {
            &&& url.scheme == "https"@ || url.host == Some("127.0.0.1"@) || url.host == Some(
                "localhost"@,
            ) || url.host == Some("::1"@)
            &&& url.username.len() == 0
            &&& !url.has_password
            &&& exists|i: int|
                0 <= i < allowlist.len() && lower(#[trigger] allowlist[i]) == lower(url.host->0)
        },
        checked_url_error(url, allowlist) matches Some(e) ==> e is Policy,
{
}

proof fn lemma_trim(s: Seq<char>)
    requires
        s.len() > 0,
        !white_space(s[0]),
        !white_space(s.last()),
    ensures
        trim(s) == s,
{
}

/// The header of a message gives the length of the message, and a blank line ends the
/// headers. So what is read behind the headers of a frame is the message that was
/// framed.
pub proof fn law_frames_are_read_back(message: JsonView)
    requires
        map_bytes(message).len() <= usize::MAX,
    ensures
        frame(message) == encode_utf8(
            "Content-Length: "@ + decimal(map_bytes(message).len()) + "\r\n\r\n"@,
        ) + map_bytes(message),
        header_of("Content-Length: "@ + decimal(map_bytes(message).len())) == HeaderView::Length(
            map_bytes(message).len() as usize,
        ),
        header_of(Seq::empty()) is End,
{
    let n = map_bytes(message).len();
    let number = decimal(n);
    let line = "Content-Length: "@ + number;
    reveal_strlit("Content-Length: ");
    reveal_strlit("content-length");
    lemma_decimal_value(n);
    lemma_decimal_len(n);
    let last = number.last();
    assert(is_digit(last));
    assert(is_digit(number[0]));
    assert(!white_space(last));
    assert(line.last() == last);
    assert(line[0] == 'C');
    lemma_trim(line);
    assert(line[14] == ':');
    assert(line.subrange(14, 15) =~= seq![':']);
    assert(matches_at(line, seq![':'], 14));
    lemma_find_from(line, seq![':'], 0);
    assert forall|i: int| 0 <= i < 14 implies !matches_at(line, seq![':'], i) by {
        if matches_at(line, seq![':'], i) {
            assert(line.subrange(i, i + 1)[0] == seq![':'][0]);
            assert(line[i] == ':');
        }
    }
    assert(find_from(line, seq![':'], 0) == Some(14int));
    assert(lower(line.take(14)) =~= "content-length"@);
    let rest = line.skip(15);
    assert(rest[0] == ' ');
    assert(rest.skip(1) =~= number);
    assert(trim_start(number) == number);
    assert(trim_start(rest) == trim_start(rest.skip(1)));
    assert(trim_end(number) == number);
    law_numerals_are_read_back(n as u64, usize::MAX as u64);
    assert(trim(Seq::<char>::empty()) =~= Seq::<char>::empty());
}

} // verus!
