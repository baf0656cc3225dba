//! Tools of servers that speak the Model Context Protocol: messages, answers,
//! listings, and what may be enabled.
use vstd::prelude::*;
use vstd::utf8::encode_utf8;

use crate::digest::sha256_text;
use crate::error::{ErrorView, OpsCodexError, OpsResult};
use crate::evidence::{EvidenceMeta, Sensitivity};
use crate::extensions::capability::{
    capability_id, enablement, hash_schema, id_text, law_strictest_unique, lemma_stricter_of_two,
    CapabilityDescriptor, CapabilityEffect, CapabilitySource, Provenance, RecoveryMode,
};
use crate::extensions::custom::{effect_risk, is_reported, risk_of};
use crate::json::{
    entries_view, items_view, lemma_items_view, push_entry, string_view, Json, JsonEntry,
    JsonNumber, JsonView, NumberView,
};
use crate::json_map::{map_bytes, map_text};
use crate::json_read::{json_document, json_of_bytes, read_json, read_json_bytes};
use crate::runbook::{is_service_named, names_service};
use crate::text::{
    chars_of, decimal, decimal_of, find_chars, find_from, has_prefix, lower, lower_str,
    number_named, parse_number, same, starts_with, substring, trim, trim_str, views,
};
use crate::time::Timestamp;
use crate::tools::{ToolOutput, ToolRisk};
use crate::url_text::{
    host_or_empty, is_loopback_name, loopback_name, parse_url, url_of, UrlParts, UrlView,
};

verus! {

pub const MCP_TIMEOUT_SECONDS: u64 = 30;

pub const MCP_OUTPUT_BYTES: usize = 65536;

// ---------------------------------------------------------------------------
// Messages
// ---------------------------------------------------------------------------
pub open spec fn request_entries(id: u64, method: Seq<char>, params: JsonView) -> Seq<
    (Seq<char>, JsonView),
> {
    seq![
        ("id"@, JsonView::Number(NumberView::PosInt(id))),
        ("jsonrpc"@, JsonView::Text("2.0"@)),
        ("method"@, JsonView::Text(method)),
        ("params"@, params),
    ]
}

pub open spec fn notification_entries(method: Seq<char>, params: JsonView) -> Seq<
    (Seq<char>, JsonView),
> {
    seq![
        ("jsonrpc"@, JsonView::Text("2.0"@)),
        ("method"@, JsonView::Text(method)),
        ("params"@, params),
    ]
}

/// A request.
pub fn request_message(id: u64, method: &str, params: Json) -> (r: Json)
    ensures
        r@ == JsonView::Object(request_entries(id, method@, params@)),
{
    let ghost given = params@;
    let mut entries: Vec<JsonEntry> = Vec::new();
    push_entry(&mut entries, "id", Json::number(id));
    push_entry(&mut entries, "jsonrpc", Json::text("2.0"));
    push_entry(&mut entries, "method", Json::text(method));
    push_entry(&mut entries, "params", params);
    assert(entries_view(entries@) =~= request_entries(id, method@, given));
    Json::Object(entries)
}

/// A message that is not answered.
pub fn notification_message(method: &str, params: Json) -> (r: Json)
    ensures
        r@ == JsonView::Object(notification_entries(method@, params@)),
{
    let ghost given = params@;
    let mut entries: Vec<JsonEntry> = Vec::new();
    push_entry(&mut entries, "jsonrpc", Json::text("2.0"));
    push_entry(&mut entries, "method", Json::text(method));
    push_entry(&mut entries, "params", params);
    assert(entries_view(entries@) =~= notification_entries(method@, given));
    Json::Object(entries)
}

pub open spec fn client_entries() -> Seq<(Seq<char>, JsonView)> {
    seq![("name"@, JsonView::Text("opscodex"@)), ("version"@, JsonView::Text("0.1.0"@))]
}

pub open spec fn initialize_entries() -> Seq<(Seq<char>, JsonView)> {
    seq![
        ("capabilities"@, JsonView::Object(Seq::empty())),
        ("clientInfo"@, JsonView::Object(client_entries())),
        ("protocolVersion"@, JsonView::Text("2024-11-05"@)),
    ]
}

/// What a client says of itself to begin with.
pub fn initialize_params() -> (r: Json)
    ensures
        r@ == JsonView::Object(initialize_entries()),
{
    let mut client: Vec<JsonEntry> = Vec::new();
    push_entry(&mut client, "name", Json::text("opscodex"));
    push_entry(&mut client, "version", Json::text("0.1.0"));
    assert(entries_view(client@) =~= client_entries());
    let mut entries: Vec<JsonEntry> = Vec::new();
    let nothing = Json::Object(Vec::new());
    assert(nothing@ == JsonView::Object(Seq::empty()));
    push_entry(&mut entries, "capabilities", nothing);
    push_entry(&mut entries, "clientInfo", Json::Object(client));
    push_entry(&mut entries, "protocolVersion", Json::text("2024-11-05"));
    assert(entries_view(entries@) =~= initialize_entries());
    Json::Object(entries)
}

pub open spec fn call_entries(name: Seq<char>, arguments: JsonView) -> Seq<(Seq<char>, JsonView)> {
    seq![("arguments"@, arguments), ("name"@, JsonView::Text(name))]
}

/// What a server is told to call a tool.
pub fn call_params(name: &str, arguments: Json) -> (r: Json)
    ensures
        r@ == JsonView::Object(call_entries(name@, arguments@)),
{
    let ghost given = arguments@;
    let mut entries: Vec<JsonEntry> = Vec::new();
    push_entry(&mut entries, "arguments", arguments);
    push_entry(&mut entries, "name", Json::text(name));
    assert(entries_view(entries@) =~= call_entries(name@, given));
    Json::Object(entries)
}

/// The bytes in which a message is sent: how long it is, then the message.
pub open spec fn frame(message: JsonView) -> Seq<u8> {
    encode_utf8("Content-Length: "@ + decimal(map_bytes(message).len()) + "\r\n\r\n"@) + map_bytes(
        message,
    )
}

pub fn frame_message(message: &Json) -> (r: Vec<u8>)
    ensures
        r@ == frame(message@),
{
    let mut body = message.to_map_bytes();
    let mut header = "Content-Length: ".to_owned();
    header.append(decimal_of(body.len() as u64).as_str());
    header.append("\r\n\r\n");
    let mut r = header.as_str().as_bytes_vec();
    r.append(&mut body);
    assert(r@ =~= frame(message@));
    r
}

// ---------------------------------------------------------------------------
// Reading
// ---------------------------------------------------------------------------
/// What a line before a message says.
pub enum HeaderView {
    End,
    Length(usize),
    BadLength,
    Ignored,
    Document(Seq<char>),
}

/// What a line before a message says: an empty one ends the header, one with a
/// colon names a field, and one that begins with a brace is a message itself.
pub open spec fn header_of(line: Seq<char>) -> HeaderView {
    let trimmed = trim(line);
    if trimmed.len() == 0 {
        HeaderView::End
    } else {
        match find_from(trimmed, seq![':'], 0) {
            Some(i) => if lower(trimmed.take(i)) == "content-length"@ {
                match number_named(trim(trimmed.skip(i + 1)), usize::MAX as u64) {
                    Some(n) => HeaderView::Length(n as usize),
                    None => HeaderView::BadLength,
                }
            } else {
                HeaderView::Ignored
            },
            None => if starts_with(trimmed, "{"@) {
                HeaderView::Document(trimmed)
            } else {
                HeaderView::Ignored
            },
        }
    }
}

/// What is to be read next.
#[derive(Debug)]
pub enum Reading {
    /// Another line.
    Line,
    /// A message of so many bytes.
    Body(usize),
    /// Nothing; this is the message.
    Document(String),
}

/// The header of a message, as far as it was read.
#[derive(Debug)]
pub struct HeaderReader {
    pub length: Option<usize>,
}

impl HeaderReader {
    pub fn new() -> (r: Self)
        ensures
            r.length is None,
    {
        HeaderReader { length: None }
    }

    /// Takes the next line; there is none where the server has closed its output.
    pub fn accept(&mut self, line: Option<&str>) -> (r: OpsResult<Reading>)
        ensures
            match line {
                None => final(self).length == old(self).length && (r matches Err(e) && e@
                    == ErrorView::Tool("MCP server closed stdout"@)),
                Some(line) => match header_of(line@) {
                    HeaderView::End => final(self).length == old(self).length && match old(
                        self,
                    ).length {
                        Some(n) => r == Ok::<Reading, OpsCodexError>(Reading::Body(n)),
                        None => r matches Err(e) && e@ == ErrorView::Protocol(
                            "MCP response is missing Content-Length"@,
                        ),
                    },
                    HeaderView::Length(n) => final(self).length == Some(n) && r == Ok::<
                        Reading,
                        OpsCodexError,
                    >(Reading::Line),
                    HeaderView::BadLength => final(self).length == old(self).length && (r matches Err(
                        e,
                    ) && e@ == ErrorView::Protocol("invalid MCP Content-Length"@)),
                    HeaderView::Ignored => final(self).length == old(self).length && r == Ok::<
                        Reading,
                        OpsCodexError,
                    >(Reading::Line),
                    HeaderView::Document(text) => final(self).length == old(self).length && (
                    r matches Ok(Reading::Document(t)) && t@ == text),
                },
            },
    {
        let line = match line {
            Some(line) => line,
            None => return Err(OpsCodexError::Tool("MCP server closed stdout".to_owned())),
        };
        let trimmed = trim_str(line);
        if trimmed.as_str().is_empty() {
            return match self.length {
                Some(n) => Ok(Reading::Body(n)),
                None => Err(
                    OpsCodexError::Protocol("MCP response is missing Content-Length".to_owned()),
                ),
            };
        }
        let chars = chars_of(trimmed.as_str());
        let mut colon: Vec<char> = Vec::new();
        colon.push(':');
        assert(colon@ =~= seq![':']);
        match find_chars(&chars, &colon, 0) {
            Some(i) => {
                proof {
                    crate::text::lemma_find_from(chars@, colon@, 0);
                }
                let n: usize = chars.len();
                assert(i < n);
                let name = substring(&chars, 0, i);
                assert(name@ =~= trimmed@.take(i as int));
                if same(lower_str(name.as_str()).as_str(), "content-length") {
                    let rest = substring(&chars, i + 1, n);
                    assert(rest@ =~= trimmed@.skip(i + 1));
                    let given = trim_str(rest.as_str());
                    match parse_number(given.as_str(), usize::MAX as u64) {
                        Some(n) => {
                            self.length = Some(n as usize);
                            Ok(Reading::Line)
                        },
                        None => Err(OpsCodexError::Protocol("invalid MCP Content-Length".to_owned())),
                    }
                } else {
                    Ok(Reading::Line)
                }
            },
            None => {
                if has_prefix(trimmed.as_str(), "{") {
                    Ok(Reading::Document(trimmed))
                } else {
                    Ok(Reading::Line)
                }
            },
        }
    }
}

/// The message that was read, or what is wrong with it.
pub open spec fn message_of(read: Result<JsonView, Seq<char>>) -> Result<JsonView, ErrorView> {
    match read {
        Ok(message) => Ok(message),
        Err(e) => Err(ErrorView::Protocol("invalid MCP JSON-RPC: "@ + e)),
    }
}

/// Takes a message that was read.
pub fn check_message(read: Result<Json, String>) -> (r: OpsResult<Json>)
    ensures
        match read {
            Ok(message) => r == Ok::<Json, OpsCodexError>(message),
            Err(error) => r matches Err(e) && message_of(Err(error@)) == Err::<
                JsonView,
                ErrorView,
            >(e@),
        },
{
    match read {
        Ok(message) => Ok(message),
        Err(error) => {
            let mut text = "invalid MCP JSON-RPC: ".to_owned();
            text.append(error.as_str());
            Err(OpsCodexError::Protocol(text))
        },
    }
}

/// Reads a message that is a line.
pub fn read_line_message(text: &str) -> (r: OpsResult<Json>)
    ensures
        match r {
            Ok(message) => message_of(json_document(text@)) == Ok::<JsonView, ErrorView>(message@),
            Err(e) => message_of(json_document(text@)) == Err::<JsonView, ErrorView>(e@),
        },
{
    check_message(read_json(text))
}

/// Reads a message that is a body.
pub fn read_body_message(body: &[u8]) -> (r: OpsResult<Json>)
    ensures
        match r {
            Ok(message) => message_of(json_of_bytes(body@)) == Ok::<JsonView, ErrorView>(message@),
            Err(e) => message_of(json_of_bytes(body@)) == Err::<JsonView, ErrorView>(e@),
        },
{
    check_message(read_json_bytes(body))
}

// ---------------------------------------------------------------------------
// Answers
// ---------------------------------------------------------------------------
/// The number as a signed one of the same bits.
pub open spec fn wrapped(id: u64) -> int {
    if id <= i64::MAX {
        id as int
    } else {
        id - 0x1_0000_0000_0000_0000
    }
}

/// A response answers the request with this number.
pub open spec fn is_answer(id: u64, response: JsonView) -> bool {
    match response.get("id"@) {
        Some(JsonView::Number(NumberView::PosInt(n))) => n == id || (n <= i64::MAX && n == wrapped(
            id,
        )),
        Some(JsonView::Number(NumberView::NegInt(n))) => n == wrapped(id),
        _ => false,
    }
}

/// What a response says of a request: its error under a label, or its result.
pub open spec fn answer_of(label: Seq<char>, response: JsonView) -> Result<JsonView, ErrorView> {
    match response.get("error"@) {
        Some(error) => Err(ErrorView::Tool(label + map_text(error))),
        None => Ok(
            match response.get("result"@) {
                Some(result) => result,
                None => JsonView::Null,
            },
        ),
    }
}

/// `r` is what a response says.
pub open spec fn is_answered(r: OpsResult<Json>, label: Seq<char>, response: JsonView) -> bool {
    match r {
        Ok(value) => answer_of(label, response) == Ok::<JsonView, ErrorView>(value@),
        Err(e) => answer_of(label, response) == Err::<JsonView, ErrorView>(e@),
    }
}

fn read_answer(label: &str, response: &Json) -> (r: OpsResult<Json>)
    ensures
        is_answered(r, label@, response@),
{
    if let Some(error) = response.get("error") {
        let mut message = label.to_owned();
        message.append(error.to_map_text().as_str());
        return Err(OpsCodexError::Tool(message));
    }
    match response.get("result") {
        Some(result) => Ok(result.clone()),
        None => Ok(Json::Null),
    }
}

/// A conversation with a server.
#[derive(Debug)]
pub struct McpSession {
    pub next_id: u64,
}

impl McpSession {
    pub fn new() -> (r: Self)
        ensures
            r.next_id == 1,
    {
        McpSession { next_id: 1 }
    }

    /// The next request, and the number under which it is answered.
    pub fn request(&mut self, method: &str, params: Json) -> (r: (u64, Json))
        requires
            old(self).next_id < u64::MAX,
        ensures
            r.0 == old(self).next_id,
            final(self).next_id == old(self).next_id + 1,
            r.1@ == JsonView::Object(request_entries(r.0, method@, params@)),
    {
        let id = self.next_id;
        self.next_id = id + 1;
        (id, request_message(id, method, params))
    }

    /// What a response says of the request with this number; nothing where it
    /// answers another one.
    pub fn answer(id: u64, response: &Json) -> (r: Option<OpsResult<Json>>)
        ensures
            match r {
                Some(answer) => is_answer(id, response@) && is_answered(
                    answer,
                    "MCP error: "@,
                    response@,
                ),
                None => !is_answer(id, response@),
            },
    {
        let signed: i64 = if id <= i64::MAX as u64 {
            id as i64
        } else {
            -((u64::MAX - id) as i64) - 1
        };
        let ours = match response.get("id") {
            Some(Json::Number(JsonNumber::PosInt(n))) => *n == id,
            Some(Json::Number(JsonNumber::NegInt(n))) => *n == signed,
            _ => false,
        };
        if ours {
            Some(read_answer("MCP error: ", response))
        } else {
            None
        }
    }
}

/// A response answers one request alone.
pub proof fn law_answers_belong_to_one_request(a: u64, b: u64, response: JsonView)
    requires
        is_answer(a, response),
        is_answer(b, response),
    ensures
        a == b,
{
}

/// How a request over HTTP ended: without an answer, with one that could not be
/// decoded, or with a document.
#[derive(Debug)]
pub enum HttpReply {
    Cancelled,
    TimedOut,
    Failed(String),
    Undecodable(String),
    Payload(Json),
}

/// What the body of an answer over HTTP holds. Of a body that holds no document, no
/// more is told.
pub fn http_payload(body: &[u8]) -> (r: HttpReply)
    ensures
        match json_of_bytes(body@) {
            Ok(payload) => r matches HttpReply::Payload(p) && p@ == payload,
            Err(_) => r matches HttpReply::Undecodable(e) && e@ == "error decoding response body"@,
        },
{
    match read_json_bytes(body) {
        Ok(payload) => HttpReply::Payload(payload),
        Err(_) => HttpReply::Undecodable("error decoding response body".to_owned()),
    }
}

/// How long a request over HTTP may take, in seconds.
pub fn http_timeout(timeout_seconds: u64) -> (r: u64)
    ensures
        r == (if timeout_seconds == 0 {
            1
        } else {
            timeout_seconds
        }),
{
    if timeout_seconds == 0 {
        1
    } else {
        timeout_seconds
    }
}

pub open spec fn http_answer(reply: HttpReply) -> Result<JsonView, ErrorView> {
    match reply {
        HttpReply::Cancelled => Err(ErrorView::Cancelled),
        HttpReply::TimedOut => Err(ErrorView::Timeout("MCP HTTP timed out"@)),
        HttpReply::Failed(e) => Err(ErrorView::Tool("MCP HTTP failed: "@ + e@)),
        HttpReply::Undecodable(e) => Err(ErrorView::Protocol("invalid MCP HTTP JSON: "@ + e@)),
        HttpReply::Payload(payload) => answer_of("MCP HTTP error: "@, payload@),
    }
}

/// What a server says over HTTP.
pub fn mcp_http_call(reply: HttpReply) -> (r: OpsResult<Json>)
    ensures
        match r {
            Ok(value) => http_answer(reply) == Ok::<JsonView, ErrorView>(value@),
            Err(e) => http_answer(reply) == Err::<JsonView, ErrorView>(e@),
        },
{
    match reply {
        HttpReply::Cancelled => Err(OpsCodexError::Cancelled),
        HttpReply::TimedOut => Err(OpsCodexError::Timeout("MCP HTTP timed out".to_owned())),
        HttpReply::Failed(e) => {
            let mut message = "MCP HTTP failed: ".to_owned();
            message.append(e.as_str());
            Err(OpsCodexError::Tool(message))
        },
        HttpReply::Undecodable(e) => {
            let mut message = "invalid MCP HTTP JSON: ".to_owned();
            message.append(e.as_str());
            Err(OpsCodexError::Protocol(message))
        },
        HttpReply::Payload(payload) => read_answer("MCP HTTP error: ", &payload),
    }
}

/// Whether a server has answered the first request as it should.
pub fn check_initialized(result: &Json) -> (r: OpsResult<()>)
    ensures
        match r {
            Ok(_) => result@.text_at("protocolVersion"@) is Some,
            Err(e) => result@.text_at("protocolVersion"@) is None && e@ == ErrorView::Protocol(
                "MCP initialize did not return a protocolVersion"@,
            ),
        },
{
    if result.str_at("protocolVersion").is_none() {
        return Err(
            OpsCodexError::Protocol("MCP initialize did not return a protocolVersion".to_owned()),
        );
    }
    Ok(())
}

/// Whether a server has answered the first request over HTTP as it should.
pub fn mcp_http_initialize(reply: HttpReply) -> (r: OpsResult<()>)
    ensures
        match http_answer(reply) {
            Err(error) => r matches Err(e) && e@ == error,
            Ok(result) => if result.text_at("protocolVersion"@) is Some {
                r is Ok
            } else {
                r matches Err(e) && e@ == ErrorView::Protocol(
                    "MCP HTTP initialize did not return a protocolVersion"@,
                )
            },
        },
{
    let result = match mcp_http_call(reply) {
        Ok(result) => result,
        Err(e) => return Err(e),
    };
    if result.str_at("protocolVersion").is_none() {
        return Err(
            OpsCodexError::Protocol(
                "MCP HTTP initialize did not return a protocolVersion".to_owned(),
            ),
        );
    }
    Ok(())
}

// ---------------------------------------------------------------------------
// Listings
// ---------------------------------------------------------------------------
#[derive(Debug)]
pub struct McpListedTool {
    pub name: String,
    pub description: String,
    pub input_schema: Json,
}

/// The tools that a listing holds.
pub open spec fn tools_of(result: JsonView) -> Seq<JsonView> {
    match result.get("tools"@) {
        Some(JsonView::Array(items)) => items,
        _ => Seq::empty(),
    }
}

pub open spec fn any_object() -> Seq<(Seq<char>, JsonView)> {
    seq![("type"@, JsonView::Text("object"@))]
}

/// The tool is the one that an item of a listing describes.
pub open spec fn is_listed_tool(tool: McpListedTool, item: JsonView) -> bool {
    &&& item.text_at("name"@) == Some(tool.name@)
    &&& tool.description@ == (match item.text_at("description"@) {
        Some(text) => text,
        None => "MCP tool"@,
    })
    &&& tool.input_schema@ == (match item.get("inputSchema"@) {
        Some(schema) => schema,
        None => JsonView::Object(any_object()),
    })
}

fn read_listed(item: &Json) -> (r: OpsResult<McpListedTool>)
    ensures
        match r {
            Ok(tool) => is_listed_tool(tool, item@),
            Err(e) => item@.text_at("name"@) is None && e@ == ErrorView::Protocol(
                "MCP tool is missing a name"@,
            ),
        },
{
    let name = match item.str_at("name") {
        Some(name) => name.to_owned(),
        None => return Err(OpsCodexError::Protocol("MCP tool is missing a name".to_owned())),
    };
    let description = match item.str_at("description") {
        Some(text) => text.to_owned(),
        None => "MCP tool".to_owned(),
    };
    let input_schema = match item.get("inputSchema") {
        Some(schema) => schema.clone(),
        None => {
            let mut entries: Vec<JsonEntry> = Vec::new();
            push_entry(&mut entries, "type", Json::text("object"));
            assert(entries_view(entries@) =~= any_object());
            Json::Object(entries)
        },
    };
    Ok(McpListedTool { name, description, input_schema })
}

/// Some tool of the listing has no name.
pub open spec fn lacks_name(items: Seq<JsonView>) -> bool {
    exists|i: int| 0 <= i < items.len() && (#[trigger] items[i]).text_at("name"@) is None
}

/// Reads a listing.
pub fn parse_listed_tools(result: &Json) -> (r: OpsResult<Vec<McpListedTool>>)
    ensures
        match r {
            Ok(tools) => {
                &&& !lacks_name(tools_of(result@))
                &&& tools@.len() == tools_of(result@).len()
                &&& forall|i: int|
                    0 <= i < tools@.len() ==> is_listed_tool(
                        #[trigger] tools@[i],
                        tools_of(result@)[i],
                    )
            },
            Err(e) => lacks_name(tools_of(result@)) && e@ == ErrorView::Protocol(
                "MCP tool is missing a name"@,
            ),
        },
{
    let mut tools: Vec<McpListedTool> = Vec::new();
    let ghost all = tools_of(result@);
    match result.get("tools") {
        Some(Json::Array(items)) => {
            proof {
                lemma_items_view(items@);
            }
            let mut i: usize = 0;
            while i < items.len()
                invariant
                    i <= items@.len(),
                    all == items_view(items@),
                    all == tools_of(result@),
                    all.len() == items@.len(),
                    forall|k: int| 0 <= k < all.len() ==> #[trigger] all[k] == items@[k]@,
                    tools@.len() == i,
                    forall|k: int| 0 <= k < i ==> is_listed_tool(#[trigger] tools@[k], all[k]),
                    forall|k: int| 0 <= k < i ==> (#[trigger] all[k]).text_at("name"@) is Some,
                decreases items@.len() - i,
            {
                assert(all[i as int] == items@[i as int]@);
                match read_listed(&items[i]) {
                    Ok(tool) => tools.push(tool),
                    Err(e) => return Err(e),
                }
                i += 1;
            }
            Ok(tools)
        },
        _ => Ok(tools),
    }
}

// ---------------------------------------------------------------------------
// What may be enabled
// ---------------------------------------------------------------------------
/// What is wrong with an effect in a workspace.
pub open spec fn ceiling_error(
    id: Seq<char>,
    effect: CapabilityEffect,
    workspace_max: Option<CapabilityEffect>,
) -> Option<ErrorView> {
    match workspace_max {
        Some(max) => if effect.strictness() > max.strictness() {
            Some(
                ErrorView::Policy(
                    "capability `"@ + id + "` effect `"@ + effect.name()
                        + "` exceeds workspace max `"@ + max.name() + "`"@,
                ),
            )
        } else {
            None
        },
        None => None,
    }
}

pub fn enforce_workspace_ceiling(
    descriptor: &CapabilityDescriptor,
    workspace_max: Option<CapabilityEffect>,
) -> (r: OpsResult<()>)
    ensures
        match r {
            Ok(_) => ceiling_error(descriptor.id@, descriptor.effect, workspace_max) is None,
            Err(e) => ceiling_error(descriptor.id@, descriptor.effect, workspace_max) == Some(e@),
        },
{
    if let Some(max) = workspace_max {
        if descriptor.effect.rank() > max.rank() {
            let mut message = "capability `".to_owned();
            message.append(descriptor.id.as_str());
            message.append("` effect `");
            message.append(descriptor.effect.as_str());
            message.append("` exceeds workspace max `");
            message.append(max.as_str());
            message.append("`");
            return Err(OpsCodexError::Policy(message));
        }
    }
    Ok(())
}

/// What the configuration says of a server.
#[derive(Debug)]
pub struct McpInstallSpec<'a> {
    pub server_id: &'a str,
    pub trusted_local: bool,
    pub effect: CapabilityEffect,
    pub recovery: RecoveryMode,
    pub version: &'a str,
    pub workspace_max: Option<CapabilityEffect>,
    pub origin: String,
}

/// What the configuration says of a server.
pub struct McpSpecView {
    pub server_id: Seq<char>,
    pub trusted_local: bool,
    pub effect: CapabilityEffect,
    pub recovery: RecoveryMode,
    pub version: Seq<char>,
    pub workspace_max: Option<CapabilityEffect>,
    pub origin: Seq<char>,
}

impl<'a> McpInstallSpec<'a> {
    pub open spec fn view(&self) -> McpSpecView {
        McpSpecView {
            server_id: self.server_id@,
            trusted_local: self.trusted_local,
            effect: self.effect,
            recovery: self.recovery,
            version: self.version@,
            workspace_max: self.workspace_max,
            origin: self.origin@,
        }
    }
}

pub open spec fn mcp_name(server_id: Seq<char>, tool: Seq<char>) -> Seq<char> {
    server_id + "/"@ + tool
}

/// What is wrong with a tool of a server that is to be enabled.
pub open spec fn mcp_error(spec: McpSpecView, tool: Seq<char>) -> Option<ErrorView> {
    let name = mcp_name(spec.server_id, tool);
    let id = id_text("mcp"@, name, spec.version);
    let ceiling = ceiling_error(id, spec.effect, spec.workspace_max);
    if ceiling is Some {
        ceiling
    } else {
        enablement(id, "mcp/"@ + name, CapabilitySource::Mcp, Some(spec.recovery), false)
    }
}

/// The descriptor is that of a tool of a server.
pub open spec fn describes_mcp(
    d: CapabilityDescriptor,
    spec: McpSpecView,
    listed: McpListedTool,
) -> bool {
    let name = mcp_name(spec.server_id, listed.name@);
    &&& d.id@ == id_text("mcp"@, name, spec.version)
    &&& d.source == CapabilitySource::Mcp
    &&& d.name@ == "mcp/"@ + name
    &&& d.description == listed.description
    &&& d.input_schema == listed.input_schema
    &&& d.output_schema is None
    &&& d.effect == spec.effect
    &&& d.target_requirements@.len() == 0
    &&& d.timeout_seconds == MCP_TIMEOUT_SECONDS
    &&& d.max_output_bytes == MCP_OUTPUT_BYTES
    &&& d.recovery == Some(spec.recovery)
    &&& d.provenance.source == CapabilitySource::Mcp
    &&& d.provenance.version@ == spec.version
    &&& d.provenance.schema_hash@ == sha256_text(map_bytes(listed.input_schema@))
    &&& d.provenance.binary_hash is None
    &&& string_view(d.provenance.origin) == Some(spec.origin)
    &&& d.content_sensitivity == Sensitivity::Internal
    &&& d.enabled
    &&& d.trusted_local == spec.trusted_local
}

fn mcp_descriptor(spec: McpInstallSpec<'_>, listed: McpListedTool) -> (r: CapabilityDescriptor)
    ensures
        describes_mcp(r, spec@, listed),
{
    let schema_hash = hash_schema(&listed.input_schema);
    let mut name = spec.server_id.to_owned();
    name.append("/");
    name.append(listed.name.as_str());
    let mut shown = "mcp/".to_owned();
    shown.append(name.as_str());
    CapabilityDescriptor {
        id: capability_id("mcp", name.as_str(), spec.version),
        source: CapabilitySource::Mcp,
        name: shown,
        description: listed.description,
        input_schema: listed.input_schema,
        output_schema: None,
        effect: spec.effect,
        target_requirements: Vec::new(),
        timeout_seconds: MCP_TIMEOUT_SECONDS,
        max_output_bytes: MCP_OUTPUT_BYTES,
        recovery: Some(spec.recovery),
        provenance: Provenance {
            source: CapabilitySource::Mcp,
            version: spec.version.to_owned(),
            schema_hash,
            binary_hash: None,
            origin: Some(spec.origin),
        },
        content_sensitivity: Sensitivity::Internal,
        enabled: true,
        trusted_local: spec.trusted_local,
    }
}

/// A tool of a server.
#[derive(Debug)]
pub struct McpTool {
    pub capability: CapabilityDescriptor,
    pub remote_name: String,
}

/// How a call of a tool ended.
#[derive(Debug)]
pub enum CallReply {
    Cancelled,
    TimedOut,
    Answered(OpsResult<Json>),
}

pub open spec fn call_error(reply: CallReply) -> Option<ErrorView> {
    match reply {
        CallReply::Cancelled => Some(ErrorView::Cancelled),
        CallReply::TimedOut => Some(ErrorView::Timeout("MCP tool timed out"@)),
        CallReply::Answered(Err(e)) => Some(e@),
        CallReply::Answered(Ok(_)) => None,
    }
}

impl McpTool {
    pub fn new(spec: McpInstallSpec<'_>, listed: McpListedTool) -> (r: OpsResult<Self>)
        ensures
            match r {
                Ok(tool) => mcp_error(spec@, listed.name@) is None && describes_mcp(
                    tool.capability,
                    spec@,
                    listed,
                ) && tool.remote_name == listed.name,
                Err(e) => mcp_error(spec@, listed.name@) == Some(e@),
            },
    {
        let remote_name = listed.name.clone();
        let workspace_max = spec.workspace_max;
        let descriptor = mcp_descriptor(spec, listed);
        let descriptor = descriptor.apply_strictest(None, None);
        proof {
            lemma_stricter_of_two(spec.effect, None);
            law_strictest_unique(
                descriptor.effect,
                spec.effect,
                CapabilityDescriptor::effects(spec.effect, None, None),
            );
        }
        match enforce_workspace_ceiling(&descriptor, workspace_max) {
            Ok(_) => {},
            Err(e) => return Err(e),
        }
        match descriptor.validate_for_enablement() {
            Ok(_) => {},
            Err(e) => return Err(e),
        }
        Ok(McpTool { capability: descriptor, remote_name })
    }

    pub fn risk(&self) -> (r: ToolRisk)
        ensures
            r == risk_of(self.capability.effect),
    {
        effect_risk(self.capability.effect)
    }

    /// What a call returns.
    pub fn finish(&self, reply: CallReply, now: Timestamp) -> (r: OpsResult<ToolOutput>)
        ensures
            match r {
                Ok(output) => reply matches CallReply::Answered(Ok(result)) && is_mcp_output(
                    output,
                    self.capability,
                    result@,
                    now,
                ),
                Err(e) => call_error(reply) == Some(e@),
            },
    {
        match reply {
            CallReply::Cancelled => Err(OpsCodexError::Cancelled),
            CallReply::TimedOut => Err(OpsCodexError::Timeout("MCP tool timed out".to_owned())),
            CallReply::Answered(Err(e)) => Err(e),
            CallReply::Answered(Ok(result)) => Ok(mcp_output(&self.capability, result, now)),
        }
    }
}

/// A tool of a server that is reached over HTTP.
#[derive(Debug)]
pub struct McpHttpTool {
    pub tool: McpTool,
    pub endpoint: String,
}

impl McpHttpTool {
    pub fn new(spec: McpInstallSpec<'_>, listed: McpListedTool, endpoint: String) -> (r: OpsResult<
        Self,
    >)
        ensures
            match r {
                Ok(r) => mcp_error(spec@, listed.name@) is None && describes_mcp(
                    r.tool.capability,
                    spec@,
                    listed,
                ) && r.tool.remote_name == listed.name && r.endpoint == endpoint,
                Err(e) => mcp_error(spec@, listed.name@) == Some(e@),
            },
    {
        match McpTool::new(spec, listed) {
            Ok(tool) => Ok(McpHttpTool { tool, endpoint }),
            Err(e) => Err(e),
        }
    }

    /// What a call returns.
    pub fn finish(&self, reply: HttpReply, now: Timestamp) -> (r: OpsResult<ToolOutput>)
        ensures
            match http_answer(reply) {
                Ok(result) => r matches Ok(output) && is_mcp_output(
                    output,
                    self.tool.capability,
                    result,
                    now,
                ),
                Err(error) => r matches Err(e) && e@ == error,
            },
    {
        match mcp_http_call(reply) {
            Ok(result) => Ok(mcp_output(&self.tool.capability, result, now)),
            Err(e) => Err(e),
        }
    }
}

pub open spec fn mcp_entries(d: CapabilityDescriptor, result: JsonView) -> Seq<
    (Seq<char>, JsonView),
> {
    seq![
        ("hash"@, JsonView::Text(d.provenance.schema_hash@)),
        ("result"@, result),
        ("source"@, JsonView::Text("mcp"@)),
        ("tool"@, JsonView::Text(d.name@)),
        ("version"@, JsonView::Text(d.provenance.version@)),
    ]
}

/// The output tells a result and where it comes from.
pub open spec fn is_mcp_output(
    output: ToolOutput,
    d: CapabilityDescriptor,
    result: JsonView,
    now: Timestamp,
) -> bool {
    output.content@ == JsonView::Object(mcp_entries(d, result)) && is_reported(
        output.evidence,
        "mcp"@,
        d.id@,
        "MCP "@ + d.name@,
        false,
        now,
    )
}

fn mcp_output(d: &CapabilityDescriptor, result: Json, now: Timestamp) -> (r: ToolOutput)
    ensures
        is_mcp_output(r, *d, result@, now),
{
    let ghost given = result@;
    let mut entries: Vec<JsonEntry> = Vec::new();
    push_entry(&mut entries, "hash", Json::text(d.provenance.schema_hash.as_str()));
    push_entry(&mut entries, "result", result);
    push_entry(&mut entries, "source", Json::text("mcp"));
    push_entry(&mut entries, "tool", Json::text(d.name.as_str()));
    push_entry(&mut entries, "version", Json::text(d.provenance.version.as_str()));
    assert(entries_view(entries@) =~= mcp_entries(*d, given));
    let mut summary = "MCP ".to_owned();
    summary.append(d.name.as_str());
    let evidence = EvidenceMeta::new("mcp".to_owned(), now).with_query(d.id.clone()).with_summary(
        summary,
    );
    ToolOutput { content: Json::Object(entries), evidence }
}

// ---------------------------------------------------------------------------
// Endpoints
// ---------------------------------------------------------------------------
/// What is wrong with the URL of a server.
pub open spec fn mcp_url_error(raw: Seq<char>, allowlist: Seq<Seq<char>>) -> Option<ErrorView> {
    match url_of(raw) {
        Err(e) => Some(ErrorView::Protocol("invalid MCP URL: "@ + e)),
        Ok(url) => checked_url_error(url, allowlist),
    }
}

/// What is wrong with a URL that could be read.
pub open spec fn checked_url_error(url: UrlView, allowlist: Seq<Seq<char>>) -> Option<ErrorView> {
    let host = host_or_empty(url);
    if url.scheme != "https"@ && !loopback_name(host) {
        Some(ErrorView::Policy("MCP HTTP endpoints must use TLS unless they are loopback"@))
    } else if url.username.len() != 0 || url.has_password {
        Some(ErrorView::Policy("MCP URL cannot contain credentials"@))
    } else if allowlist.len() == 0 {
        Some(ErrorView::Policy("MCP HTTP endpoints require an explicit host allowlist"@))
    } else if !names_service(allowlist, host) {
        Some(
            ErrorView::Policy("MCP host `"@ + host + "` is not in the Workspace allowlist"@),
        )
    } else {
        None
    }
}

/// Whether a URL that was read is one of a server that may be used.
pub fn check_mcp_url(url: &UrlParts, allowlist: &Vec<String>) -> (r: OpsResult<()>)
    ensures
        match r {
            Ok(_) => checked_url_error(url@, views(allowlist@)) is None,
            Err(e) => checked_url_error(url@, views(allowlist@)) == Some(e@),
        },
{
    let host = url.host_name();
    if !same(url.scheme.as_str(), "https") && !is_loopback_name(host) {
        return Err(
            OpsCodexError::Policy(
                "MCP HTTP endpoints must use TLS unless they are loopback".to_owned(),
            ),
        );
    }
    if !url.username.as_str().is_empty() || url.has_password {
        return Err(OpsCodexError::Policy("MCP URL cannot contain credentials".to_owned()));
    }
    if allowlist.len() == 0 {
        return Err(
            OpsCodexError::Policy(
                "MCP HTTP endpoints require an explicit host allowlist".to_owned(),
            ),
        );
    }
    if !is_service_named(allowlist, host) {
        let mut message = "MCP host `".to_owned();
        message.append(host);
        message.append("` is not in the Workspace allowlist");
        return Err(OpsCodexError::Policy(message));
    }
    Ok(())
}

pub fn validate_mcp_http_url(raw: &str, allowlist: &Vec<String>) -> (r: OpsResult<UrlParts>)
    ensures
        match r {
            Ok(url) => mcp_url_error(raw@, views(allowlist@)) is None && url_of(raw@) == Ok::<
                UrlView,
                Seq<char>,
            >(url@),
            Err(e) => mcp_url_error(raw@, views(allowlist@)) == Some(e@),
        },
{
    let url = match parse_url(raw) {
        Ok(url) => url,
        Err(e) => {
            let mut message = "invalid MCP URL: ".to_owned();
            message.append(e.as_str());
            return Err(OpsCodexError::Protocol(message));
        },
    };
    match check_mcp_url(&url, allowlist) {
        Ok(_) => Ok(url),
        Err(e) => Err(e),
    }
}

/// An accepted endpoint is one that the allowlist names, it carries no
/// credentials, and off this machine it is encrypted.
pub proof fn law_accepted_endpoints_are_listed(raw: Seq<char>, allowlist: Seq<Seq<char>>)
    requires
        mcp_url_error(raw, allowlist) is None,
    ensures
        url_of(raw) matches Ok(url) && names_service(allowlist, host_or_empty(url))
            && url.username.len() == 0 && !url.has_password && (url.scheme == "https"@
            || loopback_name(host_or_empty(url))),
{
}

/// A tool of a server never goes beyond its workspace.
pub proof fn law_mcp_tools_stay_below_the_ceiling(
    spec: McpSpecView,
    listed: McpListedTool,
    d: CapabilityDescriptor,
)
    requires
        mcp_error(spec, listed.name@) is None,
        describes_mcp(d, spec, listed),
    ensures
        spec.workspace_max matches Some(max) ==> d.effect.strictness() <= max.strictness(),
        d.recovery is Some,
{
}

} // verus!
