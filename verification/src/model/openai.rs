//! The wire format of the Responses API: requests, and a response that is put
//! together from its events.
use vstd::prelude::*;

use crate::error::{ErrorView, OpsCodexError, OpsResult};
use crate::json::{
    entries_view, items_view, lemma_items_view, lookup, push_entry, push_item, string_view,
    text_or_empty, Json, JsonEntry, JsonView,
};
use crate::json_map::map_text;
use crate::json_read::{json_document, read_json};
use crate::model::provider::{
    output_views, ItemView, ModelItem, ModelOutput, ModelRequest, ModelResponse, OutputView,
    ToolSchema, Usage,
};
use crate::text::{same, views};

verus! {

pub const DEFAULT_ENDPOINT: &'static str = "https://api.openai.com/v1/responses";

/// How a model is reached.
#[derive(Debug)]
pub struct OpenAIResponsesProvider {
    pub api_key: String,
    pub model: String,
    pub endpoint: String,
}

// ---------------------------------------------------------------------------
// Requests
// ---------------------------------------------------------------------------
/// The entries of an item of a request.
pub open spec fn item_entries(item: ItemView) -> Seq<(Seq<char>, JsonView)> {
    match item {
        ItemView::UserMessage(content) => seq![
            ("content"@, JsonView::Text(content)),
            ("role"@, JsonView::Text("user"@)),
        ],
        ItemView::AssistantMessage(content) => seq![
            ("content"@, JsonView::Text(content)),
            ("role"@, JsonView::Text("assistant"@)),
        ],
        ItemView::ToolCall(call_id, name, arguments) => seq![
            ("arguments"@, JsonView::Text(map_text(arguments))),
            ("call_id"@, JsonView::Text(call_id)),
            ("name"@, JsonView::Text(name)),
            ("type"@, JsonView::Text("function_call"@)),
        ],
        ItemView::ToolResult(call_id, output) => seq![
            ("call_id"@, JsonView::Text(call_id)),
            ("output"@, JsonView::Text(map_text(output))),
            ("type"@, JsonView::Text("function_call_output"@)),
        ],
    }
}

pub fn model_item_json(item: &ModelItem) -> (r: Json)
    ensures
        r@ == JsonView::Object(item_entries(item@)),
{
    let mut entries: Vec<JsonEntry> = Vec::new();
    match item {
        ModelItem::UserMessage { content } => {
            push_entry(&mut entries, "content", Json::text(content.as_str()));
            push_entry(&mut entries, "role", Json::text("user"));
        },
        ModelItem::AssistantMessage { content } => {
            push_entry(&mut entries, "content", Json::text(content.as_str()));
            push_entry(&mut entries, "role", Json::text("assistant"));
        },
        ModelItem::ToolCall { call_id, name, arguments } => {
            push_entry(&mut entries, "arguments", Json::Text(arguments.to_map_text()));
            push_entry(&mut entries, "call_id", Json::text(call_id.as_str()));
            push_entry(&mut entries, "name", Json::text(name.as_str()));
            push_entry(&mut entries, "type", Json::text("function_call"));
        },
        ModelItem::ToolResult { call_id, output } => {
            push_entry(&mut entries, "call_id", Json::text(call_id.as_str()));
            push_entry(&mut entries, "output", Json::Text(output.to_map_text()));
            push_entry(&mut entries, "type", Json::text("function_call_output"));
        },
    }
    assert(entries_view(entries@) =~= item_entries(item@));
    Json::Object(entries)
}

pub open spec fn tool_entries(tool: ToolSchema) -> Seq<(Seq<char>, JsonView)> {
    seq![
        ("description"@, JsonView::Text(tool.description@)),
        ("name"@, JsonView::Text(tool.name@)),
        ("parameters"@, tool.parameters@),
        ("type"@, JsonView::Text("function"@)),
    ]
}

fn tool_json(tool: &ToolSchema) -> (r: Json)
    ensures
        r@ == JsonView::Object(tool_entries(*tool)),
{
    let mut entries: Vec<JsonEntry> = Vec::new();
    push_entry(&mut entries, "description", Json::text(tool.description.as_str()));
    push_entry(&mut entries, "name", Json::text(tool.name.as_str()));
    push_entry(&mut entries, "parameters", tool.parameters.clone());
    push_entry(&mut entries, "type", Json::text("function"));
    assert(entries_view(entries@) =~= tool_entries(*tool));
    Json::Object(entries)
}

pub open spec fn input_json(items: Seq<ModelItem>) -> Seq<JsonView> {
    items.map_values(|item: ModelItem| JsonView::Object(item_entries(item@)))
}

pub open spec fn tools_json(tools: Seq<ToolSchema>) -> Seq<JsonView> {
    tools.map_values(|tool: ToolSchema| JsonView::Object(tool_entries(tool)))
}

pub open spec fn body_entries(model: Seq<char>, request: ModelRequest) -> Seq<
    (Seq<char>, JsonView),
> {
    seq![
        ("input"@, JsonView::Array(input_json(request.input@))),
        ("instructions"@, JsonView::Text(request.instructions@)),
        ("model"@, JsonView::Text(model)),
        ("stream"@, JsonView::Bool(true)),
        ("tools"@, JsonView::Array(tools_json(request.tools@))),
    ]
}

impl OpenAIResponsesProvider {
    pub fn new(api_key: String, model: String) -> (r: Self)
        ensures
            r.api_key == api_key,
            r.model == model,
            r.endpoint@ == DEFAULT_ENDPOINT@,
    {
        OpenAIResponsesProvider { api_key, model, endpoint: DEFAULT_ENDPOINT.to_owned() }
    }

    pub fn with_endpoint(self, endpoint: String) -> (r: Self)
        ensures
            r == (OpenAIResponsesProvider { endpoint, ..self }),
    {
        let mut r = self;
        r.endpoint = endpoint;
        r
    }

    /// What is sent for a request.
    pub fn request_body(&self, request: &ModelRequest) -> (r: Json)
        ensures
            r@ == JsonView::Object(body_entries(self.model@, *request)),
    {
        let mut input: Vec<Json> = Vec::new();
        let ghost wanted = input_json(request.input@);
        let mut i: usize = 0;
        while i < request.input.len()
            invariant
                i <= request.input@.len(),
                wanted == input_json(request.input@),
                items_view(input@) == wanted.take(i as int),
            decreases request.input@.len() - i,
        {
            push_item(&mut input, model_item_json(&request.input[i]));
            i += 1;
            assert(items_view(input@) =~= wanted.take(i as int));
        }
        assert(wanted.take(i as int) =~= wanted);
        let mut tools: Vec<Json> = Vec::new();
        let ghost offered = tools_json(request.tools@);
        let mut k: usize = 0;
        while k < request.tools.len()
            invariant
                k <= request.tools@.len(),
                offered == tools_json(request.tools@),
                items_view(tools@) == offered.take(k as int),
            decreases request.tools@.len() - k,
        {
            push_item(&mut tools, tool_json(&request.tools[k]));
            k += 1;
            assert(items_view(tools@) =~= offered.take(k as int));
        }
        assert(offered.take(k as int) =~= offered);
        let mut entries: Vec<JsonEntry> = Vec::new();
        push_entry(&mut entries, "input", Json::Array(input));
        push_entry(&mut entries, "instructions", Json::text(request.instructions.as_str()));
        push_entry(&mut entries, "model", Json::text(self.model.as_str()));
        push_entry(&mut entries, "stream", Json::Bool(true));
        push_entry(&mut entries, "tools", Json::Array(tools));
        assert(entries_view(entries@) =~= body_entries(self.model@, *request));
        Json::Object(entries)
    }
}

/// What is said of an answer that reports a failure.
pub fn http_failure(status: &str, body: &str) -> (r: OpsCodexError)
    ensures
        r@ == ErrorView::Model("HTTP "@ + status@ + ": "@ + body@),
{
    let mut message = "HTTP ".to_owned();
    message.append(status);
    message.append(": ");
    message.append(body);
    OpsCodexError::Model(message)
}

/// Whether the data of an event ends the stream and is no document.
pub fn is_end_mark(data: &str) -> (r: bool)
    ensures
        r == (data@ == "[DONE]"@),
{
    same(data, "[DONE]")
}

// ---------------------------------------------------------------------------
// Responses
// ---------------------------------------------------------------------------
/// The outputs hold a call with this identifier.
pub open spec fn has_call(outputs: Seq<OutputView>, id: Seq<char>) -> bool {
    exists|i: int|
        0 <= i < outputs.len() && (#[trigger] outputs[i] matches OutputView::ToolCall(call_id, _, _)
            && call_id == id)
}

/// The outputs are calls, and no identifier occurs twice.
pub open spec fn are_calls(outputs: Seq<OutputView>) -> bool {
    &&& forall|i: int| 0 <= i < outputs.len() ==> #[trigger] outputs[i] is ToolCall
    &&& forall|i: int, j: int|
        0 <= i < j < outputs.len() ==> (#[trigger] outputs[i])->ToolCall_0 != (
        #[trigger] outputs[j])->ToolCall_0
}

/// The arguments of a call, which are written as a text. `table` tells what the
/// texts hold that could be decoded.
pub open spec fn arguments_of(item: JsonView, table: Seq<(Seq<char>, JsonView)>) -> JsonView {
    match item.text_at("arguments"@) {
        Some(text) => match lookup(table, text) {
            Some(value) => value,
            None => JsonView::Null,
        },
        None => JsonView::Null,
    }
}

/// The outputs with the call that an item describes, unless it is among them.
pub open spec fn with_call(
    outputs: Seq<OutputView>,
    item: JsonView,
    table: Seq<(Seq<char>, JsonView)>,
) -> Seq<OutputView> {
    match item.text_at("call_id"@) {
        None => outputs,
        Some(id) => if has_call(outputs, id) {
            outputs
        } else {
            outputs.push(
                OutputView::ToolCall(
                    id,
                    text_or_empty(item.text_at("name"@)),
                    arguments_of(item, table),
                ),
            )
        },
    }
}

pub open spec fn is_function_call(item: JsonView) -> bool {
    item.text_at("type"@) == Some("function_call"@)
}

/// The texts of the parts of a message, one after the other.
pub open spec fn parts_text(parts: Seq<JsonView>) -> Seq<char>
    decreases parts.len(),
{
    if parts.len() == 0 {
        Seq::empty()
    } else {
        parts_text(parts.drop_last()) + text_or_empty(parts.last().text_at("text"@))
    }
}

/// The parts of an item that is a message.
pub open spec fn message_parts(item: JsonView) -> Option<Seq<JsonView>> {
    if item.text_at("type"@) == Some("message"@) {
        match item.get("content"@) {
            Some(JsonView::Array(parts)) => Some(parts),
            _ => None,
        }
    } else {
        None
    }
}

/// The message and the outputs after the first `n` items of a complete response.
/// The message is taken from it only where none came in pieces.
pub open spec fn with_items(
    message: Seq<char>,
    outputs: Seq<OutputView>,
    items: Seq<JsonView>,
    table: Seq<(Seq<char>, JsonView)>,
    n: int,
) -> (Seq<char>, Seq<OutputView>)
    decreases n,
{
    if n <= 0 {
        (message, outputs)
    } else {
        let (message, outputs) = with_items(message, outputs, items, table, n - 1);
        let item = items[n - 1];
        if is_function_call(item) {
            (message, with_call(outputs, item, table))
        } else if message.len() == 0 && message_parts(item) is Some {
            (parts_text(message_parts(item)->0), outputs)
        } else {
            (message, outputs)
        }
    }
}

/// A response as far as it is known.
pub struct StateView {
    pub message: Seq<char>,
    pub outputs: Seq<OutputView>,
    pub response_id: Option<Seq<char>>,
    pub usage: Usage,
}

/// The member of a document, or null.
pub open spec fn member(value: JsonView, key: Seq<char>) -> JsonView {
    match value.get(key) {
        Some(value) => value,
        None => JsonView::Null,
    }
}

pub open spec fn array_at(value: JsonView, key: Seq<char>) -> Seq<JsonView> {
    match value.get(key) {
        Some(JsonView::Array(items)) => items,
        _ => Seq::empty(),
    }
}

/// Why a response failed: the first of the places that is filled.
pub open spec fn failure_text(event: JsonView) -> Seq<char> {
    let response = member(event, "response"@);
    let found = if event.get_in("error"@, "message"@) is Some {
        event.get_in("error"@, "message"@)
    } else if response.get_in("error"@, "message"@) is Some {
        response.get_in("error"@, "message"@)
    } else if response.get_in("incomplete_details"@, "reason"@) is Some {
        response.get_in("incomplete_details"@, "reason"@)
    } else {
        event.get("message"@)
    };
    match found {
        Some(JsonView::Text(text)) => text,
        _ => "OpenAI Responses API failed"@,
    }
}

pub open spec fn event_type(event: JsonView) -> Seq<char> {
    text_or_empty(event.text_at("type"@))
}

/// The response after an event, and the piece of the message that it brought; or
/// why the response failed. `usage` is what was decoded of the usage that the
/// event reports.
pub open spec fn after(
    state: StateView,
    event: JsonView,
    usage: Option<Usage>,
    table: Seq<(Seq<char>, JsonView)>,
) -> Result<(StateView, Option<Seq<char>>), ErrorView> {
    let kind = event_type(event);
    if kind == "response.output_text.delta"@ {
        match event.text_at("delta"@) {
            Some(delta) => Ok(
                (StateView { message: state.message + delta, ..state }, Some(delta)),
            ),
            None => Ok((state, None)),
        }
    } else if kind == "response.output_item.done"@ {
        let item = member(event, "item"@);
        if is_function_call(item) {
            Ok((StateView { outputs: with_call(state.outputs, item, table), ..state }, None))
        } else {
            Ok((state, None))
        }
    } else if kind == "response.completed"@ {
        let response = member(event, "response"@);
        let items = array_at(response, "output"@);
        let filled = with_items(
            state.message,
            state.outputs,
            items,
            table,
            items.len() as int,
        );
        Ok(
            (
                StateView {
                    message: filled.0,
                    outputs: filled.1,
                    response_id: response.text_at("id"@),
                    usage: match usage {
                        Some(usage) => usage,
                        None => Usage { input_tokens: 0, output_tokens: 0, total_tokens: 0 },
                    },
                },
                None,
            ),
        )
    } else if kind == "error"@ || kind == "response.failed"@ || kind == "response.incomplete"@ {
        Err(ErrorView::Model(failure_text(event)))
    } else {
        Ok((state, None))
    }
}

/// A response as far as it is known.
#[derive(Debug)]
pub struct ResponseState {
    message: String,
    outputs: Vec<ModelOutput>,
    response_id: Option<String>,
    usage: Usage,
}

impl Default for ResponseState {
    fn default() -> (r: Self)
        ensures
            r@.message.len() == 0,
            r@.outputs.len() == 0,
            r@.response_id is None,
            r@.usage == (Usage { input_tokens: 0, output_tokens: 0, total_tokens: 0 }),
            r.well_formed(),
    {
        ResponseState {
            message: String::new(),
            outputs: Vec::new(),
            response_id: None,
            usage: Usage::default(),
        }
    }
}

/// The outputs of a complete response: its message, where there is one, and its
/// calls.
pub open spec fn all_outputs(state: StateView) -> Seq<OutputView> {
    if state.message.len() == 0 {
        state.outputs
    } else {
        seq![OutputView::Message(state.message)] + state.outputs
    }
}

impl ResponseState {
    pub closed spec fn view(&self) -> StateView {
        StateView {
            message: self.message@,
            outputs: output_views(self.outputs@),
            response_id: string_view(self.response_id),
            usage: self.usage,
        }
    }

    pub open spec fn well_formed(&self) -> bool {
        are_calls(self@.outputs)
    }

    fn push_tool_call(&mut self, item: &Json, table: &Json)
        requires
            old(self).well_formed(),
        ensures
            final(self).well_formed(),
            final(self)@ == (StateView {
                outputs: with_call(old(self)@.outputs, item@, table_of(table@)),
                ..old(self)@
            }),
    {
        let call_id = match item.str_at("call_id") {
            Some(id) => id,
            None => return,
        };
        let ghost seen = self@.outputs;
        let mut i: usize = 0;
        while i < self.outputs.len()
            invariant
                i <= self.outputs@.len(),
                *self == *old(self),
                seen == output_views(self.outputs@),
                seen == self@.outputs,
                self.well_formed(),
                forall|k: int|
                    0 <= k < i ==> !(#[trigger] seen[k] matches OutputView::ToolCall(id, _, _) && id
                        == call_id@),
                item@.text_at("call_id"@) == Some(call_id@),
            decreases self.outputs@.len() - i,
        {
            assert(seen[i as int] == self.outputs@[i as int]@);
            if let ModelOutput::ToolCall { call_id: id, .. } = &self.outputs[i] {
                if same(id.as_str(), call_id) {
                    assert(has_call(seen, call_id@));
                    return;
                }
            }
            i += 1;
        }
        let arguments = match item.str_at("arguments") {
            Some(text) => match table.get(text) {
                Some(value) => value.clone(),
                None => Json::Null,
            },
            None => Json::Null,
        };
        let name = match item.str_at("name") {
            Some(name) => name.to_owned(),
            None => String::new(),
        };
        let output = ModelOutput::ToolCall { call_id: call_id.to_owned(), name, arguments };
        let ghost before = self.outputs@;
        proof {
            reveal_strlit("");
            if item@.text_at("name"@) is None {
                assert(name@ =~= text_or_empty(item@.text_at("name"@)));
            }
        }
        self.outputs.push(output);
        assert(output_views(self.outputs@) =~= seen.push(output@));
        assert(!has_call(seen, call_id@));
        assert(are_calls(self@.outputs));
    }

    /// Takes an event. Gives the piece of the message that it brought.
    pub fn consume(&mut self, event: &Json, usage: Option<Usage>, table: &Json) -> (r: OpsResult<
        Option<String>,
    >)
        requires
            old(self).well_formed(),
        ensures
            final(self).well_formed(),
            match r {
                Ok(delta) => after(old(self)@, event@, usage, table_of(table@)) == Ok::<
                    (StateView, Option<Seq<char>>),
                    ErrorView,
                >((final(self)@, string_view(delta))),
                Err(e) => *final(self) == *old(self) && after(
                    old(self)@,
                    event@,
                    usage,
                    table_of(table@),
                ) == Err::<(StateView, Option<Seq<char>>), ErrorView>(e@),
            },
    {
        let kind = match event.str_at("type") {
            Some(kind) => kind,
            None => "",
        };
        proof {
            reveal_strlit("");
            assert(kind@ =~= event_type(event@));
        }
        if same(kind, "response.output_text.delta") {
            return match event.str_at("delta") {
                Some(delta) => {
                    self.message.append(delta);
                    Ok(Some(delta.to_owned()))
                },
                None => Ok(None),
            };
        }
        if same(kind, "response.output_item.done") {
            if let Some(item) = event.get("item") {
                if text_is(item.str_at("type"), "function_call") {
                    self.push_tool_call(item, table);
                }
            }
            return Ok(None);
        }
        if same(kind, "response.completed") {
            self.consume_completed(event, usage, table);
            return Ok(None);
        }
        if same(kind, "error") || same(kind, "response.failed") || same(
            kind,
            "response.incomplete",
        ) {
            return Err(OpsCodexError::Model(failure_of(event)));
        }
        Ok(None)
    }

    fn consume_completed(&mut self, event: &Json, usage: Option<Usage>, table: &Json)
        requires
            old(self).well_formed(),
            event_type(event@) == "response.completed"@,
        ensures
            final(self).well_formed(),
            after(old(self)@, event@, usage, table_of(table@)) == Ok::<
                (StateView, Option<Seq<char>>),
                ErrorView,
            >((final(self)@, None)),
    {
        proof {
            lemma_event_types();
        }
        let ghost response = member(event@, "response"@);
        let ghost items = array_at(response, "output"@);
        let ghost start = self@;
        self.response_id = match event.get("response") {
            Some(response) => match response.str_at("id") {
                Some(id) => Some(id.to_owned()),
                None => None,
            },
            None => None,
        };
        self.usage = match usage {
            Some(usage) => usage,
            None => Usage::default(),
        };
        let ghost named = self@;
        match event.get_in("response", "output") {
            Some(Json::Array(output)) => {
                proof {
                    lemma_items_view(output@);
                }
                let mut i: usize = 0;
                while i < output.len()
                    invariant
                        i <= output@.len(),
                        items == items_view(output@),
                        items.len() == output@.len(),
                        forall|k: int| 0 <= k < items.len() ==> #[trigger] items[k] == output@[k]@,
                        self.well_formed(),
                        named.message == start.message,
                        named.outputs == start.outputs,
                        self@.response_id == named.response_id,
                        self@.usage == named.usage,
                        (self@.message, self@.outputs) == with_items(
                            start.message,
                            start.outputs,
                            items,
                            table_of(table@),
                            i as int,
                        ),
                    decreases output@.len() - i,
                {
                    assert(items[i as int] == output@[i as int]@);
                    let item = &output[i];
                    if text_is(item.str_at("type"), "function_call") {
                        self.push_tool_call(item, table);
                    } else if self.message.as_str().is_empty() && text_is(
                        item.str_at("type"),
                        "message",
                    ) {
                        if let Some(Json::Array(parts)) = item.get("content") {
                            self.message = join_parts(parts);
                        }
                    }
                    i += 1;
                }
            },
            _ => {},
        }
    }

    /// The response.
    pub fn finish(self) -> (r: ModelResponse)
        ensures
            output_views(r.outputs@) == all_outputs(self@),
            string_view(r.response_id) == self@.response_id,
            r.usage == self@.usage,
    {
        let mut outputs = self.outputs;
        let ghost calls = outputs@;
        if !self.message.as_str().is_empty() {
            outputs.insert(0, ModelOutput::Message { content: self.message });
            assert(output_views(outputs@) =~= seq![OutputView::Message(self.message@)]
                + output_views(calls));
        }
        ModelResponse { outputs, response_id: self.response_id, usage: self.usage }
    }
}

/// The entries of a table.
pub open spec fn table_of(table: JsonView) -> Seq<(Seq<char>, JsonView)> {
    match table {
        JsonView::Object(entries) => entries,
        _ => Seq::empty(),
    }
}

fn text_is(text: Option<&str>, wanted: &str) -> (r: bool)
    ensures
        r == (crate::json::str_view(text) == Some(wanted@)),
{
    match text {
        Some(text) => same(text, wanted),
        None => false,
    }
}

fn join_parts(parts: &Vec<Json>) -> (r: String)
    ensures
        r@ == parts_text(items_view(parts@)),
{
    let mut text = String::new();
    let ghost seen = items_view(parts@);
    proof {
        lemma_items_view(parts@);
        assert(seen.take(0) =~= Seq::empty());
    }
    let mut i: usize = 0;
    while i < parts.len()
        invariant
            i <= parts@.len(),
            seen == items_view(parts@),
            seen.len() == parts@.len(),
            forall|k: int| 0 <= k < seen.len() ==> #[trigger] seen[k] == parts@[k]@,
            text@ == parts_text(seen.take(i as int)),
        decreases parts@.len() - i,
    {
        proof {
            assert(seen[i as int] == parts@[i as int]@);
            assert(seen.take(i + 1).drop_last() =~= seen.take(i as int));
            assert(seen.take(i + 1).last() == seen[i as int]);
        }
        let ghost before = text@;
        if let Some(piece) = parts[i].str_at("text") {
            text.append(piece);
        }
        assert(text@ =~= before + text_or_empty(seen[i as int].text_at("text"@)));
        i += 1;
    }
    assert(seen.take(i as int) =~= seen);
    text
}

fn failure_of(event: &Json) -> (r: String)
    ensures
        r@ == failure_text(event@),
{
    let mut found = event.get_in("error", "message");
    let response = event.get("response");
    if found.is_none() {
        if let Some(response) = response {
            found = response.get_in("error", "message");
            if found.is_none() {
                found = response.get_in("incomplete_details", "reason");
            }
        }
    }
    if found.is_none() {
        found = event.get("message");
    }
    match found {
        Some(Json::Text(text)) => text.clone(),
        _ => "OpenAI Responses API failed".to_owned(),
    }
}

/// The types of events that bear on a response are told apart.
proof fn lemma_event_types()
    ensures
        "response.completed"@ != "response.output_text.delta"@,
        "response.completed"@ != "response.output_item.done"@,
{
    reveal_strlit("response.completed");
    reveal_strlit("response.output_text.delta");
    reveal_strlit("response.output_item.done");
    assert("response.completed"@.len() == 18);
    assert("response.output_text.delta"@.len() == 26);
    assert("response.output_item.done"@.len() == 25);
}

// ---------------------------------------------------------------------------
// What is to be decoded
// ---------------------------------------------------------------------------
/// The text of the arguments of a call, if the item is one.
pub open spec fn argument_text(item: JsonView) -> Seq<Seq<char>> {
    if is_function_call(item) {
        match item.text_at("arguments"@) {
            Some(text) => seq![text],
            None => Seq::empty(),
        }
    } else {
        Seq::empty()
    }
}

pub open spec fn item_texts(items: Seq<JsonView>, n: int) -> Seq<Seq<char>>
    decreases n,
{
    if n <= 0 {
        Seq::empty()
    } else {
        item_texts(items, n - 1) + argument_text(items[n - 1])
    }
}

/// The texts of arguments in an event, which a table is to be made of.
pub open spec fn argument_texts_of(event: JsonView) -> Seq<Seq<char>> {
    let items = array_at(member(event, "response"@), "output"@);
    argument_text(member(event, "item"@)) + item_texts(items, items.len() as int)
}

fn push_argument(out: &mut Vec<String>, item: &Json)
    ensures
        views(final(out)@) == views(old(out)@) + argument_text(item@),
{
    if text_is(item.str_at("type"), "function_call") {
        if let Some(text) = item.str_at("arguments") {
            out.push(text.to_owned());
        }
    }
    assert(views(out@) =~= views(old(out)@) + argument_text(item@));
}

pub fn argument_texts(event: &Json) -> (r: Vec<String>)
    ensures
        views(r@) == argument_texts_of(event@),
{
    let mut out: Vec<String> = Vec::new();
    assert(views(out@) =~= Seq::empty());
    let ghost first = argument_text(member(event@, "item"@));
    if let Some(item) = event.get("item") {
        push_argument(&mut out, item);
    }
    assert(views(out@) =~= first);
    let ghost items = array_at(member(event@, "response"@), "output"@);
    assert(first + item_texts(items, 0) =~= first);
    match event.get_in("response", "output") {
        Some(Json::Array(output)) => {
            proof {
                lemma_items_view(output@);
            }
            let mut i: usize = 0;
            while i < output.len()
                invariant
                    i <= output@.len(),
                    items == items_view(output@),
                    items.len() == output@.len(),
                    forall|k: int| 0 <= k < items.len() ==> #[trigger] items[k] == output@[k]@,
                    views(out@) == first + item_texts(items, i as int),
                decreases output@.len() - i,
            {
                assert(items[i as int] == output@[i as int]@);
                push_argument(&mut out, &output[i]);
                assert(first + item_texts(items, i as int) + argument_text(items[i as int])
                    =~= first + item_texts(items, i + 1));
                i += 1;
            }
        },
        _ => {},
    }
    out
}

// ---------------------------------------------------------------------------
// Events as they come in
// ---------------------------------------------------------------------------
/// What the texts hold that can be read.
pub open spec fn read_table(texts: Seq<Seq<char>>) -> Seq<(Seq<char>, JsonView)>
    decreases texts.len(),
{
    if texts.len() == 0 {
        Seq::empty()
    } else {
        let table = read_table(texts.drop_last());
        match json_document(texts.last()) {
            Ok(value) => table.push((texts.last(), value)),
            Err(_) => table,
        }
    }
}

/// What the texts of arguments in an event hold.
pub open spec fn event_table(event: JsonView) -> Seq<(Seq<char>, JsonView)> {
    read_table(argument_texts_of(event))
}

fn fill_table(texts: &Vec<String>) -> (r: Json)
    ensures
        r@ == JsonView::Object(read_table(views(texts@))),
{
    let ghost seen = views(texts@);
    let mut table: Vec<JsonEntry> = Vec::new();
    assert(seen.take(0) =~= Seq::empty());
    let mut i: usize = 0;
    while i < texts.len()
        invariant
            i <= texts@.len(),
            seen == views(texts@),
            entries_view(table@) == read_table(seen.take(i as int)),
        decreases texts@.len() - i,
    {
        proof {
            assert(seen[i as int] == texts@[i as int]@);
            assert(seen.take(i + 1).drop_last() =~= seen.take(i as int));
            assert(seen.take(i + 1).last() == seen[i as int]);
        }
        let text = texts[i].as_str();
        if let Ok(value) = read_json(text) {
            push_entry(&mut table, text, value);
        }
        i += 1;
    }
    assert(seen.take(i as int) =~= seen);
    Json::Object(table)
}

/// The response after the data of an event, and the piece of the message that it
/// brought; or what is wrong.
pub open spec fn after_data(state: StateView, data: Seq<char>, usage: Option<Usage>) -> Result<
    (StateView, Option<Seq<char>>),
    ErrorView,
> {
    if data == "[DONE]"@ {
        Ok((state, None))
    } else {
        match json_document(data) {
            Err(e) => Err(ErrorView::Protocol(e)),
            Ok(event) => after(state, event, usage, event_table(event)),
        }
    }
}

impl ResponseState {
    /// Takes the data of an event. Gives the piece of the message that it brought.
    /// `usage` is what was decoded of the usage that the event reports.
    pub fn consume_text(&mut self, data: &str, usage: Option<Usage>) -> (r: OpsResult<
        Option<String>,
    >)
        requires
            old(self).well_formed(),
        ensures
            final(self).well_formed(),
            match r {
                Ok(delta) => after_data(old(self)@, data@, usage) == Ok::<
                    (StateView, Option<Seq<char>>),
                    ErrorView,
                >((final(self)@, string_view(delta))),
                Err(e) => *final(self) == *old(self) && after_data(old(self)@, data@, usage)
                    == Err::<(StateView, Option<Seq<char>>), ErrorView>(e@),
            },
    {
        if is_end_mark(data) {
            return Ok(None);
        }
        let event = match read_json(data) {
            Ok(event) => event,
            Err(e) => return Err(OpsCodexError::Protocol(e)),
        };
        let table = fill_table(&argument_texts(&event));
        self.consume(&event, usage, &table)
    }
}

proof fn lemma_lookup_push(
    table: Seq<(Seq<char>, JsonView)>,
    entry: (Seq<char>, JsonView),
    key: Seq<char>,
)
    ensures
        lookup(table.push(entry), key) == match lookup(table, key) {
            Some(value) => Some(value),
            None => if entry.0 == key {
                Some(entry.1)
            } else {
                None
            },
        },
    decreases table.len(),
{
    let longer = table.push(entry);
    if table.len() == 0 {
        assert(longer.skip(1) =~= Seq::empty());
    } else {
        assert(longer.skip(1) =~= table.skip(1).push(entry));
        lemma_lookup_push(table.skip(1), entry, key);
    }
}

proof fn lemma_read_table(texts: Seq<Seq<char>>, text: Seq<char>)
    ensures
        lookup(read_table(texts), text) == if texts.contains(text) {
            match json_document(text) {
                Ok(value) => Some(value),
                Err(_) => None,
            }
        } else {
            None
        },
    decreases texts.len(),
{
    if texts.len() > 0 {
        let init = texts.drop_last();
        lemma_read_table(init, text);
        if let Ok(value) = json_document(texts.last()) {
            lemma_lookup_push(read_table(init), (texts.last(), value), text);
        }
        if texts.contains(text) {
            let k = texts.index_of(text);
            if k < texts.len() - 1 {
                assert(init[k] == text);
            }
        }
        if init.contains(text) {
            assert(texts[init.index_of(text)] == text);
        }
        assert(texts.last() == text ==> texts.contains(text)) by {
            assert(texts[texts.len() - 1] == texts.last());
        }
    }
}

proof fn lemma_item_texts(items: Seq<JsonView>, n: int, k: int, text: Seq<char>)
    requires
        0 <= k < n <= items.len(),
        is_function_call(items[k]),
        items[k].text_at("arguments"@) == Some(text),
    ensures
        item_texts(items, n).contains(text),
    decreases n,
{
    let before = item_texts(items, n - 1);
    let last = argument_text(items[n - 1]);
    if k < n - 1 {
        lemma_item_texts(items, n - 1, k, text);
        let i = before.index_of(text);
        assert((before + last)[i] == text);
    } else {
        assert((before + last)[before.len() as int] == text);
    }
}

/// The arguments of a call are what their text holds, and null where the text
/// holds nothing: of the item that an event brings, and of every item of a complete
/// response.
pub proof fn law_arguments_are_read_from_their_text(event: JsonView, item: JsonView)
    requires
        is_function_call(item),
        item == member(event, "item"@) || array_at(member(event, "response"@), "output"@).contains(
            item,
        ),
    ensures
        arguments_of(item, event_table(event)) == match item.text_at("arguments"@) {
            Some(text) => match json_document(text) {
                Ok(value) => value,
                Err(_) => JsonView::Null,
            },
            None => JsonView::Null,
        },
{
    if let Some(text) = item.text_at("arguments"@) {
        let first = argument_text(member(event, "item"@));
        let items = array_at(member(event, "response"@), "output"@);
        let rest = item_texts(items, items.len() as int);
        let texts = argument_texts_of(event);
        if item == member(event, "item"@) {
            assert(texts[0] == text);
        } else {
            let k = items.index_of(item);
            lemma_item_texts(items, items.len() as int, k, text);
            assert(texts[first.len() + rest.index_of(text)] == text);
        }
        assert(texts.contains(text));
        lemma_read_table(texts, text);
    }
}

/// A call that is reported again changes nothing.
pub proof fn law_calls_are_taken_once(
    outputs: Seq<OutputView>,
    item: JsonView,
    table: Seq<(Seq<char>, JsonView)>,
    later: Seq<(Seq<char>, JsonView)>,
)
    ensures
        with_call(with_call(outputs, item, table), item, later) == with_call(outputs, item, table),
{
    if let Some(id) = item.text_at("call_id"@) {
        let once = with_call(outputs, item, table);
        if !has_call(outputs, id) {
            assert(once[outputs.len() as int] matches OutputView::ToolCall(call_id, _, _) && call_id
                == id);
        }
        assert(has_call(once, id));
    }
}

} // verus!
