//! Requests to a model and what it answers.
use vstd::prelude::*;

use crate::json::{entries_view, push_entry, Json, JsonEntry, JsonView};
use crate::text::{contains, contains_str, same};

verus! {

#[derive(Debug)]
pub enum ModelItem {
    UserMessage { content: String },
    AssistantMessage { content: String },
    ToolCall { call_id: String, name: String, arguments: Json },
    ToolResult { call_id: String, output: Json },
}

/// What an item says.
#[verifier::ext_equal]
pub enum ItemView {
    UserMessage(Seq<char>),
    AssistantMessage(Seq<char>),
    ToolCall(Seq<char>, Seq<char>, JsonView),
    ToolResult(Seq<char>, JsonView),
}

impl ItemView {
    /// The item is a call with this identifier.
    pub open spec fn is_call(self, id: Seq<char>) -> bool {
        self matches ItemView::ToolCall(call_id, _, _) && call_id == id
    }

    /// The item is a result of the call with this identifier.
    pub open spec fn is_result(self, id: Seq<char>) -> bool {
        self matches ItemView::ToolResult(call_id, _) && call_id == id
    }

    /// The item is a call or a result.
    pub open spec fn is_tool(self) -> bool {
        self is ToolCall || self is ToolResult
    }

    /// The entries of the JSON form: the type of the item, then its fields.
    pub open spec fn entries(self) -> Seq<(Seq<char>, JsonView)> {
        match self {
            ItemView::UserMessage(content) => seq![
                ("type"@, JsonView::Text("user_message"@)),
                ("content"@, JsonView::Text(content)),
            ],
            ItemView::AssistantMessage(content) => seq![
                ("type"@, JsonView::Text("assistant_message"@)),
                ("content"@, JsonView::Text(content)),
            ],
            ItemView::ToolCall(call_id, name, arguments) => seq![
                ("type"@, JsonView::Text("tool_call"@)),
                ("call_id"@, JsonView::Text(call_id)),
                ("name"@, JsonView::Text(name)),
                ("arguments"@, arguments),
            ],
            ItemView::ToolResult(call_id, output) => seq![
                ("type"@, JsonView::Text("tool_result"@)),
                ("call_id"@, JsonView::Text(call_id)),
                ("output"@, output),
            ],
        }
    }

    /// The JSON form of the item.
    pub open spec fn json(self) -> JsonView {
        JsonView::Object(self.entries())
    }
}

/// The views of a list of items.
pub open spec fn item_views(items: Seq<ModelItem>) -> Seq<ItemView> {
    items.map_values(|item: ModelItem| item@)
}

impl ModelItem {
    pub open spec fn view(&self) -> ItemView {
        match self {
            ModelItem::UserMessage { content } => ItemView::UserMessage(content@),
            ModelItem::AssistantMessage { content } => ItemView::AssistantMessage(content@),
            ModelItem::ToolCall { call_id, name, arguments } => ItemView::ToolCall(
                call_id@,
                name@,
                arguments@,
            ),
            ModelItem::ToolResult { call_id, output } => ItemView::ToolResult(call_id@, output@),
        }
    }

    pub fn is_tool_result(&self, expected_call_id: &str) -> (r: bool)
        ensures
            r == self@.is_result(expected_call_id@),
    {
        match self {
            ModelItem::ToolResult { call_id, .. } => same(call_id.as_str(), expected_call_id),
            _ => false,
        }
    }

    pub fn message_contains(&self, needle: &str) -> (r: bool)
        ensures
            r == (self@ matches ItemView::AssistantMessage(content) && contains(content, needle@)),
    {
        match self {
            ModelItem::AssistantMessage { content } => contains_str(content.as_str(), needle),
            _ => false,
        }
    }

    /// The JSON form of the item.
    pub fn to_json(&self) -> (r: Json)
        ensures
            r@ == self@.json(),
    {
        let mut entries: Vec<JsonEntry> = Vec::new();
        match self {
            ModelItem::UserMessage { content } => {
                push_entry(&mut entries, "type", Json::text("user_message"));
                push_entry(&mut entries, "content", Json::text(content.as_str()));
            },
            ModelItem::AssistantMessage { content } => {
                push_entry(&mut entries, "type", Json::text("assistant_message"));
                push_entry(&mut entries, "content", Json::text(content.as_str()));
            },
            ModelItem::ToolCall { call_id, name, arguments } => {
                push_entry(&mut entries, "type", Json::text("tool_call"));
                push_entry(&mut entries, "call_id", Json::text(call_id.as_str()));
                push_entry(&mut entries, "name", Json::text(name.as_str()));
                push_entry(&mut entries, "arguments", arguments.clone());
            },
            ModelItem::ToolResult { call_id, output } => {
                push_entry(&mut entries, "type", Json::text("tool_result"));
                push_entry(&mut entries, "call_id", Json::text(call_id.as_str()));
                push_entry(&mut entries, "output", output.clone());
            },
        }
        assert(entries_view(entries@) =~= self@.entries());
        Json::Object(entries)
    }
}

impl Clone for ModelItem {
    fn clone(&self) -> (r: Self)
        ensures
            r@ == self@,
    {
        match self {
            ModelItem::UserMessage { content } => ModelItem::UserMessage {
                content: content.clone(),
            },
            ModelItem::AssistantMessage { content } => ModelItem::AssistantMessage {
                content: content.clone(),
            },
            ModelItem::ToolCall { call_id, name, arguments } => ModelItem::ToolCall {
                call_id: call_id.clone(),
                name: name.clone(),
                arguments: arguments.clone(),
            },
            ModelItem::ToolResult { call_id, output } => ModelItem::ToolResult {
                call_id: call_id.clone(),
                output: output.clone(),
            },
        }
    }
}

#[derive(Debug)]
pub struct ToolSchema {
    pub name: String,
    pub description: String,
    pub parameters: Json,
}

#[derive(Debug)]
pub struct ModelRequest {
    pub instructions: String,
    pub input: Vec<ModelItem>,
    pub tools: Vec<ToolSchema>,
}

#[derive(Debug)]
pub enum ModelOutput {
    Message { content: String },
    ToolCall { call_id: String, name: String, arguments: Json },
}

/// What a model put out.
#[verifier::ext_equal]
pub enum OutputView {
    Message(Seq<char>),
    ToolCall(Seq<char>, Seq<char>, JsonView),
}

impl ModelOutput {
    pub open spec fn view(&self) -> OutputView {
        match self {
            ModelOutput::Message { content } => OutputView::Message(content@),
            ModelOutput::ToolCall { call_id, name, arguments } => OutputView::ToolCall(
                call_id@,
                name@,
                arguments@,
            ),
        }
    }
}

/// The views of a list of outputs.
pub open spec fn output_views(outputs: Seq<ModelOutput>) -> Seq<OutputView> {
    outputs.map_values(|output: ModelOutput| output@)
}

#[derive(Clone, Copy, Debug, PartialEq, Eq, Structural)]
pub struct Usage {
    pub input_tokens: u64,
    pub output_tokens: u64,
    pub total_tokens: u64,
}

impl Default for Usage {
    fn default() -> (r: Self)
        ensures
            r == (Usage { input_tokens: 0, output_tokens: 0, total_tokens: 0 }),
    {
        Usage { input_tokens: 0, output_tokens: 0, total_tokens: 0 }
    }
}

#[derive(Debug)]
pub struct ModelResponse {
    pub outputs: Vec<ModelOutput>,
    pub response_id: Option<String>,
    pub usage: Usage,
}

impl ModelResponse {
    pub fn new(outputs: Vec<ModelOutput>) -> (r: Self)
        ensures
            r.outputs == outputs,
            r.response_id is None,
            r.usage == (Usage { input_tokens: 0, output_tokens: 0, total_tokens: 0 }),
    {
        ModelResponse { outputs, response_id: None, usage: Usage::default() }
    }
}

#[derive(Debug)]
pub enum ModelEvent {
    MessageDelta(String),
}

#[derive(Clone, Copy, Debug, PartialEq, Eq, Structural)]
pub struct ModelCapabilities {
    pub streaming: bool,
    pub tool_calls: bool,
    pub parallel_calls: bool,
    pub usage: bool,
    pub reasoning_control: bool,
    pub continuation: bool,
    pub request_idempotency: bool,
    pub structured_output: bool,
}

impl ModelCapabilities {
    pub fn openai_responses() -> (r: Self)
        ensures
            r == (ModelCapabilities {
                streaming: true,
                tool_calls: true,
                parallel_calls: true,
                usage: true,
                reasoning_control: true,
                continuation: false,
                request_idempotency: false,
                structured_output: false,
            }),
    {
        ModelCapabilities {
            streaming: true,
            tool_calls: true,
            parallel_calls: true,
            usage: true,
            reasoning_control: true,
            continuation: false,
            request_idempotency: false,
            structured_output: false,
        }
    }

    pub fn fake() -> (r: Self)
        ensures
            r == (ModelCapabilities {
                streaming: true,
                tool_calls: true,
                parallel_calls: false,
                usage: false,
                reasoning_control: false,
                continuation: false,
                request_idempotency: false,
                structured_output: false,
            }),
    {
        ModelCapabilities {
            streaming: true,
            tool_calls: true,
            parallel_calls: false,
            usage: false,
            reasoning_control: false,
            continuation: false,
            request_idempotency: false,
            structured_output: false,
        }
    }
}

} // verus!
