//! What a model is asked, and what is made of its answer, told piece by piece.
use vstd::prelude::*;
use vstd::utf8::{decode_utf8, encode_utf8, valid_utf8};

use crate::error::ErrorView;
use crate::json::JsonView;
use crate::json_law::law_the_first_entry_is_read;
use crate::json_map::map_text;
use crate::model::demo::{current_result, demo_outputs, last_result, offers, turn_start};
use crate::model::fake::messages_of;
use crate::model::openai::{
    after, all_outputs, arguments_of, array_at, body_entries, failure_text, item_entries, member,
    tool_entries, with_items, StateView,
};
use crate::model::provider::{
    ItemView, ModelItem, ModelOutput, ModelRequest, OutputView, ToolSchema, Usage,
};
use crate::model::sse::{boundary, data_fields, data_in, data_of, left_of, lines_of};
use crate::text::{
    find_from, lemma_find_from, matches_at, split, starts_with, trim_start, white_space,
};

verus! {

// ---------------------------------------------------------------------------
// Requests
// ---------------------------------------------------------------------------
/// An item of a request says who speaks, or which tool was called with what, or what a
/// call gave.
pub proof fn law_items_are_sent(item: ModelItem)
    ensures
        ({
            let sent = JsonView::Object(item_entries(item@));
            match item {
                ModelItem::UserMessage { content } => sent.text_at("role"@) == Some("user"@)
                    && sent.text_at("content"@) == Some(content@),
                ModelItem::AssistantMessage { content } => sent.text_at("role"@) == Some(
                    "assistant"@,
                ) && sent.text_at("content"@) == Some(content@),
                ModelItem::ToolCall { call_id, name, arguments } => sent.text_at("type"@) == Some(
                    "function_call"@,
                ) && sent.text_at("call_id"@) == Some(call_id@) && sent.text_at("name"@) == Some(
                    name@,
                ) && sent.text_at("arguments"@) == Some(map_text(arguments@)),
                ModelItem::ToolResult { call_id, output } => sent.text_at("type"@) == Some(
                    "function_call_output"@,
                ) && sent.text_at("call_id"@) == Some(call_id@) && sent.text_at("output"@) == Some(
                    map_text(output@),
                ),
            }
        }),
{
    reveal_strlit("content");
    reveal_strlit("role");
    reveal_strlit("arguments");
    reveal_strlit("call_id");
    reveal_strlit("name");
    reveal_strlit("output");
    reveal_strlit("type");
    assert("content"@.len() == 7 && "role"@.len() == 4 && "arguments"@.len() == 9);
    assert("call_id"@.len() == 7 && "name"@.len() == 4 && "output"@.len() == 6);
    assert("type"@.len() == 4 && "type"@[0] == 't' && "name"@[0] == 'n');
    let entries = item_entries(item@);
    match item {
        ModelItem::UserMessage { content } => {
            law_the_first_entry_is_read(entries, "content"@, 0);
            law_the_first_entry_is_read(entries, "role"@, 1);
        },
        ModelItem::AssistantMessage { content } => {
            law_the_first_entry_is_read(entries, "content"@, 0);
            law_the_first_entry_is_read(entries, "role"@, 1);
        },
        ModelItem::ToolCall { call_id, name, arguments } => {
            law_the_first_entry_is_read(entries, "arguments"@, 0);
            law_the_first_entry_is_read(entries, "call_id"@, 1);
            law_the_first_entry_is_read(entries, "name"@, 2);
            law_the_first_entry_is_read(entries, "type"@, 3);
        },
        ModelItem::ToolResult { call_id, output } => {
            law_the_first_entry_is_read(entries, "call_id"@, 0);
            law_the_first_entry_is_read(entries, "output"@, 1);
            law_the_first_entry_is_read(entries, "type"@, 2);
        },
    }
}

/// A request names the model, carries the instructions, every item and every tool in
/// order, and asks for a stream.
pub proof fn law_requests_are_sent(model: Seq<char>, request: ModelRequest)
    ensures
        ({
            let body = JsonView::Object(body_entries(model, request));
            &&& body.text_at("model"@) == Some(model)
            &&& body.text_at("instructions"@) == Some(request.instructions@)
            &&& body.get("stream"@) == Some(JsonView::Bool(true))
            &&& body.get("input"@) matches Some(JsonView::Array(items)) && items.len()
                == request.input@.len() && forall|i: int|
                0 <= i < items.len() ==> #[trigger] items[i] == JsonView::Object(
                    item_entries(request.input@[i]@),
                )
            &&& body.get("tools"@) matches Some(JsonView::Array(tools)) && tools.len()
                == request.tools@.len() && forall|i: int|
                0 <= i < tools.len() ==> (#[trigger] tools[i]).text_at("name"@) == Some(
                    request.tools@[i].name@,
                ) && tools[i].text_at("description"@) == Some(request.tools@[i].description@)
                    && tools[i].get("parameters"@) == Some(request.tools@[i].parameters@)
        }),
{
    reveal_strlit("input");
    reveal_strlit("instructions");
    reveal_strlit("model");
    reveal_strlit("stream");
    reveal_strlit("tools");
    assert("input"@.len() == 5 && "instructions"@.len() == 12 && "model"@.len() == 5);
    assert("stream"@.len() == 6 && "tools"@.len() == 5);
    assert("input"@[0] == 'i' && "model"@[0] == 'm' && "tools"@[0] == 't');
    let entries = body_entries(model, request);
    law_the_first_entry_is_read(entries, "input"@, 0);
    law_the_first_entry_is_read(entries, "instructions"@, 1);
    law_the_first_entry_is_read(entries, "model"@, 2);
    law_the_first_entry_is_read(entries, "stream"@, 3);
    law_the_first_entry_is_read(entries, "tools"@, 4);
    let tools = entries[4].1->Array_0;
    assert forall|i: int| 0 <= i < tools.len() implies (#[trigger] tools[i]).text_at("name"@)
        == Some(request.tools@[i].name@) && tools[i].text_at("description"@) == Some(
        request.tools@[i].description@,
    ) && tools[i].get("parameters"@) == Some(request.tools@[i].parameters@) by {
        lemma_tool(request.tools@[i]);
    }
}

proof fn lemma_tool(tool: ToolSchema)
    ensures
        ({
            let sent = JsonView::Object(tool_entries(tool));
            &&& sent.text_at("name"@) == Some(tool.name@)
            &&& sent.text_at("description"@) == Some(tool.description@)
            &&& sent.get("parameters"@) == Some(tool.parameters@)
        }),
{
    reveal_strlit("description");
    reveal_strlit("name");
    reveal_strlit("parameters");
    assert("description"@.len() == 11 && "name"@.len() == 4 && "parameters"@.len() == 10);
    let entries = tool_entries(tool);
    law_the_first_entry_is_read(entries, "description"@, 0);
    law_the_first_entry_is_read(entries, "name"@, 1);
    law_the_first_entry_is_read(entries, "parameters"@, 2);
}

// ---------------------------------------------------------------------------
// Answers
// ---------------------------------------------------------------------------
proof fn lemma_kinds()
    ensures
        "response.output_text.delta"@.len() == 26,
        "response.output_item.done"@.len() == 25,
        "response.completed"@.len() == 18,
        "error"@.len() == 5,
        "response.failed"@.len() == 15,
        "response.incomplete"@.len() == 19,
{
    reveal_strlit("response.output_text.delta");
    reveal_strlit("response.output_item.done");
    reveal_strlit("response.completed");
    reveal_strlit("error");
    reveal_strlit("response.failed");
    reveal_strlit("response.incomplete");
}

/// What an event of an answer does. A piece of text is put behind what came before it
/// and handed on; a call is taken with its identifier, its name and its arguments; an
/// answer that failed or was cut off is an error; other events change nothing.
pub proof fn law_answers_are_put_together(
    state: StateView,
    event: JsonView,
    usage: Option<Usage>,
    table: Seq<(Seq<char>, JsonView)>,
)
    ensures
        event.text_at("type"@) == Some("response.output_text.delta"@) ==> (event.text_at("delta"@)
            matches Some(delta) ==> (after(state, event, usage, table) matches Ok((next, told))
            && told == Some(delta) && next.message == state.message + delta && next.outputs
            == state.outputs && next.response_id == state.response_id)),
        event.text_at("type"@) == Some("response.output_item.done"@) && event.get("item"@)
            is Some && event.get("item"@)->0.text_at("type"@) == Some("function_call"@)
            && event.get("item"@)->0.text_at("call_id"@) is Some && event.get("item"@)->0.text_at(
            "name"@,
        ) is Some && !(exists|i: int|
            0 <= i < state.outputs.len() && (#[trigger] state.outputs[i] matches
                OutputView::ToolCall(call_id, _, _) && call_id == event.get("item"@)->0.text_at(
                "call_id"@,
            )->0)) ==> (after(state, event, usage, table) matches Ok((next, told)) && told is None
            && next.message == state.message && next.outputs == state.outputs.push(
            OutputView::ToolCall(
                event.get("item"@)->0.text_at("call_id"@)->0,
                event.get("item"@)->0.text_at("name"@)->0,
                arguments_of(event.get("item"@)->0, table),
            ),
        )),
        event.text_at("type"@) == Some("error"@) || event.text_at("type"@) == Some(
            "response.failed"@,
        ) || event.text_at("type"@) == Some("response.incomplete"@) ==> (after(
            state,
            event,
            usage,
            table,
        ) matches Err(e) && e is Model),
        after(state, event, usage, table) is Err ==> event.text_at("type"@) == Some("error"@)
            || event.text_at("type"@) == Some("response.failed"@) || event.text_at("type"@) == Some(
            "response.incomplete"@,
        ),
        event.text_at("type"@) == Some("response.completed"@) ==> (after(
            state,
            event,
            usage,
            table,
        ) matches Ok((next, told)) && told is None && (event.get("response"@) is Some
            ==> next.response_id == event.get("response"@)->0.text_at("id"@)) && (usage is Some
            ==> next.usage == usage->0) && (state.message.len() > 0 ==> next.message
            == state.message)),
        event.text_at("type"@) is None ==> after(state, event, usage, table) == Ok::<
            (StateView, Option<Seq<char>>),
            ErrorView,
        >((state, None)),
{
    lemma_kinds();
    if event.text_at("type"@) == Some("response.completed"@) {
        let items = array_at(member(event, "response"@), "output"@);
        lemma_message_kept(state.message, state.outputs, items, table, items.len() as int);
    }
}

proof fn lemma_message_kept(
    message: Seq<char>,
    outputs: Seq<OutputView>,
    items: Seq<JsonView>,
    table: Seq<(Seq<char>, JsonView)>,
    n: int,
)
    ensures
        message.len() > 0 ==> with_items(message, outputs, items, table, n).0 == message,
    decreases n,
{
    if n > 0 {
        lemma_message_kept(message, outputs, items, table, n - 1);
    }
}

/// What is told of an error is the message that it carries.
pub proof fn law_failures_are_told(event: JsonView, text: Seq<char>)
    ensures
        event.get_in("error"@, "message"@) == Some(JsonView::Text(text)) ==> failure_text(event)
            == text,
        event.get("error"@) is None && event.get("response"@) is Some && event.get(
            "response"@,
        )->0.get_in("error"@, "message"@) == Some(JsonView::Text(text)) ==> failure_text(event)
            == text,
{
}

/// An answer is given as its text, where it has any, and then its calls in order.
pub proof fn law_text_comes_before_calls(state: StateView)
    ensures
        state.message.len() == 0 ==> all_outputs(state) == state.outputs,
        state.message.len() > 0 ==> all_outputs(state).len() == state.outputs.len() + 1
            && all_outputs(state)[0] == OutputView::Message(state.message) && all_outputs(
            state,
        ).skip(1) == state.outputs,
{
    if state.message.len() > 0 {
        assert(all_outputs(state).skip(1) =~= state.outputs);
    }
}

// ---------------------------------------------------------------------------
// Streams
// ---------------------------------------------------------------------------
proof fn lemma_one_line(text: Seq<char>)
    requires
        !text.contains('\n'),
    ensures
        split(text, '\n') == seq![text],
    decreases text.len(),
{
    if text.len() > 0 {
        let init = text.drop_last();
        assert(text.last() != '\n') by {
            assert(text.contains(text[text.len() - 1]));
        }
        assert(!init.contains('\n')) by {
            if init.contains('\n') {
                let i = init.index_of('\n');
                assert(text[i] == '\n');
            }
        }
        lemma_one_line(init);
        assert(init.push(text.last()) =~= text);
        assert(split(text, '\n') =~= seq![text]);
    } else {
        assert(text =~= Seq::empty());
    }
}

/// A frame of one line of data gives that data.
pub proof fn law_data_is_read_from_its_frame(data: Seq<char>)
    requires
        data.len() > 0,
        !data.contains('\n'),
        !white_space(data[0]),
    ensures
        data_of(encode_utf8("data: "@ + data)) == Ok::<Option<Seq<char>>, ErrorView>(Some(data)),
{
    let line = "data: "@ + data;
    let frame = encode_utf8(line);
    reveal_strlit("data: ");
    reveal_strlit("data:");
    vstd::utf8::encode_utf8_valid_utf8(line);
    vstd::utf8::encode_utf8_decode_utf8(line);
    assert(!line.contains('\n')) by {
        if line.contains('\n') {
            let i = line.index_of('\n');
            if i >= 6 {
                assert(data[i - 6] == '\n');
                assert(data.contains('\n'));
            } else {
                assert("data: "@[i] == '\n');
            }
        }
    }
    lemma_one_line(line);
    let lines = lines_of(line);
    assert(lines =~= seq![line]);
    assert(line.subrange(0, 5) =~= "data:"@);
    assert(starts_with(line, "data:"@));
    let rest = line.skip(5);
    assert(rest[0] == ' ');
    assert(rest.skip(1) =~= data);
    assert(trim_start(data) == data);
    assert(trim_start(rest) == trim_start(rest.skip(1)));
    assert(lines.drop_last() =~= Seq::empty());
    assert(data_fields(Seq::empty()).len() == 0);
    assert(lines.last() == line);
    assert(trim_start(lines.last().skip("data:"@.len() as int)) == data);
    assert(data_fields(lines) =~= seq![data]);
}

proof fn lemma_first_match<T>(head: Seq<T>, rest: Seq<T>, mark: Seq<T>)
    requires
        mark.len() > 0,
        forall|i: int| 0 <= i < head.len() ==> #[trigger] head[i] != mark[0],
    ensures
        find_from(head + mark + rest, mark, 0) == Some(head.len() as int),
{
    let s = head + mark + rest;
    let n = head.len() as int;
    assert(s.subrange(n, n + mark.len()) =~= mark);
    assert(matches_at(s, mark, n));
    lemma_find_from(s, mark, 0);
    let at = find_from(s, mark, 0)->0;
    assert(at <= n);
    if at < n {
        assert(s.subrange(at, at + mark.len())[0] == s[at]);
        assert(s[at] == head[at]);
    }
}

proof fn lemma_cut(bytes: Seq<u8>, head: Seq<u8>, rest: Seq<u8>)
    requires
        bytes == head + seq![10u8, 10u8] + rest,
        !head.contains(10u8),
    ensures
        boundary(bytes) == Some((head.len() as int, 2int)),
        bytes.take(head.len() as int) == head,
        bytes.skip(head.len() as int + 2) == rest,
{
    let mark = seq![10u8, 10u8];
    assert forall|i: int| 0 <= i < head.len() implies #[trigger] head[i] != mark[0] by {
        assert(head.contains(head[i]));
    }
    lemma_first_match(head, rest, mark);
    assert(bytes.take(head.len() as int) =~= head);
    assert(bytes.skip(head.len() as int + 2) =~= rest);
}

/// A stream is cut at its first blank line: what stands before it is one frame, and
/// what stands behind it is read on.
pub proof fn law_streams_are_cut_at_blank_lines(
    bytes: Seq<u8>,
    head: Seq<u8>,
    rest: Seq<u8>,
    data: Seq<char>,
)
    requires
        bytes == head + seq![10u8, 10u8] + rest,
        !head.contains(10u8),
        data_of(head) == Ok::<Option<Seq<char>>, ErrorView>(Some(data)),
        data_in(rest) is Ok,
    ensures
        boundary(bytes) == Some((head.len() as int, 2int)),
        data_in(bytes) == Ok::<Seq<Seq<char>>, ErrorView>(seq![data] + data_in(rest)->Ok_0),
        left_of(bytes) == left_of(rest),
{
    lemma_cut(bytes, head, rest);
}

// ---------------------------------------------------------------------------
// Providers without a service
// ---------------------------------------------------------------------------
proof fn lemma_turn_start(items: Seq<ItemView>, n: int, at: int)
    requires
        0 <= at < n <= items.len(),
        items[at] is UserMessage,
        forall|i: int| at < i < n ==> !(#[trigger] items[i] is UserMessage),
    ensures
        turn_start(items, n) == at,
    decreases n,
{
    if at < n - 1 {
        assert(!(items[n - 1] is UserMessage));
        lemma_turn_start(items, n - 1, at);
    }
}

proof fn lemma_last_result(items: Seq<ItemView>, start: int, n: int, at: int)
    requires
        0 <= start <= n <= items.len(),
        start <= at <= n,
        at < n ==> items[at] is ToolResult,
        forall|i: int| (if at < n {
            at + 1
        } else {
            start
        }) <= i < n ==> !(#[trigger] items[i] is ToolResult),
    ensures
        at < n ==> last_result(items, start, n) == Some(items[at]->ToolResult_1),
        at == n ==> last_result(items, start, n) is None,
    decreases n,
{
    if at < n - 1 {
        assert(!(items[n - 1] is ToolResult));
        lemma_last_result(items, start, n - 1, at);
    } else if at == n && n > start {
        assert(!(items[n - 1] is ToolResult));
        lemma_last_result(items, start, n - 1, n - 1);
    }
}

/// The local provider asks for one probe, where it is offered, before the current turn
/// has a result, and none after it. The turn began at the last thing that the user
/// said; `result` is the place of the last result behind it, if there is one.
pub proof fn law_the_demo_probes_once(
    items: Seq<ItemView>,
    tools: Seq<ToolSchema>,
    call: u128,
    began: int,
    result: int,
)
    requires
        0 <= began < items.len(),
        items[began] is UserMessage,
        forall|i: int| began < i < items.len() ==> !(#[trigger] items[i] is UserMessage),
        began <= result <= items.len(),
        result < items.len() ==> items[result] is ToolResult,
        forall|i: int|
            (if result < items.len() {
                result + 1
            } else {
                began
            }) <= i < items.len() ==> !(#[trigger] items[i] is ToolResult),
    ensures
        result < items.len() ==> current_result(items) == Some(items[result]->ToolResult_1)
            && demo_outputs(items, tools, call).len() == 1 && demo_outputs(items, tools, call)[0]
            is Message,
        result == items.len() && (exists|i: int|
            0 <= i < tools.len() && (#[trigger] tools[i]).name@ == "http_get"@) ==> demo_outputs(
            items,
            tools,
            call,
        ).len() == 2 && (demo_outputs(items, tools, call)[1] matches OutputView::ToolCall(
            _,
            name,
            arguments,
        ) && name == "http_get"@ && arguments.text_at("url"@) == Some(
            "http://localhost:8080/health"@,
        )),
        result == items.len() && !(exists|i: int|
            0 <= i < tools.len() && (#[trigger] tools[i]).name@ == "http_get"@) ==> demo_outputs(
            items,
            tools,
            call,
        ).len() == 1 && demo_outputs(items, tools, call)[0] is Message,
{
    let n = items.len() as int;
    lemma_turn_start(items, n, began);
    lemma_last_result(items, began, n, result);
    if result == n && offers(tools, "http_get"@) {
        let arguments = demo_outputs(items, tools, call)[1]->ToolCall_2;
        law_the_first_entry_is_read(arguments->Object_0, "url"@, 0);
    }
}

/// What a scripted answer says piece by piece is what its messages say, in order.
pub proof fn law_scripted_messages_are_told(outputs: Seq<ModelOutput>, next: ModelOutput)
    ensures
        messages_of(Seq::empty()).len() == 0,
        match next {
            ModelOutput::Message { content } => messages_of(outputs.push(next)) == messages_of(
                outputs,
            ).push(content),
            ModelOutput::ToolCall { .. } => messages_of(outputs.push(next)) == messages_of(outputs),
        },
{
    assert(outputs.push(next).drop_last() =~= outputs);
}

} // verus!
