use opscodex::error::OpsCodexError;
use opscodex::json::{Json, JsonEntry};
use opscodex::model::demo::DemoModelProvider;
use opscodex::model::fake::{message_deltas, FakeModelProvider};
use opscodex::model::openai::{
    argument_texts, http_failure, is_end_mark, model_item_json, OpenAIResponsesProvider,
    ResponseState,
};
use opscodex::model::provider::{
    ModelCapabilities, ModelItem, ModelOutput, ModelRequest, ModelResponse, ToolSchema, Usage,
};
use opscodex::model::sse::{frame_boundary, frame_data, SseDecoder};
use opscodex::runtime::context::{build_model_context, drop_unpaired, pair_calls, ContextBudget};

fn object(entries: Vec<(&str, Json)>) -> Json {
    Json::Object(
        entries
            .into_iter()
            .map(|(key, value)| JsonEntry { key: key.to_owned(), value })
            .collect(),
    )
}

fn user(text: &str) -> ModelItem {
    ModelItem::UserMessage { content: text.to_owned() }
}

fn call(id: &str) -> ModelItem {
    ModelItem::ToolCall {
        call_id: id.to_owned(),
        name: "http_get".to_owned(),
        arguments: object(vec![("url", Json::text("u"))]),
    }
}

fn result(id: &str) -> ModelItem {
    ModelItem::ToolResult { call_id: id.to_owned(), output: object(vec![("ok", Json::Bool(true))]) }
}

fn request(input: Vec<ModelItem>, tools: Vec<&str>) -> ModelRequest {
    ModelRequest {
        instructions: "do".to_owned(),
        input,
        tools: tools
            .into_iter()
            .map(|name| ToolSchema {
                name: name.to_owned(),
                description: "d".to_owned(),
                parameters: object(vec![("type", Json::text("object"))]),
            })
            .collect(),
    }
}

#[test]
fn events_are_found_in_any_pieces() {
    let bytes = b"event: x\ndata: {\"a\":1}\n\ndata:two\ndata:  lines\n\n: note\n\ndata: last".to_vec();
    let mut whole = SseDecoder::default();
    let mut expected = whole.push(&bytes).unwrap();
    expected.extend(whole.finish().unwrap());
    assert_eq!(expected, vec!["{\"a\":1}", "two\nlines", "last"]);
    for cut in 0..bytes.len() {
        let mut decoder = SseDecoder::default();
        let mut found = decoder.push(&bytes[..cut].to_vec()).unwrap();
        found.extend(decoder.push(&bytes[cut..].to_vec()).unwrap());
        found.extend(decoder.finish().unwrap());
        assert_eq!(found, expected);
    }
}

#[test]
fn events_may_be_separated_by_returns() {
    let mut decoder = SseDecoder::default();
    assert_eq!(
        decoder.push(&b"data: a\r\ndata: b\r\n\r\nrest".to_vec()).unwrap(),
        vec!["a\nb"]
    );
    assert_eq!(decoder.buffer, b"rest");
    assert_eq!(frame_boundary(&b"x\r\n\r\ny\n\nz".to_vec()), Some((6, 2)));
    assert_eq!(frame_boundary(&b"x\r\n\r\ny".to_vec()), Some((1, 4)));
    assert_eq!(frame_boundary(&b"x\n".to_vec()), None);
}

#[test]
fn bytes_that_are_no_text_are_reported() {
    let bytes = vec![0x64, 0xff];
    let expected = std::str::from_utf8(&bytes).unwrap_err().to_string();
    match frame_data(&bytes) {
        Err(OpsCodexError::Protocol(message)) => assert_eq!(message, expected),
        other => panic!("unexpected {:?}", other),
    }
    assert_eq!(frame_data(&"data: ä".as_bytes().to_vec()).unwrap().as_deref(), Some("ä"));
    assert_eq!(frame_data(&b"data:".to_vec()).unwrap(), None);
    let mut decoder = SseDecoder::default();
    assert!(decoder.push(&vec![0xff, 10, 10, 97]).is_err());
    assert_eq!(decoder.buffer, b"a");
}

#[test]
fn request_body_is_written_in_order() {
    let provider = OpenAIResponsesProvider::new("k".to_owned(), "m".to_owned())
        .with_endpoint("http://localhost".to_owned());
    assert_eq!(provider.endpoint, "http://localhost");
    let body = provider.request_body(&request(vec![user("hi"), call("c1"), result("c1")], vec!["t"]));
    assert_eq!(
        body.to_text(),
        "{\"input\":[{\"content\":\"hi\",\"role\":\"user\"},{\"arguments\":\"{\\\"url\\\":\\\"u\\\"}\",\"call_id\":\"c1\",\"name\":\"http_get\",\"type\":\"function_call\"},{\"call_id\":\"c1\",\"output\":\"{\\\"ok\\\":true}\",\"type\":\"function_call_output\"}],\"instructions\":\"do\",\"model\":\"m\",\"stream\":true,\"tools\":[{\"description\":\"d\",\"name\":\"t\",\"parameters\":{\"type\":\"object\"},\"type\":\"function\"}]}"
    );
    assert_eq!(
        model_item_json(&ModelItem::AssistantMessage { content: "x".to_owned() }).to_text(),
        "{\"content\":\"x\",\"role\":\"assistant\"}"
    );
}

fn function_call(id: &str, arguments: &str) -> Json {
    object(vec![
        ("type", Json::text("function_call")),
        ("call_id", Json::text(id)),
        ("name", Json::text("http_get")),
        ("arguments", Json::text(arguments)),
    ])
}

#[test]
fn response_is_put_together() {
    let table = object(vec![("{}", object(vec![]))]);
    let mut state = ResponseState::default();
    let delta = object(vec![
        ("type", Json::text("response.output_text.delta")),
        ("delta", Json::text("Hel")),
    ]);
    assert_eq!(state.consume(&delta, None, &table).unwrap().as_deref(), Some("Hel"));
    let done = object(vec![
        ("type", Json::text("response.output_item.done")),
        ("item", function_call("c1", "{}")),
    ]);
    assert_eq!(argument_texts(&done), vec!["{}"]);
    assert_eq!(state.consume(&done, None, &table).unwrap(), None);
    let completed = object(vec![
        ("type", Json::text("response.completed")),
        (
            "response",
            object(vec![
                ("id", Json::text("r1")),
                (
                    "output",
                    Json::Array(vec![function_call("c1", "{}"), function_call("c2", "broken")]),
                ),
            ]),
        ),
    ]);
    assert_eq!(argument_texts(&completed), vec!["{}", "broken"]);
    let usage = Usage { input_tokens: 1, output_tokens: 2, total_tokens: 3 };
    state.consume(&completed, Some(usage), &table).unwrap();
    let response = state.finish();
    assert_eq!(response.response_id.as_deref(), Some("r1"));
    assert_eq!(response.usage, usage);
    assert_eq!(response.outputs.len(), 3);
    assert!(matches!(&response.outputs[0], ModelOutput::Message { content } if content == "Hel"));
    assert!(matches!(&response.outputs[1], ModelOutput::ToolCall { call_id, .. } if call_id == "c1"));
    assert!(matches!(
        &response.outputs[2],
        ModelOutput::ToolCall { call_id, arguments: Json::Null, .. } if call_id == "c2"
    ));
}

#[test]
fn message_of_a_complete_response_is_used_without_pieces() {
    let mut state = ResponseState::default();
    let completed = object(vec![
        ("type", Json::text("response.completed")),
        (
            "response",
            object(vec![(
                "output",
                Json::Array(vec![object(vec![
                    ("type", Json::text("message")),
                    (
                        "content",
                        Json::Array(vec![
                            object(vec![("text", Json::text("a"))]),
                            object(vec![("text", Json::text("b"))]),
                        ]),
                    ),
                ])]),
            )]),
        ),
    ]);
    state.consume(&completed, None, &Json::Null).unwrap();
    let response = state.finish();
    assert!(matches!(&response.outputs[0], ModelOutput::Message { content } if content == "ab"));
    assert_eq!(response.response_id, None);
}

#[test]
fn failed_response_says_why() {
    let fail = |entries: Vec<(&str, Json)>| {
        let mut all = vec![("type", Json::text("response.failed"))];
        all.extend(entries);
        ResponseState::default()
            .consume(&object(all), None, &Json::Null)
            .unwrap_err()
            .to_string()
    };
    let message = |text: &str| object(vec![("message", Json::text(text))]);
    assert_eq!(fail(vec![("error", message("a")), ("message", Json::text("b"))]), "model error: a");
    assert_eq!(
        fail(vec![("response", object(vec![("error", message("c"))]))]),
        "model error: c"
    );
    assert_eq!(
        fail(vec![(
            "response",
            object(vec![("incomplete_details", object(vec![("reason", Json::text("len"))]))])
        )]),
        "model error: len"
    );
    assert_eq!(fail(vec![("message", Json::text("m"))]), "model error: m");
    assert_eq!(fail(vec![]), "model error: OpenAI Responses API failed");
    assert_eq!(
        http_failure("404 Not Found", "x").to_string(),
        "model error: HTTP 404 Not Found: x"
    );
    assert!(is_end_mark("[DONE]"));
    assert!(!is_end_mark("{}"));
}

#[test]
fn demo_model_probes_and_then_reports() {
    let model = DemoModelProvider;
    let asked = request(vec![user("why?")], vec!["http_get"]);
    let first = model.complete(&asked, false, 7).unwrap();
    assert_eq!(first.outputs.len(), 2);
    match &first.outputs[1] {
        ModelOutput::ToolCall { call_id, name, arguments } => {
            assert_eq!(call_id, "call_00000000-0000-0000-0000-000000000007");
            assert_eq!(name, "http_get");
            assert_eq!(arguments.str_at("url"), Some("http://localhost:8080/health"));
        }
        other => panic!("unexpected {:?}", other),
    }
    let told = request(vec![user("why?"), call("c1"), result("c1")], vec!["http_get"]);
    let second = model.complete(&told, false, 8).unwrap();
    assert!(matches!(&second.outputs[0], ModelOutput::Message { content }
        if content.contains("http_get returned: {\"ok\":true}\n")));
    let later = request(vec![user("a"), call("c1"), result("c1"), user("b")], vec!["http_get"]);
    assert_eq!(model.complete(&later, false, 9).unwrap().outputs.len(), 2);
    let bare = model.complete(&request(vec![user("a")], vec![]), false, 9).unwrap();
    assert!(matches!(&bare.outputs[0], ModelOutput::Message { content }
        if content.contains("No tool evidence was available.")));
    assert!(matches!(model.complete(&asked, true, 7), Err(OpsCodexError::Cancelled)));
}

#[test]
fn fake_model_answers_from_its_list() {
    let mut model = FakeModelProvider::new(vec![ModelResponse::new(vec![
        ModelOutput::Message { content: "one".to_owned() },
        ModelOutput::ToolCall { call_id: "c".to_owned(), name: "t".to_owned(), arguments: Json::Null },
        ModelOutput::Message { content: "two".to_owned() },
    ])]);
    let response = model.complete(request(vec![user("a")], vec![]), false).unwrap();
    assert_eq!(message_deltas(&response), vec!["one", "two"]);
    assert_eq!(model.requests().len(), 1);
    assert_eq!(
        model.complete(request(vec![], vec![]), false).unwrap_err().to_string(),
        "model error: fake response queue exhausted"
    );
    assert!(matches!(
        model.complete(request(vec![], vec![]), true),
        Err(OpsCodexError::Cancelled)
    ));
    assert_eq!(model.requests().len(), 2);
}

#[test]
fn capabilities_differ() {
    assert!(ModelCapabilities::openai_responses().reasoning_control);
    assert!(!ModelCapabilities::fake().reasoning_control);
    assert!(result("c").is_tool_result("c"));
    assert_eq!(
        call("c").to_json().to_text(),
        "{\"type\":\"tool_call\",\"call_id\":\"c\",\"name\":\"http_get\",\"arguments\":{\"url\":\"u\"}}"
    );
}

#[test]
fn calls_and_results_stay_together() {
    let history = vec![user("a"), call("c1"), call("c2"), result("c1"), user("b")];
    assert_eq!(pair_calls(&history), vec![(1, 3)]);
    let kept = drop_unpaired(history);
    assert_eq!(kept.len(), 4);
    assert!(kept.iter().any(|item| item.is_tool_result("c1")));
}

#[test]
fn context_keeps_to_its_budget() {
    let history: Vec<ModelItem> = (0..10).map(|i| user(&format!("m{}", i))).collect();
    let kept = build_model_context(history, &ContextBudget::items_only(3));
    assert_eq!(kept.len(), 3);
    assert!(matches!(&kept[2], ModelItem::UserMessage { content } if content == "m9"));
    let pair = vec![call("c1"), result("c1"), user("x")];
    let short = build_model_context(pair, &ContextBudget::items_only(2));
    assert!(short.iter().all(|item| !item.is_tool_result("c1")));
}

#[test]
fn events_are_read_from_their_text() {
    let mut state = ResponseState::default();
    assert_eq!(
        state
            .consume_text("{\"type\":\"response.output_text.delta\",\"delta\":\"Hel\"}", None)
            .unwrap()
            .as_deref(),
        Some("Hel")
    );
    assert_eq!(state.consume_text("[DONE]", None).unwrap(), None);
    let item = |id: &str, arguments: &str| {
        format!(
            "{{\"type\":\"function_call\",\"call_id\":\"{}\",\"name\":\"t\",\"arguments\":\"{}\"}}",
            id, arguments
        )
    };
    let done = format!(
        "{{\"type\":\"response.output_item.done\",\"item\":{}}}",
        item("c1", "{\\\"b\\\":1,\\\"a\\\":[true]}")
    );
    assert_eq!(state.consume_text(&done, None).unwrap(), None);
    let completed = format!(
        "{{\"type\":\"response.completed\",\"response\":{{\"id\":\"r\",\"output\":[{},{}]}}}}",
        item("c2", "broken"),
        item("c3", "7")
    );
    state.consume_text(&completed, None).unwrap();
    assert!(state
        .consume_text("{\"type\":", None)
        .unwrap_err()
        .to_string()
        .contains("EOF while parsing a value"));
    let response = state.finish();
    let arguments: Vec<String> = response
        .outputs
        .iter()
        .filter_map(|output| match output {
            ModelOutput::ToolCall { arguments, .. } => Some(arguments.to_text()),
            _ => None,
        })
        .collect();
    assert_eq!(arguments, vec!["{\"a\":[true],\"b\":1}", "null", "7"]);
}
