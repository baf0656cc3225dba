//! A model that needs no network: it probes one address and reports what it saw.
use vstd::prelude::*;

use crate::error::{ErrorView, OpsCodexError, OpsResult};
use crate::json::{entries_view, push_entry, Json, JsonEntry, JsonView};
use crate::json_map::map_text;
use crate::model::provider::{
    item_views, output_views, ItemView, ModelItem, ModelOutput, ModelRequest, ModelResponse,
    OutputView, ToolSchema, Usage,
};
use crate::text::same;
use crate::uuid_text::{format_uuid, uuid_text};

verus! {

#[derive(Clone, Copy, Debug)]
pub struct DemoModelProvider;

/// Where the last message of the user stands among the first `n` items.
pub open spec fn turn_start(items: Seq<ItemView>, n: int) -> int
    decreases n,
{
    if n <= 0 {
        0
    } else if items[n - 1] is UserMessage {
        n - 1
    } else {
        turn_start(items, n - 1)
    }
}

/// The last result among the items from `start` up to `n`.
pub open spec fn last_result(items: Seq<ItemView>, start: int, n: int) -> Option<JsonView>
    decreases n - start,
{
    if n <= start {
        None
    } else {
        match items[n - 1] {
            ItemView::ToolResult(_, output) => Some(output),
            _ => last_result(items, start, n - 1),
        }
    }
}

/// The last result since the user last spoke.
pub open spec fn current_result(items: Seq<ItemView>) -> Option<JsonView> {
    last_result(items, turn_start(items, items.len() as int), items.len() as int)
}

pub open spec fn offers(tools: Seq<ToolSchema>, name: Seq<char>) -> bool {
    exists|i: int| 0 <= i < tools.len() && (#[trigger] tools[i]).name@ == name
}

pub open spec fn probe_entries() -> Seq<(Seq<char>, JsonView)> {
    seq![("url"@, JsonView::Text("http://localhost:8080/health"@))]
}

pub open spec fn report_text(evidence: Seq<char>) -> Seq<char> {
    "Summary\nThe local diagnostic probe completed.\n\nEvidence\n- http_get returned: "@ + evidence
        + "\n\nDiagnosis\nThe available health evidence is the only basis for this local-mode result.\n\nConfidence: 0.55\n\nRecommended next actions\n1. Start the demo order-service if the probe failed.\n2. Use the OpenAI provider for autonomous multi-source investigation."@
}

/// What the model answers. `call` is the number of a new call.
pub open spec fn demo_outputs(items: Seq<ItemView>, tools: Seq<ToolSchema>, call: u128) -> Seq<
    OutputView,
> {
    match current_result(items) {
        None => if offers(tools, "http_get"@) {
            seq![
                OutputView::Message("I'll inspect the service health endpoint first."@),
                OutputView::ToolCall(
                    "call_"@ + uuid_text(call),
                    "http_get"@,
                    JsonView::Object(probe_entries()),
                ),
            ]
        } else {
            seq![OutputView::Message(report_text("No tool evidence was available."@))]
        },
        Some(output) => seq![OutputView::Message(report_text(map_text(output)))],
    }
}

fn find_result(items: &Vec<ModelItem>) -> (r: Option<usize>)
    ensures
        match r {
            Some(i) => i < items@.len() && (items@[i as int] matches ModelItem::ToolResult {
                output,
                ..
            } && current_result(item_views(items@)) == Some(output@)),
            None => current_result(item_views(items@)) is None,
        },
{
    let ghost seen = item_views(items@);
    let n: usize = items.len();
    let mut start: usize = n;
    let mut found = false;
    while start > 0 && !found
        invariant
            start <= n,
            n == items@.len(),
            seen == item_views(items@),
            found ==> start < n && turn_start(seen, n as int) == start,
            !found ==> turn_start(seen, n as int) == turn_start(seen, start as int),
        decreases start + (if found {
            0int
        } else {
            1int
        }),
    {
        assert(seen[start - 1] == items@[start - 1]@);
        match &items[start - 1] {
            ModelItem::UserMessage { .. } => {
                found = true;
                start -= 1;
            },
            _ => {
                start -= 1;
            },
        }
    }
    let mut i: usize = n;
    while i > start
        invariant
            start <= i <= n,
            n == items@.len(),
            seen == item_views(items@),
            start == turn_start(seen, n as int),
            last_result(seen, start as int, n as int) == last_result(
                seen,
                start as int,
                i as int,
            ),
        decreases i,
    {
        assert(seen[i - 1] == items@[i - 1]@);
        if let ModelItem::ToolResult { .. } = &items[i - 1] {
            return Some(i - 1);
        }
        i -= 1;
    }
    None
}

fn is_offered(tools: &Vec<ToolSchema>, name: &str) -> (r: bool)
    ensures
        r == offers(tools@, name@),
{
    let mut i: usize = 0;
    while i < tools.len()
        invariant
            i <= tools@.len(),
            forall|k: int| 0 <= k < i ==> (#[trigger] tools@[k]).name@ != name@,
        decreases tools@.len() - i,
    {
        if same(tools[i].name.as_str(), name) {
            return true;
        }
        i += 1;
    }
    false
}

fn message(content: &str) -> (r: ModelOutput)
    ensures
        r@ == OutputView::Message(content@),
{
    ModelOutput::Message { content: content.to_owned() }
}

impl DemoModelProvider {
    /// Answers a request. `call` is a number that was not used before.
    pub fn complete(&self, request: &ModelRequest, cancelled: bool, call: u128) -> (r: OpsResult<
        ModelResponse,
    >)
        ensures
            match r {
                Ok(response) => !cancelled && output_views(response.outputs@) == demo_outputs(
                    item_views(request.input@),
                    request.tools@,
                    call,
                ) && response.response_id is None && response.usage == (Usage {
                    input_tokens: 0,
                    output_tokens: 0,
                    total_tokens: 0,
                }),
                Err(e) => cancelled && e@ == ErrorView::Cancelled,
            },
    {
        if cancelled {
            return Err(OpsCodexError::Cancelled);
        }
        let mut outputs: Vec<ModelOutput> = Vec::new();
        let found = find_result(&request.input);
        if found.is_none() && is_offered(&request.tools, "http_get") {
            outputs.push(message("I'll inspect the service health endpoint first."));
            let mut call_id = "call_".to_owned();
            call_id.append(format_uuid(call).as_str());
            let mut entries: Vec<JsonEntry> = Vec::new();
            push_entry(&mut entries, "url", Json::text("http://localhost:8080/health"));
            assert(entries_view(entries@) =~= probe_entries());
            let probe = ModelOutput::ToolCall {
                call_id,
                name: "http_get".to_owned(),
                arguments: Json::Object(entries),
            };
            outputs.push(probe);
            assert(output_views(outputs@) =~= demo_outputs(
                item_views(request.input@),
                request.tools@,
                call,
            ));
            return Ok(ModelResponse::new(outputs));
        }
        let evidence = match found {
            Some(i) => match &request.input[i] {
                ModelItem::ToolResult { output, .. } => output.to_map_text(),
                _ => String::new(),
            },
            None => "No tool evidence was available.".to_owned(),
        };
        let mut report =
            "Summary\nThe local diagnostic probe completed.\n\nEvidence\n- http_get returned: ".to_owned();
        report.append(evidence.as_str());
        report.append(
            "\n\nDiagnosis\nThe available health evidence is the only basis for this local-mode result.\n\nConfidence: 0.55\n\nRecommended next actions\n1. Start the demo order-service if the probe failed.\n2. Use the OpenAI provider for autonomous multi-source investigation.",
        );
        outputs.push(message(report.as_str()));
        assert(output_views(outputs@) =~= demo_outputs(
            item_views(request.input@),
            request.tools@,
            call,
        ));
        Ok(ModelResponse::new(outputs))
    }
}

} // verus!
