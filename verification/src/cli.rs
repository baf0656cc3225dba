//! What the command line decides and shows.
use vstd::prelude::*;

use crate::error::{ErrorView, OpsCodexError, OpsResult};
use crate::json::string_view;
use crate::json_map::map_text;
use crate::runtime::event::{EventView, RuntimeEvent};
use crate::runtime::incident::{IncidentContext, LabelMap};
use crate::runtime::thread::ApprovalId;
use crate::store::migrate::{ExportReport, MigrateReport};
use crate::text::{decimal, decimal_of, has_char, lower, lower_str, same, trim, trim_str};
use crate::time::{parsed_rfc3339, Timestamp};

verus! {

// ---------------------------------------------------------------------------
// The incident
// ---------------------------------------------------------------------------
/// The time that a flag names, if it is given; or what is wrong with it.
pub open spec fn flag_time(value: Option<Seq<char>>) -> Result<Option<(i64, u32)>, ErrorView> {
    match value {
        None => Ok(None),
        Some(text) => match parsed_rfc3339(text) {
            Ok(parts) => Ok(Some(parts)),
            Err(e) => Err(ErrorView::Protocol("invalid timestamp: "@ + e)),
        },
    }
}

/// The parts of an optional time.
pub open spec fn time_parts(time: Option<Timestamp>) -> Option<(i64, u32)> {
    match time {
        Some(time) => Some((time.whole_seconds(), time.subsecond())),
        None => None,
    }
}

/// The context says what the flags say, and nothing else.
pub open spec fn is_flagged(
    context: IncidentContext,
    service: Option<String>,
    environment: Option<String>,
    starts_at: Option<(i64, u32)>,
    ends_at: Option<(i64, u32)>,
) -> bool {
    &&& context.service == service
    &&& context.environment == environment
    &&& time_parts(context.starts_at) == starts_at
    &&& time_parts(context.ends_at) == ends_at
    &&& context.labels@.len() == 0
    &&& context.annotations@.len() == 0
    &&& context.source is None
}

/// What was read of a time that a flag names, if it is given.
pub open spec fn read_flag(read: Option<Result<Timestamp, String>>) -> Result<
    Option<(i64, u32)>,
    ErrorView,
> {
    match read {
        None => Ok(None),
        Some(Ok(time)) => Ok(Some((time.whole_seconds(), time.subsecond()))),
        Some(Err(e)) => Err(ErrorView::Protocol("invalid timestamp: "@ + e@)),
    }
}

fn flag_result(read: Option<Result<Timestamp, String>>) -> (r: OpsResult<Option<Timestamp>>)
    ensures
        match r {
            Ok(time) => read_flag(read) == Ok::<Option<(i64, u32)>, ErrorView>(time_parts(time)),
            Err(e) => read_flag(read) == Err::<Option<(i64, u32)>, ErrorView>(e@),
        },
{
    match read {
        None => Ok(None),
        Some(Ok(time)) => Ok(Some(time)),
        Some(Err(e)) => {
            let mut message = "invalid timestamp: ".to_owned();
            message.append(e.as_str());
            Err(OpsCodexError::Protocol(message))
        },
    }
}

/// `r` is the incident that flags describe: none where none of them is given, and
/// the first error otherwise.
pub open spec fn is_incident(
    r: OpsResult<Option<IncidentContext>>,
    service: Option<String>,
    environment: Option<String>,
    starts_at: Result<Option<(i64, u32)>, ErrorView>,
    ends_at: Result<Option<(i64, u32)>, ErrorView>,
) -> bool {
    if service is None && environment is None && starts_at == Ok::<Option<(i64, u32)>, ErrorView>(
        None,
    ) && ends_at == Ok::<Option<(i64, u32)>, ErrorView>(None) {
        r matches Ok(context) && context is None
    } else {
        match starts_at {
            Err(error) => r matches Err(e) && e@ == error,
            Ok(start) => match ends_at {
                Err(error) => r matches Err(e) && e@ == error,
                Ok(end) => match r {
                    Ok(context) => context matches Some(context) && is_flagged(
                        context,
                        service,
                        environment,
                        start,
                        end,
                    ) && context.error() is None,
                    Err(e) => exists|context: IncidentContext| #[trigger]
                        is_flagged(context, service, environment, start, end)
                            && context.error() == Some(e@),
                },
            },
        }
    }
}

/// The incident that flags describe, when this is what was read of their times.
pub fn incident_from_times(
    service: Option<String>,
    environment: Option<String>,
    starts_at: Option<Result<Timestamp, String>>,
    ends_at: Option<Result<Timestamp, String>>,
) -> (r: OpsResult<Option<IncidentContext>>)
    ensures
        is_incident(r, service, environment, read_flag(starts_at), read_flag(ends_at)),
{
    if service.is_none() && environment.is_none() && starts_at.is_none() && ends_at.is_none() {
        return Ok(None);
    }
    let start = match flag_result(starts_at) {
        Ok(time) => time,
        Err(e) => return Err(e),
    };
    let end = match flag_result(ends_at) {
        Ok(time) => time,
        Err(e) => return Err(e),
    };
    let context = IncidentContext {
        service,
        environment,
        starts_at: start,
        ends_at: end,
        labels: LabelMap::new(),
        annotations: LabelMap::new(),
        source: None,
    };
    assert(is_flagged(context, service, environment, time_parts(start), time_parts(end)));
    match context.validate() {
        Ok(_) => Ok(Some(context)),
        Err(e) => Err(e),
    }
}

/// The incident that flags describe, if any of them is given.
pub fn incident_from_flags(
    service: Option<String>,
    environment: Option<String>,
    starts_at: Option<String>,
    ends_at: Option<String>,
) -> (r: OpsResult<Option<IncidentContext>>)
    ensures
        is_incident(
            r,
            service,
            environment,
            flag_time(string_view(starts_at)),
            flag_time(string_view(ends_at)),
        ),
{
    let start = match &starts_at {
        Some(text) => Some(Timestamp::parse_rfc3339(text.as_str())),
        None => None,
    };
    let end = match &ends_at {
        Some(text) => Some(Timestamp::parse_rfc3339(text.as_str())),
        None => None,
    };
    incident_from_times(service, environment, start, end)
}

// ---------------------------------------------------------------------------
// Events on the terminal
// ---------------------------------------------------------------------------
/// What an event shows.
#[derive(Debug)]
pub enum Shown {
    Nothing,
    /// A text without an end of line.
    Piece(String),
    Line(String),
    /// A line that is an error.
    Failure(String),
    /// A line that is followed by a question.
    Question(String, ApprovalId),
}

pub enum ShownView {
    Nothing,
    Piece(Seq<char>),
    Line(Seq<char>),
    Failure(Seq<char>),
    Question(Seq<char>, ApprovalId),
}

impl Shown {
    pub open spec fn view(&self) -> ShownView {
        match self {
            Shown::Nothing => ShownView::Nothing,
            Shown::Piece(text) => ShownView::Piece(text@),
            Shown::Line(text) => ShownView::Line(text@),
            Shown::Failure(text) => ShownView::Failure(text@),
            Shown::Question(text, id) => ShownView::Question(text@, *id),
        }
    }
}

/// What is shown of an event; `streaming` tells whether a message is being shown
/// piece by piece.
pub open spec fn shown_of(event: RuntimeEvent, streaming: bool) -> ShownView {
    match event {
        RuntimeEvent::AssistantDelta { delta } => ShownView::Piece(delta@),
        RuntimeEvent::AssistantCompleted { .. } => if streaming {
            ShownView::Line("\n"@)
        } else {
            ShownView::Nothing
        },
        RuntimeEvent::ToolProposed { tool, .. } => ShownView::Line(
            "[tool] "@ + tool@ + (if tool@.contains('/') {
                " proposed (external)"@
            } else {
                " proposed"@
            }),
        ),
        RuntimeEvent::ToolExecutionStarted { tool, .. } => ShownView::Line(
            "[tool] "@ + tool@ + " running"@,
        ),
        RuntimeEvent::ToolStarted { tool, .. } => ShownView::Line(
            "[tool] "@ + tool@ + " running"@,
        ),
        RuntimeEvent::ToolCompleted { tool, evidence, success, .. } => ShownView::Line(
            "[tool] "@ + tool@ + (if success {
                " completed ("@
            } else {
                " failed ("@
            }) + decimal(evidence.duration_ms as nat) + " ms)"@,
        ),
        RuntimeEvent::ApprovalRequired { approval_id, tool, arguments } => ShownView::Question(
            "[approval] "@ + tool@ + " "@ + map_text(arguments@),
            approval_id,
        ),
        RuntimeEvent::UserMessage { incident_context: Some(context), .. } => match context.service {
            Some(service) => ShownView::Line("[incident] service="@ + service@),
            None => ShownView::Nothing,
        },
        RuntimeEvent::TurnFailed { error } => ShownView::Failure("turn failed: "@ + error@),
        RuntimeEvent::TurnCancelled => ShownView::Failure("turn cancelled"@),
        _ => ShownView::Nothing,
    }
}

/// Whether a message is being shown piece by piece after an event.
pub open spec fn streams_on(event: EventView, streaming: bool) -> bool {
    match event {
        EventView::AssistantDelta { .. } => true,
        EventView::AssistantCompleted { .. } => false,
        _ => streaming,
    }
}

fn tool_line(tool: &str, rest: &str) -> (r: String)
    ensures
        r@ == "[tool] "@ + tool@ + rest@,
{
    let mut line = "[tool] ".to_owned();
    line.append(tool);
    line.append(rest);
    line
}

/// Shows an event.
pub fn render_event(event: &RuntimeEvent, streaming: &mut bool) -> (r: Shown)
    ensures
        r@ == shown_of(*event, *old(streaming)),
        *final(streaming) == streams_on(event@, *old(streaming)),
{
    match event {
        RuntimeEvent::AssistantDelta { delta } => {
            *streaming = true;
            Shown::Piece(delta.clone())
        },
        RuntimeEvent::AssistantCompleted { .. } => {
            if *streaming {
                *streaming = false;
                Shown::Line("\n".to_owned())
            } else {
                Shown::Nothing
            }
        },
        RuntimeEvent::ToolProposed { tool, .. } => {
            if has_char(tool.as_str(), '/') {
                Shown::Line(tool_line(tool.as_str(), " proposed (external)"))
            } else {
                Shown::Line(tool_line(tool.as_str(), " proposed"))
            }
        },
        RuntimeEvent::ToolExecutionStarted { tool, .. } => Shown::Line(
            tool_line(tool.as_str(), " running"),
        ),
        RuntimeEvent::ToolStarted { tool, .. } => Shown::Line(
            tool_line(tool.as_str(), " running"),
        ),
        RuntimeEvent::ToolCompleted { tool, evidence, success, .. } => {
            let mut line = if *success {
                tool_line(tool.as_str(), " completed (")
            } else {
                tool_line(tool.as_str(), " failed (")
            };
            line.append(decimal_of(evidence.duration_ms).as_str());
            line.append(" ms)");
            Shown::Line(line)
        },
        RuntimeEvent::ApprovalRequired { approval_id, tool, arguments } => {
            let mut line = "[approval] ".to_owned();
            line.append(tool.as_str());
            line.append(" ");
            line.append(arguments.to_map_text().as_str());
            Shown::Question(line, *approval_id)
        },
        RuntimeEvent::UserMessage { incident_context, .. } => match incident_context {
            Some(context) => match &context.service {
                Some(service) => {
                    let mut line = "[incident] service=".to_owned();
                    line.append(service.as_str());
                    Shown::Line(line)
                },
                None => Shown::Nothing,
            },
            None => Shown::Nothing,
        },
        RuntimeEvent::TurnFailed { error } => {
            let mut line = "turn failed: ".to_owned();
            line.append(error.as_str());
            Shown::Failure(line)
        },
        RuntimeEvent::TurnCancelled => Shown::Failure("turn cancelled".to_owned()),
        _ => Shown::Nothing,
    }
}

/// Whether an answer is a yes. Whatever is not one is a no.
pub fn is_yes(answer: &str) -> (r: bool)
    ensures
        r == (lower(trim(answer@)) == "y"@ || lower(trim(answer@)) == "yes"@),
{
    let given = lower_str(trim_str(answer).as_str());
    same(given.as_str(), "y") || same(given.as_str(), "yes")
}

// ---------------------------------------------------------------------------
// Reports
// ---------------------------------------------------------------------------
/// What is shown of a migration.
pub fn migrated_line(report: &MigrateReport) -> (r: String)
    ensures
        r@ == "migrated threads="@ + decimal(report.threads as nat) + " events="@ + decimal(
            report.events as nat,
        ) + " hash="@ + report.hash@,
{
    let mut line = "migrated threads=".to_owned();
    line.append(decimal_of(report.threads as u64).as_str());
    line.append(" events=");
    line.append(decimal_of(report.events as u64).as_str());
    line.append(" hash=");
    line.append(report.hash.as_str());
    line
}

/// What is shown of an export.
pub fn exported_line(report: &ExportReport) -> (r: String)
    ensures
        r@ == "exported thread "@ + report.thread_id.text() + " ("@ + decimal(report.events as nat)
            + " events) to "@ + report.path@,
{
    let mut line = "exported thread ".to_owned();
    line.append(report.thread_id.to_string().as_str());
    line.append(" (");
    line.append(decimal_of(report.events as u64).as_str());
    line.append(" events) to ");
    line.append(report.path.as_str());
    line
}

} // verus!
