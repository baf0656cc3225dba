//! How a structured change is carried out and checked, step by step.
use vstd::prelude::*;

use crate::error::{ConnectorClass, ErrorView, OpsCodexError, OpsResult};
use crate::json::{entries_view, push_entry, Json, JsonEntry, JsonView};
use crate::json_read::{json_of_bytes, read_json_bytes};
use crate::text::{decimal, decimal_of, same};
use crate::url_text::{
    host_or_empty, is_loopback_name, join_url, joined_url, loopback_name, parse_url, set_path,
    url_of, url_with_path, UrlParts, UrlView, MAX_URL_CHARS,
};

verus! {

/// What came of carrying out a change.
#[derive(Debug)]
pub struct ExecutionOutcome {
    pub committed: bool,
    pub verified: bool,
    pub uncertain: bool,
    pub before: Json,
    pub after: Json,
    pub message: String,
}

/// What an outcome says.
pub struct OutcomeView {
    pub committed: bool,
    pub verified: bool,
    pub uncertain: bool,
    pub before: JsonView,
    pub after: JsonView,
    pub message: Seq<char>,
}

impl ExecutionOutcome {
    pub open spec fn view(&self) -> OutcomeView {
        OutcomeView {
            committed: self.committed,
            verified: self.verified,
            uncertain: self.uncertain,
            before: self.before@,
            after: self.after@,
            message: self.message@,
        }
    }
}

/// Nothing was changed.
pub open spec fn dry(before: JsonView, after: JsonView, message: Seq<char>) -> OutcomeView {
    OutcomeView { committed: false, verified: false, uncertain: false, before, after, message }
}

/// It is not known whether anything was changed.
pub open spec fn unknown(before: JsonView, error: ErrorView, message: Seq<char>) -> OutcomeView {
    OutcomeView {
        committed: false,
        verified: false,
        uncertain: true,
        before,
        after: JsonView::Object(seq![("error"@, JsonView::Text(error.text()))]),
        message,
    }
}

/// An error after which it is not known what the other side did.
pub open spec fn leaves_doubt(error: ErrorView) -> bool {
    error is Timeout || error is Cancelled
}

fn unknown_outcome(before: Json, error: &OpsCodexError, message: &str) -> (r: ExecutionOutcome)
    ensures
        r@ == unknown(before@, error@, message@),
{
    let mut entries: Vec<JsonEntry> = Vec::new();
    push_entry(&mut entries, "error", Json::Text(error.to_string()));
    assert(entries_view(entries@) =~= seq![("error"@, JsonView::Text(error@.text()))]);
    ExecutionOutcome {
        committed: false,
        verified: false,
        uncertain: true,
        before,
        after: Json::Object(entries),
        message: message.to_owned(),
    }
}

/// What came back from the other side.
#[derive(Debug)]
pub enum Reply {
    Value { value: Json },
    Failed { error: OpsCodexError },
}

// ---------------------------------------------------------------------------
// The fault of the demo service
// ---------------------------------------------------------------------------
/// How far the reset of the demo fault has got.
#[derive(Debug)]
pub enum DemoPhase {
    /// The health is being read.
    Checking,
    /// The reset was sent.
    Resetting { before: Json },
    /// The health is being read again.
    Verifying { before: Json, reset: Json },
}

/// What is to be done next.
#[derive(Debug)]
pub enum DemoAction {
    GetHealth { url: String },
    PostReset { url: String },
    Finish { outcome: ExecutionOutcome },
    Abort { error: OpsCodexError },
}

/// The mode that a health document tells.
pub open spec fn mode_of(health: JsonView) -> Seq<char> {
    match health.text_at("mode"@) {
        Some(mode) => mode,
        None => "unknown"@,
    }
}

/// The service is healthy and in its normal mode.
pub open spec fn is_normal(health: JsonView) -> bool {
    health.text_at("status"@) == Some("ok"@) && health.text_at("mode"@) == Some("normal"@)
}

/// What a dry run says.
pub open spec fn demo_dry(health: JsonView) -> OutcomeView {
    dry(
        health,
        JsonView::Object(seq![("would_set"@, JsonView::Text("normal"@))]),
        "dry-run would POST /debug/fault/normal (current mode "@ + mode_of(health) + ")"@,
    )
}

/// What a reset says that was carried out.
pub open spec fn demo_done(before: JsonView, reset: JsonView, health: JsonView) -> OutcomeView {
    OutcomeView {
        committed: true,
        verified: is_normal(health),
        uncertain: false,
        before,
        after: JsonView::Object(seq![("health"@, health), ("reset"@, reset)]),
        message: if is_normal(health) {
            "demo fault reset verified"@
        } else {
            "demo fault reset did not reach healthy normal mode"@
        },
    }
}

/// Where the health is read.
pub const HEALTH: &'static str = "health";

/// Where the fault is reset.
pub const RESET: &'static str = "debug/fault/normal";

/// The health is read next, unless there is no address for it.
pub open spec fn reads_health(base: UrlView, action: DemoAction) -> bool {
    match endpoint(base, HEALTH@) {
        Ok(address) => action matches DemoAction::GetHealth { url } && url@ == address,
        Err(e) => action matches DemoAction::Abort { error } && error@ == e,
    }
}

/// The step by which a reply leads on.
pub open spec fn demo_stepped(
    base: UrlView,
    phase: DemoPhase,
    reply: Reply,
    dry_run: bool,
    r: (DemoPhase, DemoAction),
) -> bool {
    match (phase, reply) {
        (DemoPhase::Checking, Reply::Value { value }) => if dry_run {
            r.1 matches DemoAction::Finish { outcome } && outcome@ == demo_dry(value@)
        } else {
            match endpoint(base, RESET@) {
                Ok(address) => r.0 matches DemoPhase::Resetting { before } && before@ == value@ && (
                r.1 matches DemoAction::PostReset { url } && url@ == address),
                Err(e) => r.1 matches DemoAction::Abort { error } && error@ == e,
            }
        },
        (DemoPhase::Resetting { before }, Reply::Value { value }) => r.0 matches
            DemoPhase::Verifying { before: kept, reset } && kept@ == before@ && reset@ == value@
            && reads_health(base, r.1),
        (DemoPhase::Resetting { before }, Reply::Failed { error }) => if leaves_doubt(error@) {
            r.1 matches DemoAction::Finish { outcome } && outcome@ == unknown(
                before@,
                error@,
                "demo fault reset result is unknown"@,
            )
        } else {
            r.1 matches DemoAction::Abort { error: e } && e@ == error@
        },
        (DemoPhase::Verifying { before, reset }, Reply::Value { value }) => r.1 matches
            DemoAction::Finish { outcome } && outcome@ == demo_done(before@, reset@, value@),
        (_, Reply::Failed { error }) => r.1 matches DemoAction::Abort { error: e } && e@ == error@,
    }
}

fn demo_dry_outcome(health: Json) -> (r: ExecutionOutcome)
    ensures
        r@ == demo_dry(health@),
{
    let mut message = "dry-run would POST /debug/fault/normal (current mode ".to_owned();
    match health.str_at("mode") {
        Some(mode) => message.append(mode),
        None => message.append("unknown"),
    }
    message.append(")");
    let mut entries: Vec<JsonEntry> = Vec::new();
    push_entry(&mut entries, "would_set", Json::text("normal"));
    assert(entries_view(entries@) =~= seq![("would_set"@, JsonView::Text("normal"@))]);
    ExecutionOutcome {
        committed: false,
        verified: false,
        uncertain: false,
        before: health,
        after: Json::Object(entries),
        message,
    }
}

fn says(value: &Json, key: &str, text: &str) -> (r: bool)
    ensures
        r == (value@.text_at(key@) == Some(text@)),
{
    match value.str_at(key) {
        Some(found) => same(found, text),
        None => false,
    }
}

fn demo_done_outcome(before: Json, reset: Json, health: Json) -> (r: ExecutionOutcome)
    ensures
        r@ == demo_done(before@, reset@, health@),
{
    let ok = says(&health, "status", "ok") && says(&health, "mode", "normal");
    let message = if ok {
        "demo fault reset verified".to_owned()
    } else {
        "demo fault reset did not reach healthy normal mode".to_owned()
    };
    let ghost entries_spec = seq![("health"@, health@), ("reset"@, reset@)];
    let mut entries: Vec<JsonEntry> = Vec::new();
    push_entry(&mut entries, "health", health);
    push_entry(&mut entries, "reset", reset);
    assert(entries_view(entries@) =~= entries_spec);
    ExecutionOutcome {
        committed: true,
        verified: ok,
        uncertain: false,
        before,
        after: Json::Object(entries),
        message,
    }
}

fn read_health(base: &UrlParts) -> (r: DemoAction)
    ensures
        reads_health(base@, r),
{
    match demo_endpoint(base, HEALTH) {
        Ok(url) => DemoAction::GetHealth { url },
        Err(error) => DemoAction::Abort { error },
    }
}

/// Begins a reset at the address of the demo service: the health is read first.
pub fn start_demo_fault(value: &str) -> (r: OpsResult<(UrlParts, DemoPhase, DemoAction)>)
    ensures
        match r {
            Ok((base, phase, action)) => demo_base(value@) == Ok::<UrlView, ErrorView>(base@)
                && phase is Checking && reads_health(base@, action),
            Err(e) => demo_base(value@) == Err::<UrlView, ErrorView>(e@),
        },
{
    match validate_loopback_url(value) {
        Ok(base) => {
            let action = read_health(&base);
            Ok((base, DemoPhase::Checking, action))
        },
        Err(e) => Err(e),
    }
}

/// Takes the next step of a reset.
pub fn execute_demo_fault(base: &UrlParts, phase: DemoPhase, reply: Reply, dry_run: bool) -> (r: (
    DemoPhase,
    DemoAction,
))
    ensures
        demo_stepped(base@, phase, reply, dry_run, r),
{
    match reply {
        Reply::Value { value } => match phase {
            DemoPhase::Checking => if dry_run {
                (DemoPhase::Checking, DemoAction::Finish { outcome: demo_dry_outcome(value) })
            } else {
                match demo_endpoint(base, RESET) {
                    Ok(url) => (
                        DemoPhase::Resetting { before: value },
                        DemoAction::PostReset { url },
                    ),
                    Err(error) => (DemoPhase::Checking, DemoAction::Abort { error }),
                }
            },
            DemoPhase::Resetting { before } => (
                DemoPhase::Verifying { before, reset: value },
                read_health(base),
            ),
            DemoPhase::Verifying { before, reset } => (
                DemoPhase::Checking,
                DemoAction::Finish { outcome: demo_done_outcome(before, reset, value) },
            ),
        },
        Reply::Failed { error } => match phase {
            DemoPhase::Resetting { before } => if matches!(
                error,
                OpsCodexError::Timeout(_) | OpsCodexError::Cancelled
            ) {
                let outcome = unknown_outcome(
                    before,
                    &error,
                    "demo fault reset result is unknown",
                );
                (DemoPhase::Checking, DemoAction::Finish { outcome })
            } else {
                (DemoPhase::Checking, DemoAction::Abort { error })
            },
            _ => (DemoPhase::Checking, DemoAction::Abort { error }),
        },
    }
}

// ---------------------------------------------------------------------------
// The scale of a workload
// ---------------------------------------------------------------------------
/// A workload and the number of replicas that it is to have.
#[derive(Debug)]
pub struct ScaleRequest {
    pub kind: String,
    pub namespace: String,
    pub name: String,
    pub replicas: u32,
    /// The version and the identity of the workload that was approved.
    pub resource_version: String,
    pub uid: String,
    /// The operation that the patch belongs to.
    pub operation_id: String,
}

/// How far a scale has got.
#[derive(Debug)]
pub enum ScalePhase {
    /// The workload is being read.
    Reading,
    /// The patch was sent.
    Patching { before: Json },
    /// The workload is being read again.
    Verifying { before: Json },
}

/// What is to be done next.
#[derive(Debug)]
pub enum ScaleAction {
    GetWorkload,
    Patch { resource_version: String, operation_id: String },
    Finish { outcome: ExecutionOutcome },
    Abort { error: OpsCodexError },
}

/// A member of the metadata of a workload, or nothing.
pub open spec fn metadata(object: JsonView, field: Seq<char>) -> Seq<char> {
    match object.get_in("metadata"@, field) {
        Some(JsonView::Text(text)) => text,
        _ => Seq::empty(),
    }
}

pub fn metadata_string(object: &Json, field: &str) -> (r: String)
    ensures
        r@ == metadata(object@, field@),
{
    match object.get_in("metadata", field) {
        Some(value) => match value.as_str() {
            Some(text) => text.to_owned(),
            None => String::new(),
        },
        None => String::new(),
    }
}

/// A count in a workload, or zero.
pub open spec fn count_in(object: JsonView, outer: Seq<char>, inner: Seq<char>) -> u64 {
    match object.get_in(outer, inner) {
        Some(value) => match value.as_u64() {
            Some(n) => n,
            None => 0,
        },
        None => 0,
    }
}

pub fn count_at(object: &Json, outer: &str, inner: &str) -> (r: u64)
    ensures
        r == count_in(object@, outer@, inner@),
{
    match object.get_in(outer, inner) {
        Some(value) => match value.as_u64() {
            Some(n) => n,
            None => 0,
        },
        None => 0,
    }
}

/// The workload has as many replicas as it was to have, and all of them serve.
pub open spec fn is_scaled(after: JsonView, replicas: u32) -> bool {
    count_in(after, "spec"@, "replicas"@) == replicas && count_in(
        after,
        "status"@,
        "availableReplicas"@,
    ) == replicas
}

/// The name of a workload as it is shown.
pub open spec fn workload(request: ScaleRequest) -> Seq<char> {
    request.kind@ + "/"@ + request.name@
}

pub open spec fn scale_dry(request: ScaleRequest, before: JsonView, after: JsonView) -> OutcomeView {
    dry(
        before,
        after,
        "dry-run scale "@ + workload(request) + " to "@ + decimal(request.replicas as nat),
    )
}

pub open spec fn scale_done(request: ScaleRequest, before: JsonView, after: JsonView) -> OutcomeView {
    OutcomeView {
        committed: true,
        verified: is_scaled(after, request.replicas),
        uncertain: false,
        before,
        after,
        message: if is_scaled(after, request.replicas) {
            "scaled "@ + workload(request) + " to "@ + decimal(request.replicas as nat)
        } else {
            "scale of "@ + workload(request) + " did not reach available replicas"@
        },
    }
}

/// The workload is the one that was approved.
pub open spec fn is_unchanged(request: ScaleRequest, before: JsonView) -> bool {
    metadata(before, "uid"@) == request.uid@ && metadata(before, "resourceVersion"@)
        == request.resource_version@
}

/// The version that a patch is bound to: the one that was approved, or, where
/// none was, the one that was read.
pub open spec fn patch_version(request: ScaleRequest, before: JsonView) -> Seq<char> {
    if request.resource_version@.len() == 0 {
        metadata(before, "resourceVersion"@)
    } else {
        request.resource_version@
    }
}

/// The step by which a reply leads on.
pub open spec fn scale_stepped(
    request: ScaleRequest,
    phase: ScalePhase,
    reply: Reply,
    dry_run: bool,
    r: (ScalePhase, ScaleAction),
) -> bool {
    match (phase, reply) {
        (ScalePhase::Reading, Reply::Value { value }) => if !dry_run && !is_unchanged(
            request,
            value@,
        ) {
            r.1 matches ScaleAction::Abort { error } && error@ == ErrorView::Policy(
                "kubernetes target changed; resourceVersion/UID precondition failed"@,
            )
        } else {
            r.0 matches ScalePhase::Patching { before } && before@ == value@ && (r.1 matches
                ScaleAction::Patch { resource_version, operation_id } && resource_version@
                == patch_version(request, value@) && operation_id == request.operation_id)
        },
        (ScalePhase::Patching { before }, Reply::Value { value }) => if dry_run {
            r.1 matches ScaleAction::Finish { outcome } && outcome@ == scale_dry(
                request,
                before@,
                value@,
            )
        } else {
            r.0 matches ScalePhase::Verifying { before: kept } && kept@ == before@ && r.1
                is GetWorkload
        },
        (ScalePhase::Patching { before }, Reply::Failed { error }) => if leaves_doubt(error@) {
            r.1 matches ScaleAction::Finish { outcome } && outcome@ == unknown(
                before@,
                error@,
                "kubernetes scale result is unknown"@,
            )
        } else {
            r.1 matches ScaleAction::Abort { error: e } && e@ == error@
        },
        (ScalePhase::Verifying { before }, Reply::Value { value }) => r.1 matches
            ScaleAction::Finish { outcome } && outcome@ == scale_done(request, before@, value@),
        (_, Reply::Failed { error }) => r.1 matches ScaleAction::Abort { error: e } && e@ == error@,
    }
}

fn push_workload(message: &mut String, request: &ScaleRequest)
    ensures
        final(message)@ == old(message)@ + workload(*request),
{
    message.append(request.kind.as_str());
    message.append("/");
    message.append(request.name.as_str());
    assert(message@ =~= old(message)@ + workload(*request));
}

fn scale_dry_outcome(request: &ScaleRequest, before: Json, after: Json) -> (r: ExecutionOutcome)
    ensures
        r@ == scale_dry(*request, before@, after@),
{
    let mut message = "dry-run scale ".to_owned();
    push_workload(&mut message, request);
    message.append(" to ");
    message.append(decimal_of(request.replicas as u64).as_str());
    ExecutionOutcome {
        committed: false,
        verified: false,
        uncertain: false,
        before,
        after,
        message,
    }
}

fn scale_done_outcome(request: &ScaleRequest, before: Json, after: Json) -> (r: ExecutionOutcome)
    ensures
        r@ == scale_done(*request, before@, after@),
{
    let replicas = request.replicas as u64;
    let verified = count_at(&after, "spec", "replicas") == replicas && count_at(
        &after,
        "status",
        "availableReplicas",
    ) == replicas;
    let message = if verified {
        let mut message = "scaled ".to_owned();
        push_workload(&mut message, request);
        message.append(" to ");
        message.append(decimal_of(replicas).as_str());
        message
    } else {
        let mut message = "scale of ".to_owned();
        push_workload(&mut message, request);
        message.append(" did not reach available replicas");
        message
    };
    ExecutionOutcome { committed: true, verified, uncertain: false, before, after, message }
}

/// Takes the next step of a scale, which starts by reading the workload.
pub fn execute_k8s_scale(request: &ScaleRequest, phase: ScalePhase, reply: Reply, dry_run: bool)
    -> (r: (ScalePhase, ScaleAction))
    ensures
        scale_stepped(*request, phase, reply, dry_run, r),
{
    match reply {
        Reply::Value { value } => match phase {
            ScalePhase::Reading => {
                let uid = metadata_string(&value, "uid");
                let version = metadata_string(&value, "resourceVersion");
                if !dry_run && (!same(uid.as_str(), request.uid.as_str()) || !same(
                    version.as_str(),
                    request.resource_version.as_str(),
                )) {
                    return (
                        ScalePhase::Reading,
                        ScaleAction::Abort {
                            error: OpsCodexError::Policy(
                                "kubernetes target changed; resourceVersion/UID precondition failed".to_owned(),
                            ),
                        },
                    );
                }
                let resource_version = if request.resource_version.as_str().is_empty() {
                    version
                } else {
                    request.resource_version.clone()
                };
                let operation_id = request.operation_id.clone();
                (
                    ScalePhase::Patching { before: value },
                    ScaleAction::Patch { resource_version, operation_id },
                )
            },
            ScalePhase::Patching { before } => if dry_run {
                let outcome = scale_dry_outcome(request, before, value);
                (ScalePhase::Reading, ScaleAction::Finish { outcome })
            } else {
                (ScalePhase::Verifying { before }, ScaleAction::GetWorkload)
            },
            ScalePhase::Verifying { before } => {
                let outcome = scale_done_outcome(request, before, value);
                (ScalePhase::Reading, ScaleAction::Finish { outcome })
            },
        },
        Reply::Failed { error } => match phase {
            ScalePhase::Patching { before } => if matches!(
                error,
                OpsCodexError::Timeout(_) | OpsCodexError::Cancelled
            ) {
                let outcome = unknown_outcome(
                    before,
                    &error,
                    "kubernetes scale result is unknown",
                );
                (ScalePhase::Reading, ScaleAction::Finish { outcome })
            } else {
                (ScalePhase::Reading, ScaleAction::Abort { error })
            },
            _ => (ScalePhase::Reading, ScaleAction::Abort { error }),
        },
    }
}

// ---------------------------------------------------------------------------
// Where the demo service is
// ---------------------------------------------------------------------------
/// What is wrong with the address of the demo service.
pub open spec fn demo_url_error(value: Seq<char>) -> Option<ErrorView> {
    match url_of(value) {
        Err(e) => Some(ErrorView::Protocol("invalid demo_fault_url: "@ + e)),
        Ok(url) => loopback_error(url),
    }
}

/// What is wrong with an address of the demo service that could be read.
pub open spec fn loopback_error(url: UrlView) -> Option<ErrorView> {
    if url.scheme != "http"@ && url.scheme != "https"@ {
        Some(ErrorView::Policy("demo fault URL must use http or https"@))
    } else if url.username.len() > 0 || url.has_password {
        Some(ErrorView::Policy("demo fault URL cannot contain credentials"@))
    } else if !loopback_name(host_or_empty(url)) {
        Some(ErrorView::Policy("demo fault reset is limited to loopback hosts"@))
    } else {
        None
    }
}

/// The path ends where the endpoints of the demo service begin.
pub open spec fn has_end(path: Seq<char>) -> bool {
    path.len() > 0 && path.last() == '/'
}

/// Checks an address of the demo service that was read.
pub fn check_loopback_url(url: &UrlParts) -> (r: OpsResult<()>)
    ensures
        match r {
            Ok(_) => loopback_error(url@) is None,
            Err(e) => loopback_error(url@) == Some(e@),
        },
{
    if !same(url.scheme.as_str(), "http") && !same(url.scheme.as_str(), "https") {
        return Err(OpsCodexError::Policy("demo fault URL must use http or https".to_owned()));
    }
    if !url.username.as_str().is_empty() || url.has_password {
        return Err(OpsCodexError::Policy("demo fault URL cannot contain credentials".to_owned()));
    }
    if !is_loopback_name(url.host_name()) {
        return Err(
            OpsCodexError::Policy("demo fault reset is limited to loopback hosts".to_owned()),
        );
    }
    Ok(())
}

/// The address under which the endpoints of the demo service are found: the path of
/// the address that is given, with an end.
pub open spec fn demo_base(value: Seq<char>) -> Result<UrlView, ErrorView> {
    match demo_url_error(value) {
        Some(e) => Err(e),
        None => {
            let url = url_of(value)->Ok_0;
            if has_end(url.path) {
                Ok(url)
            } else if value.len() > MAX_URL_CHARS || url.path.len() >= MAX_URL_CHARS {
                Err(ErrorView::Protocol("invalid demo_fault_url: too long"@))
            } else {
                Ok(url_with_path(value, url.path + "/"@)->0)
            }
        },
    }
}

/// Checks the address of the demo service, and gives its path an end.
pub fn validate_loopback_url(value: &str) -> (r: OpsResult<UrlParts>)
    ensures
        match r {
            Ok(url) => demo_base(value@) == Ok::<UrlView, ErrorView>(url@),
            Err(e) => demo_base(value@) == Err::<UrlView, ErrorView>(e@),
        },
{
    let url = match parse_url(value) {
        Ok(url) => url,
        Err(error) => {
            let mut message = "invalid demo_fault_url: ".to_owned();
            message.append(error.as_str());
            return Err(OpsCodexError::Protocol(message));
        },
    };
    match check_loopback_url(&url) {
        Ok(_) => {},
        Err(e) => return Err(e),
    }
    let chars = crate::text::chars_of(url.path.as_str());
    let n: usize = chars.len();
    if n > 0 && chars[n - 1] == '/' {
        return Ok(url);
    }
    if crate::text::chars_of(value).len() > MAX_URL_CHARS || n >= MAX_URL_CHARS {
        return Err(OpsCodexError::Protocol("invalid demo_fault_url: too long".to_owned()));
    }
    let mut path = url.path.clone();
    path.append("/");
    proof {
        reveal_strlit("/");
    }
    match set_path(value, path.as_str()) {
        Some(url) => Ok(url),
        None => Err(OpsCodexError::Protocol("invalid demo_fault_url".to_owned())),
    }
}

/// An endpoint of the demo service.
pub open spec fn endpoint(base: UrlView, name: Seq<char>) -> Result<Seq<char>, ErrorView> {
    match joined_url(base.text, name) {
        Ok(url) => Ok(url),
        Err(e) => Err(ErrorView::Tool("invalid demo fault URL: "@ + e)),
    }
}

/// The address of an endpoint of the demo service.
pub fn demo_endpoint(base: &UrlParts, name: &str) -> (r: OpsResult<String>)
    ensures
        match r {
            Ok(url) => endpoint(base@, name@) == Ok::<Seq<char>, ErrorView>(url@),
            Err(e) => endpoint(base@, name@) == Err::<Seq<char>, ErrorView>(e@),
        },
{
    match join_url(base.text.as_str(), name) {
        Ok(url) => Ok(url),
        Err(error) => {
            let mut message = "invalid demo fault URL: ".to_owned();
            message.append(error.as_str());
            Err(OpsCodexError::Tool(message))
        },
    }
}

// ---------------------------------------------------------------------------
// What the demo service answers
// ---------------------------------------------------------------------------
/// How much of an answer is read, in bytes.
pub const MAX_REPLY_BYTES: usize = 16384;

/// What is made of an answer: of its status, and of the document that its body holds.
pub open spec fn replied(
    success: bool,
    status: Seq<char>,
    read: Result<JsonView, Seq<char>>,
) -> Result<JsonView, ErrorView> {
    if !success {
        Err(ErrorView::Tool("demo fault endpoint returned "@ + status))
    } else {
        match read {
            Ok(value) => Ok(value),
            Err(e) => Err(ErrorView::Connector(ConnectorClass::MalformedData, e)),
        }
    }
}

/// Takes an answer whose body was read.
pub fn take_reply(success: bool, status: &str, read: Result<Json, String>) -> (r: OpsResult<Json>)
    ensures
        is_replied(
            r,
            replied(
                success,
                status@,
                match read {
                    Ok(value) => Ok(value@),
                    Err(e) => Err(e@),
                },
            ),
        ),
{
    if !success {
        let mut message = "demo fault endpoint returned ".to_owned();
        message.append(status);
        return Err(OpsCodexError::Tool(message));
    }
    match read {
        Ok(value) => Ok(value),
        Err(error) => Err(OpsCodexError::connector(ConnectorClass::MalformedData, error)),
    }
}

/// The result is this one.
pub open spec fn is_replied(r: OpsResult<Json>, expected: Result<JsonView, ErrorView>) -> bool {
    match r {
        Ok(value) => expected == Ok::<JsonView, ErrorView>(value@),
        Err(e) => expected == Err::<JsonView, ErrorView>(e@),
    }
}

/// Reads an answer: its status, and the bytes of its body.
pub fn read_reply(success: bool, status: &str, body: &[u8]) -> (r: OpsResult<Json>)
    ensures
        is_replied(r, replied(success, status@, json_of_bytes(body@))),
{
    take_reply(success, status, read_json_bytes(body))
}

// ---------------------------------------------------------------------------
// Laws
// ---------------------------------------------------------------------------
/// A dry run of the reset changes nothing: it never sends the reset, and says
/// that nothing was committed.
pub proof fn law_demo_dry_run_changes_nothing(
    base: UrlView,
    reply: Reply,
    r: (DemoPhase, DemoAction),
)
    requires
        demo_stepped(base, DemoPhase::Checking, reply, true, r),
    ensures
        !(r.1 is PostReset),
        r.1 matches DemoAction::Finish { outcome } ==> !outcome@.committed,
{
}

/// A workload that is not the one that was approved is not patched.
pub proof fn law_changed_workload_is_not_patched(
    request: ScaleRequest,
    value: Json,
    r: (ScalePhase, ScaleAction),
)
    requires
        scale_stepped(request, ScalePhase::Reading, (Reply::Value { value }), false, r),
        !is_unchanged(request, value@),
    ensures
        r.1 is Abort,
{
}

/// A change whose result is not known is never said to be verified or
/// committed, and is said to be uncertain.
pub proof fn law_doubt_is_reported(
    request: ScaleRequest,
    before: Json,
    error: OpsCodexError,
    dry_run: bool,
    r: (ScalePhase, ScaleAction),
)
    requires
        scale_stepped(
            request,
            (ScalePhase::Patching { before }),
            (Reply::Failed { error }),
            dry_run,
            r,
        ),
        leaves_doubt(error@),
    ensures
        r.1 matches ScaleAction::Finish { outcome } && outcome@.uncertain && !outcome@.committed
            && !outcome@.verified,
{
}

} // verus!
