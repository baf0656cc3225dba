use opscodex::config::{Config, ExtensionConfigEntry, ExtensionsConfig, SkillConfigEntry};
use opscodex::error::OpsCodexError;
use opscodex::extensions::capability::{
    capability_id, hash_bytes, hash_schema, parse_capability_id, CapabilityDescriptor,
    CapabilityEffect, CapabilitySource, RecoveryMode,
};
use opscodex::extensions::catalog::{
    applies_to, install_custom, install_server_tools, load_skills, plan_extension, required_effect,
    required_recovery, stdio_origin, tries_again, ExtensionCatalog, InstallPlan,
};
use opscodex::extensions::custom::{
    load_custom_manifest, validate_against_schema, CustomJsonTool, CustomToolManifest,
    CustomToolMetadata, CustomToolSpec,
};
use opscodex::extensions::lifecycle::ExtensionState;
use opscodex::extensions::mcp::{
    call_params, check_initialized, check_mcp_url, check_message, frame_message, http_payload,
    http_timeout, initialize_params, mcp_http_call, mcp_http_initialize, notification_message,
    parse_listed_tools, read_body_message, read_line_message, validate_mcp_http_url, CallReply, HeaderReader, HttpReply, McpHttpTool, McpInstallSpec,
    McpListedTool, McpSession, McpTool, Reading,
};
use opscodex::extensions::skill::{parse_skill, Skill, SkillCatalog, SkillFront};
use opscodex::extensions::supervisor::{
    child_env, finish_run, is_blocked_env, validate_command, validate_path, Attempt, BoundedOutput,
    ChildSupervisor, SupervisorOutput, Waited,
};
use opscodex::json::{Json, JsonEntry, JsonNumber};
use opscodex::runbook::{parse_runbook, RunbookCatalog, RunbookFile, RunbookFront};
use opscodex::runtime::thread::WorkspaceId;
use opscodex::time::Timestamp;
use opscodex::tools::ToolRisk;
use opscodex::url_text::UrlParts;

fn object(entries: Vec<(&str, Json)>) -> Json {
    Json::Object(
        entries
            .into_iter()
            .map(|(key, value)| JsonEntry { key: key.to_owned(), value })
            .collect(),
    )
}

fn now() -> Timestamp {
    Timestamp::new(1_700_000_000, 0).unwrap()
}

#[test]
fn capability_ids_are_read_back() {
    let id = capability_id("mcp", "server/tool", "1.2.3");
    let (namespace, name, version) = parse_capability_id(&id).unwrap();
    assert_eq!((namespace.as_str(), name.as_str(), version.as_str()), ("mcp", "server/tool", "1.2.3"));
    assert!(parse_capability_id("nothing").is_err());
    assert_eq!(CapabilityEffect::parse("observe").unwrap(), CapabilityEffect::Observe);
    assert!(CapabilityEffect::parse("maybe").is_err());
    assert_eq!(RecoveryMode::parse("none").unwrap(), RecoveryMode::NoneNeeded);
    assert!(RecoveryMode::parse("maybe").is_err());
    assert_eq!(CapabilitySource::parse("custom").unwrap(), CapabilitySource::Custom);
}

#[test]
fn strictest_effect_wins() {
    let builtin = CapabilityDescriptor::builtin(
        "t".to_owned(),
        "d".to_owned(),
        Json::Null,
        ToolRisk::Safe,
    );
    assert_eq!(builtin.effect, CapabilityEffect::Observe);
    assert_eq!(builtin.provenance.schema_hash, hash_schema(&Json::Null));
    assert_eq!(hash_schema(&Json::Null), hash_bytes(b"null"));
    let raised = builtin.apply_strictest(None, Some(CapabilityEffect::ChangeReversible));
    assert_eq!(raised.effect, CapabilityEffect::ChangeReversible);
    let kept = raised.apply_strictest(Some(CapabilityEffect::Observe), None);
    assert_eq!(kept.effect, CapabilityEffect::ChangeReversible);
    assert_eq!(
        CapabilityEffect::strictest(&vec![]),
        CapabilityEffect::ExternalSideEffect
    );
}

// ---------------------------------------------------------------------------
// Processes
// ---------------------------------------------------------------------------
#[test]
fn paths_may_not_lead_upwards() {
    assert!(validate_path("/a/b").is_ok());
    assert!(validate_path("/a/..b").is_ok());
    assert!(validate_path("/a/../b").is_err());
    assert!(validate_path("a\0b").is_err());
    assert!(matches!(validate_command("bin/x", true), Err(OpsCodexError::Policy(_))));
    assert_eq!(
        validate_command("/bin/x", false).unwrap_err().to_string(),
        "resource not found: extension command /bin/x"
    );
    assert!(validate_command("/bin/x", true).is_ok());
}

#[test]
fn secrets_are_not_handed_to_processes() {
    assert!(is_blocked_env("openai_api_key"));
    assert!(is_blocked_env("MyToken"));
    assert!(!is_blocked_env("PATH"));
    let env = vec![
        ("PATH".to_owned(), "/bin".to_owned()),
        ("DB_PASSWORD".to_owned(), "x".to_owned()),
        ("LANG".to_owned(), "C".to_owned()),
    ];
    let passed: Vec<String> = child_env(&env).into_iter().map(|pair| pair.0).collect();
    assert_eq!(passed, vec!["PATH", "LANG"]);
}

#[test]
fn output_is_kept_up_to_a_bound() {
    let mut pieces = BoundedOutput::new(5);
    for piece in [&b"ab"[..], b"", b"cde", b"f"] {
        pieces.accept(piece);
    }
    let mut whole = BoundedOutput::new(5);
    whole.accept(b"abcdef");
    assert_eq!(pieces.bytes, b"abcde");
    assert_eq!(pieces.bytes, whole.bytes);
    assert!(pieces.truncated && whole.truncated);
    let mut exact = BoundedOutput::new(5);
    exact.accept(b"abcde");
    assert!(!exact.truncated);
}

#[test]
fn processes_are_started_again_a_few_times() {
    assert_eq!(ChildSupervisor::new(9).max_restarts, 5);
    assert_eq!(ChildSupervisor::default().max_restarts, 2);
    let supervisor = ChildSupervisor::new(1);
    let failed = || Err(OpsCodexError::Tool("x".to_owned()));
    assert!(matches!(supervisor.run_once(0, failed(), false), Attempt::Again(1)));
    assert!(matches!(supervisor.run_once(1, failed(), false), Attempt::Done(Err(_))));
    assert!(matches!(supervisor.run_once(0, failed(), true), Attempt::Done(Err(_))));
    assert!(matches!(
        supervisor.run_once(0, Err(OpsCodexError::Cancelled), false),
        Attempt::Done(Err(OpsCodexError::Cancelled))
    ));
    let output = SupervisorOutput { stdout: vec![1], stderr: vec![], truncated: false };
    assert!(matches!(supervisor.run_once(0, Ok(output), false), Attempt::Done(Ok(_))));
    assert!(tries_again(&supervisor, 1));
    assert!(!tries_again(&supervisor, 2));
}

#[test]
fn ends_of_processes_are_told() {
    let end = |waited: Waited| finish_run(waited, BoundedOutput::new(1), BoundedOutput::new(1));
    assert!(end(Waited::Exited { success: true, code: Some(0) }).is_ok());
    assert_eq!(
        end(Waited::Exited { success: false, code: Some(3) }).unwrap_err().to_string(),
        "tool error: extension process exited with 3"
    );
    assert_eq!(
        end(Waited::Exited { success: false, code: None }).unwrap_err().to_string(),
        "tool error: extension process exited with -1"
    );
    assert_eq!(
        end(Waited::TimedOut).unwrap_err().to_string(),
        "operation timed out: extension process timed out"
    );
    assert!(matches!(end(Waited::Cancelled), Err(OpsCodexError::Cancelled)));
    assert_eq!(
        end(Waited::Failed("e".to_owned())).unwrap_err().to_string(),
        "tool error: extension process wait failed: e"
    );
}

// ---------------------------------------------------------------------------
// Custom tools
// ---------------------------------------------------------------------------
fn manifest() -> CustomToolManifest {
    CustomToolManifest {
        api_version: "opscodex.dev/v1".to_owned(),
        kind: "Tool".to_owned(),
        metadata: CustomToolMetadata { name: "probe".to_owned(), version: "2.0.0".to_owned() },
        spec: CustomToolSpec {
            command: "/opt/probe".to_owned(),
            args: vec!["-v".to_owned()],
            cwd: None,
            input_schema: object(vec![("type", Json::text("object"))]),
            output_schema: Some(object(vec![("type", Json::text("object"))])),
            effect: "observe".to_owned(),
            recovery: Some("none_needed".to_owned()),
            timeout_seconds: Some(0),
            max_output_bytes: None,
            env_allowlist: vec!["LANG".to_owned()],
        },
    }
}

fn env() -> Vec<(String, String)> {
    vec![
        ("LANG".to_owned(), "C".to_owned()),
        ("HOME".to_owned(), "/".to_owned()),
    ]
}

fn custom(
    trusted: bool,
    effect: Option<CapabilityEffect>,
    max: Option<CapabilityEffect>,
) -> Result<CustomJsonTool, OpsCodexError> {
    CustomJsonTool::from_manifest(manifest(), trusted, effect, max, env(), 9, true, b"elf")
}

#[test]
fn custom_tool_is_made_of_its_manifest() {
    let tool = custom(true, Some(CapabilityEffect::ChangeReversible), None).unwrap();
    assert_eq!(tool.capability.name, "custom/probe");
    assert_eq!(tool.capability.id, capability_id("custom", "probe", "2.0.0"));
    assert_eq!(tool.capability.effect, CapabilityEffect::ChangeReversible);
    assert_eq!(tool.capability.timeout_seconds, 1);
    assert_eq!(tool.capability.max_output_bytes, 64 * 1024);
    assert_eq!(tool.risk(), ToolRisk::Ask);
    assert_eq!(tool.supervisor.max_restarts, 5);
    assert_eq!(tool.env, vec![("LANG".to_owned(), "C".to_owned())]);
    assert_eq!(tool.spawn_spec().command, "/opt/probe");
    assert!(tool.check_binary(b"elf").is_ok());
    assert!(tool.check_binary(b"other").unwrap_err().to_string().contains("binary hash changed"));
    let output = tool.output(Ok(object(vec![("up", Json::Bool(true))])), true, now()).unwrap();
    assert_eq!(output.content.str_at("source"), Some("custom"));
    assert_eq!(output.content.str_at("version"), Some("2.0.0"));
    assert!(output.evidence.truncated);
    assert_eq!(output.evidence.summary, "custom tool custom/probe");
    assert!(tool.output(Ok(Json::Null), false, now()).is_err());
    assert!(tool.output(Err("eof".to_owned()), false, now()).is_err());
    let written = tool.output_of(b" {\"up\": [1, -2, 1.50]} ", false, now()).unwrap();
    assert_eq!(written.content.get("result").unwrap().to_text(), "{\"up\":[1,-2,1.5]}");
    assert!(tool
        .output_of(b"{", false, now())
        .unwrap_err()
        .to_string()
        .contains("custom tool returned invalid JSON: EOF while parsing"));
    assert!(tool.output_of(b"3", false, now()).is_err());
}

#[test]
fn custom_tool_is_refused() {
    assert!(custom(false, None, None).unwrap_err().to_string().contains("requires trusted_local"));
    assert!(custom(
        true,
        Some(CapabilityEffect::ExternalSideEffect),
        Some(CapabilityEffect::Observe)
    )
    .unwrap_err()
    .to_string()
    .contains("exceeds workspace max `observe`"));
    let mut odd = manifest();
    odd.spec.effect = "maybe".to_owned();
    assert!(CustomJsonTool::from_manifest(odd, true, None, None, env(), 1, true, b"").is_err());
    let mut no_recovery = manifest();
    no_recovery.spec.recovery = None;
    assert!(
        CustomJsonTool::from_manifest(no_recovery, true, None, None, env(), 1, true, b"")
            .unwrap_err()
            .to_string()
            .contains("missing recovery metadata")
    );
    assert!(CustomJsonTool::from_manifest(manifest(), true, None, None, env(), 1, false, b"").is_err());
}

#[test]
fn manifests_are_checked() {
    assert!(load_custom_manifest("/m.yaml", Ok(Ok(manifest()))).is_ok());
    assert!(load_custom_manifest("../m.yaml", Ok(Ok(manifest()))).is_err());
    assert_eq!(
        load_custom_manifest("/m.yaml", Err("gone".to_owned())).unwrap_err().to_string(),
        "storage error: failed to read /m.yaml: gone"
    );
    assert!(load_custom_manifest("/m.yaml", Ok(Err("bad".to_owned()))).is_err());
    let mut other = manifest();
    other.kind = "Thing".to_owned();
    assert!(load_custom_manifest("/m.yaml", Ok(Ok(other))).is_err());
}

#[test]
fn outputs_are_held_to_their_type() {
    let schema = |name: &str| object(vec![("type", Json::text(name))]);
    assert!(validate_against_schema(&Json::number(1), &schema("integer")).is_ok());
    assert!(validate_against_schema(&Json::text("x"), &schema("integer")).is_err());
    assert!(validate_against_schema(&Json::Array(vec![]), &schema("array")).is_ok());
    assert!(validate_against_schema(&Json::Bool(true), &schema("boolean")).is_ok());
    assert!(validate_against_schema(&Json::Null, &schema("null")).is_ok());
    assert!(validate_against_schema(&Json::Null, &schema("string")).is_err());
    assert!(validate_against_schema(&Json::Null, &schema("whatever")).is_ok());
    assert!(validate_against_schema(&Json::Null, &Json::Null).is_ok());
}

// ---------------------------------------------------------------------------
// Servers
// ---------------------------------------------------------------------------
#[test]
fn messages_are_framed() {
    let mut session = McpSession::new();
    let (id, message) = session.request("tools/call", call_params("t", Json::Null));
    assert_eq!(id, 1);
    assert_eq!(session.next_id, 2);
    let body = "{\"id\":1,\"jsonrpc\":\"2.0\",\"method\":\"tools/call\",\"params\":{\"arguments\":null,\"name\":\"t\"}}";
    assert_eq!(message.to_text(), body);
    assert_eq!(
        frame_message(&message),
        format!("Content-Length: {}\r\n\r\n{}", body.len(), body).into_bytes()
    );
    assert_eq!(
        notification_message("n", object(vec![])).to_text(),
        "{\"jsonrpc\":\"2.0\",\"method\":\"n\",\"params\":{}}"
    );
    assert_eq!(
        initialize_params().to_text(),
        "{\"capabilities\":{},\"clientInfo\":{\"name\":\"opscodex\",\"version\":\"0.1.0\"},\"protocolVersion\":\"2024-11-05\"}"
    );
}

#[test]
fn framed_message_is_read_back() {
    let message = object(vec![("a", Json::text("ä"))]);
    let bytes = frame_message(&message);
    let text = String::from_utf8(bytes).unwrap();
    let mut reader = HeaderReader::new();
    let mut lines = text.split_inclusive('\n');
    assert!(matches!(reader.accept(lines.next()), Ok(Reading::Line)));
    let length = match reader.accept(lines.next()) {
        Ok(Reading::Body(n)) => n,
        other => panic!("unexpected {:?}", other),
    };
    assert_eq!(length, message.to_bytes().len());
    assert_eq!(text.as_bytes()[text.len() - length..], message.to_bytes()[..]);
}

#[test]
fn headers_are_read() {
    let mut reader = HeaderReader::new();
    assert!(matches!(reader.accept(Some("Content-Type: x\r\n")), Ok(Reading::Line)));
    assert!(matches!(reader.accept(Some("CONTENT-LENGTH:  +7 \r\n")), Ok(Reading::Line)));
    assert!(matches!(reader.accept(Some("noise\n")), Ok(Reading::Line)));
    assert!(matches!(reader.accept(Some("\r\n")), Ok(Reading::Body(7))));
    assert!(HeaderReader::new().accept(Some("content-length: x\n")).is_err());
    assert!(HeaderReader::new().accept(Some("\n")).is_err());
    assert!(HeaderReader::new().accept(None).is_err());
    assert!(matches!(
        HeaderReader::new().accept(Some(" {} \n")),
        Ok(Reading::Document(text)) if text == "{}"
    ));
}

#[test]
fn answers_belong_to_their_request() {
    let reply = |id: Json| object(vec![("id", id), ("result", Json::text("r"))]);
    assert!(matches!(
        McpSession::answer(4, &reply(Json::number(4))),
        Some(Ok(Json::Text(text))) if text == "r"
    ));
    assert!(McpSession::answer(5, &reply(Json::number(4))).is_none());
    assert!(McpSession::answer(4, &reply(Json::text("4"))).is_none());
    assert!(McpSession::answer(
        u64::MAX,
        &reply(Json::Number(JsonNumber::NegInt(-1)))
    )
    .is_some());
    let failed = object(vec![("id", Json::number(4)), ("error", object(vec![("code", Json::number(1))]))]);
    assert_eq!(
        McpSession::answer(4, &failed).unwrap().unwrap_err().to_string(),
        "tool error: MCP error: {\"code\":1}"
    );
    assert!(matches!(
        McpSession::answer(4, &object(vec![("id", Json::number(4))])),
        Some(Ok(Json::Null))
    ));
}

#[test]
fn replies_over_http_are_read() {
    assert!(matches!(mcp_http_call(HttpReply::Cancelled), Err(OpsCodexError::Cancelled)));
    assert!(matches!(mcp_http_call(HttpReply::TimedOut), Err(OpsCodexError::Timeout(_))));
    assert!(mcp_http_call(HttpReply::Failed("x".to_owned())).is_err());
    assert!(mcp_http_call(HttpReply::Undecodable("x".to_owned())).is_err());
    let good = object(vec![("result", object(vec![("protocolVersion", Json::text("1"))]))]);
    assert!(mcp_http_initialize(HttpReply::Payload(good)).is_ok());
    assert!(mcp_http_initialize(HttpReply::Payload(object(vec![]))).is_err());
    assert!(check_initialized(&object(vec![("protocolVersion", Json::number(1))])).is_err());
    assert_eq!(http_timeout(0), 1);
    assert_eq!(http_timeout(9), 9);
}

#[test]
fn listings_are_read() {
    let listed = parse_listed_tools(&object(vec![(
        "tools",
        Json::Array(vec![object(vec![("name", Json::text("t"))])]),
    )]))
    .unwrap();
    assert_eq!(listed[0].description, "MCP tool");
    assert_eq!(listed[0].input_schema.to_text(), "{\"type\":\"object\"}");
    assert!(parse_listed_tools(&Json::Null).unwrap().is_empty());
    assert!(parse_listed_tools(&object(vec![("tools", Json::Array(vec![Json::Null]))])).is_err());
}

fn listed(name: &str) -> McpListedTool {
    McpListedTool {
        name: name.to_owned(),
        description: "d".to_owned(),
        input_schema: object(vec![]),
    }
}

fn spec(effect: CapabilityEffect, max: Option<CapabilityEffect>) -> McpInstallSpec<'static> {
    McpInstallSpec {
        server_id: "srv",
        trusted_local: true,
        effect,
        recovery: RecoveryMode::Idempotent,
        version: "1.0.0",
        workspace_max: max,
        origin: "mcp-stdio:srv".to_owned(),
    }
}

#[test]
fn server_tools_are_described_and_bounded() {
    let tool = McpTool::new(spec(CapabilityEffect::Observe, None), listed("t")).unwrap();
    assert_eq!(tool.capability.name, "mcp/srv/t");
    assert_eq!(tool.capability.id, capability_id("mcp", "srv/t", "1.0.0"));
    assert_eq!(tool.risk(), ToolRisk::Safe);
    let output = tool.finish(CallReply::Answered(Ok(Json::number(1))), now()).unwrap();
    assert_eq!(output.content.str_at("source"), Some("mcp"));
    assert_eq!(output.evidence.summary, "MCP mcp/srv/t");
    assert!(tool.finish(CallReply::TimedOut, now()).is_err());
    assert!(matches!(tool.finish(CallReply::Cancelled, now()), Err(OpsCodexError::Cancelled)));
    assert!(McpTool::new(
        spec(CapabilityEffect::ChangeReversible, Some(CapabilityEffect::Observe)),
        listed("t")
    )
    .is_err());
    let http = McpHttpTool::new(spec(CapabilityEffect::Observe, None), listed("t"), "http://x".to_owned())
        .unwrap();
    assert!(http.finish(HttpReply::Payload(object(vec![])), now()).is_ok());
}

#[test]
fn endpoints_must_be_listed() {
    let hosts = vec!["Tools.example.com".to_owned(), "localhost".to_owned()];
    assert!(validate_mcp_http_url("https://tools.example.com/mcp", &hosts).is_ok());
    assert!(validate_mcp_http_url("http://localhost:9/mcp", &hosts).is_ok());
    assert!(validate_mcp_http_url("http://tools.example.com/", &hosts).is_err());
    assert!(validate_mcp_http_url("https://other.example.com/", &hosts)
        .unwrap_err()
        .to_string()
        .contains("MCP host `other.example.com` is not in the Workspace allowlist"));
    assert!(validate_mcp_http_url("https://u:p@tools.example.com/", &hosts).is_err());
    assert!(validate_mcp_http_url("https://tools.example.com/", &vec![]).is_err());
    assert!(validate_mcp_http_url("no url", &hosts).is_err());
    let parts = UrlParts {
        text: String::new(),
        scheme: "http".to_owned(),
        username: String::new(),
        has_password: false,
        host: None,
        path: String::new(),
    };
    assert!(check_mcp_url(&parts, &hosts).is_err());
}

// ---------------------------------------------------------------------------
// The catalog
// ---------------------------------------------------------------------------
fn entry(kind: &str) -> ExtensionConfigEntry {
    let mut entry = ExtensionConfigEntry::default();
    entry.id = "ext".to_owned();
    entry.kind = kind.to_owned();
    entry
}

#[test]
fn production_starts_no_program() {
    let mut policy = ExtensionsConfig::default();
    policy.production_safe = true;
    policy.allow_custom_tools = true;
    let mut custom = entry("custom");
    custom.trusted_local = true;
    custom.path = Some("/m.yaml".to_owned());
    assert!(plan_extension(&policy, &custom).is_err());
    let mut stdio = entry("mcp");
    stdio.command = Some("/bin/srv".to_owned());
    assert!(plan_extension(&policy, &stdio).is_err());
    let mut http = entry("mcp_http");
    http.url = Some("https://tools.example.com/".to_owned());
    assert!(plan_extension(&policy, &http).is_err());
    http.allowlist_hosts = vec!["tools.example.com".to_owned()];
    assert!(matches!(plan_extension(&policy, &http), Ok(InstallPlan::Http(_))));
}

#[test]
fn extensions_are_planned() {
    let mut policy = ExtensionsConfig::default();
    let mut custom = entry("custom");
    custom.path = Some("/m.yaml".to_owned());
    assert!(plan_extension(&policy, &custom).is_err());
    policy.allow_custom_tools = true;
    assert!(plan_extension(&policy, &custom).is_err());
    custom.trusted_local = true;
    assert!(matches!(plan_extension(&policy, &custom), Ok(InstallPlan::Custom(path)) if path == "/m.yaml"));
    custom.path = None;
    assert_eq!(
        plan_extension(&policy, &custom).unwrap_err().to_string(),
        "protocol error: extension `ext` is missing path"
    );
    let mut stdio = entry("mcp");
    assert!(plan_extension(&policy, &stdio).is_err());
    stdio.command = Some("/bin/srv".to_owned());
    stdio.max_restarts = Some(9);
    assert!(matches!(
        plan_extension(&policy, &stdio),
        Ok(InstallPlan::Stdio(_, supervisor)) if supervisor.max_restarts == 5
    ));
    stdio.cwd = Some("/a/../b".to_owned());
    assert!(plan_extension(&policy, &stdio).is_err());
    assert!(plan_extension(&policy, &entry("mcp_http")).is_err());
    assert!(plan_extension(&policy, &entry("odd"))
        .unwrap_err()
        .to_string()
        .contains("unsupported extension kind `odd`"));
}

#[test]
fn server_tools_need_local_settings() {
    let mut server = entry("mcp");
    assert!(required_effect(&server).unwrap_err().to_string().contains("requires a local effect override"));
    assert!(required_recovery(&server).is_err());
    let (none, failed) = install_server_tools(&server, Ok(vec![listed("a")]), "o", "w", None);
    assert!(none.is_empty());
    assert!(failed.is_err());
    server.effect = Some("observe".to_owned());
    server.recovery = Some("idempotent".to_owned());
    assert_eq!(stdio_origin(&server), "mcp-stdio:ext");
    let (tools, summary) =
        install_server_tools(&server, Ok(vec![listed("a"), listed("b")]), "o", "w", None);
    assert_eq!(tools.len(), 2);
    let summary = summary.unwrap();
    assert!(summary.enabled);
    assert_eq!(summary.capabilities.len(), 2);
    assert_eq!(summary.workspaces, vec!["w"]);
    assert_eq!(summary.hash, hash_bytes(b"o"));
    let (some, stopped) = install_server_tools(
        &server,
        Ok(vec![listed("a"), listed("b@c"), listed("d")]),
        "o",
        "w",
        Some(CapabilityEffect::Observe),
    );
    assert!(some.len() <= 3);
    assert_eq!(stopped.is_ok(), some.len() == 3);
}

#[test]
fn failed_extension_is_listed_as_disabled() {
    let mut catalog = ExtensionCatalog::default();
    catalog.record(&entry("mcp"), "w", Err(OpsCodexError::Tool("down".to_owned())));
    let summaries = catalog.summaries();
    assert_eq!(summaries.len(), 1);
    assert!(!summaries[0].enabled);
    assert_eq!(summaries[0].version, "unknown");
    assert_eq!(summaries[0].hash, "unpinned");
    assert_eq!(summaries[0].health.detail.as_deref(), Some("tool error: down"));
    assert!(matches!(summaries[0].health.state, ExtensionState::Disabled));
    assert_eq!(catalog.for_workspace("w").len(), 1);
    assert_eq!(catalog.for_workspace("other").len(), 0);
}

#[test]
fn custom_extension_is_installed() {
    let mut custom = entry("custom");
    custom.trusted_local = true;
    let (tool, summary) =
        install_custom(&custom, "/m.yaml", Ok(Ok(manifest())), env(), true, b"elf", "w", None).unwrap();
    assert_eq!(summary.kind, "custom");
    assert_eq!(summary.version, "2.0.0");
    assert_eq!(summary.capabilities[0].id, tool.capability.id);
    assert_eq!(tool.supervisor.max_restarts, 2);
    assert_eq!(tool.command, "/opt/probe");
    assert_eq!(tool.args, vec!["-v"]);
    assert_eq!(tool.cwd, None);
    assert_eq!(tool.env, vec![("LANG".to_owned(), "C".to_owned())]);
    assert_eq!(summary.health.detail, None);
    assert_eq!(summary.health.restart_count, 0);
    custom.effect = Some("odd".to_owned());
    assert!(
        install_custom(&custom, "/m.yaml", Ok(Ok(manifest())), env(), true, b"", "w", None).is_err()
    );
    let mut away = entry("custom");
    away.workspaces = vec!["a".to_owned()];
    assert!(applies_to(&away, "a"));
    assert!(!applies_to(&away, "b"));
    away.enabled = false;
    assert!(!applies_to(&away, "a"));
}

// ---------------------------------------------------------------------------
// Skills and runbooks
// ---------------------------------------------------------------------------
fn skill(id: &str, body: &str) -> Skill {
    let source = format!("---\nid: {}\n---\n{}\n", id, body);
    parse_skill(
        &source,
        Ok(SkillFront {
            id: id.to_owned(),
            title: format!("Title {}", id),
            version: "1".to_owned(),
            services: vec!["Orders".to_owned()],
            tags: vec!["Latency".to_owned()],
            required_tools: vec![],
            max_context_bytes: None,
        }),
    )
    .unwrap()
}

#[test]
fn skills_are_read() {
    let read = skill("a", "look first");
    assert_eq!(read.body, "look first");
    assert_eq!(read.meta.max_context_bytes, 4096);
    assert_eq!(read.meta.hash, hash_bytes(b"a1look first"));
    assert!(parse_skill("no head", Err("x".to_owned())).is_err());
    assert!(parse_skill("---\nid: a", Err("x".to_owned())).is_err());
    assert!(parse_skill("---\nid: a\n---\nb", Err("x".to_owned()))
        .unwrap_err()
        .to_string()
        .contains("invalid skill front matter: x"));
    let path = SkillFront {
        id: "../a".to_owned(),
        title: String::new(),
        version: "1".to_owned(),
        services: vec![],
        tags: vec![],
        required_tools: vec![],
        max_context_bytes: Some(1),
    };
    assert!(matches!(
        parse_skill("---\nid: a\n---\nb", Ok(path)),
        Err(OpsCodexError::Policy(_))
    ));
}

#[test]
fn skills_are_selected_and_shown_within_a_budget() {
    let mut catalog = SkillCatalog::default();
    assert!(catalog.is_empty());
    catalog.insert(skill("b", "second")).unwrap();
    catalog.insert(skill("a", "first")).unwrap();
    assert!(catalog.insert(skill("a", "again")).is_err());
    let found: Vec<String> = catalog
        .select(Some("orders"), "LATENCY")
        .into_iter()
        .map(|skill| skill.meta.id.clone())
        .collect();
    assert_eq!(found, vec!["a", "b"]);
    assert!(catalog.select(Some("billing"), "").is_empty());
    assert!(catalog.select(None, "nothing like it").is_empty());
    assert!(catalog.can_render(None, "", 4096));
    let all = catalog.render(None, "", 4096);
    assert!(all.starts_with("Untrusted skill references follow."));
    assert!(all.contains("\n### skill a@1 ("));
    assert!(all.find("first").unwrap() < all.find("second").unwrap());
    let little = catalog.render(None, "", 250);
    assert!(little.len() <= 250);
    assert!(little.contains("first") && !little.contains("second"));
    assert_eq!(catalog.summaries()[0].bytes, "second".len());
}

#[test]
fn long_skills_are_cut() {
    let mut long = skill("a", &"x".repeat(600));
    long.meta.max_context_bytes = 256;
    let mut catalog = SkillCatalog::default();
    catalog.insert(long).unwrap();
    let shown = catalog.render(None, "", 4096);
    assert!(shown.ends_with("x…\n"));
    assert!(shown.len() < 600);
    let mut odd = skill("a", &"ä".repeat(600));
    let head = odd.meta.id.len() + odd.meta.version.len() + odd.meta.hash.len() + "\n### skill @ ()\n".len();
    odd.meta.max_context_bytes = head + 301;
    let mut other = SkillCatalog::default();
    other.insert(odd).unwrap();
    assert!(!other.can_render(None, "", 4096));
}

#[test]
fn skills_of_a_workspace_are_loaded() {
    let mut config = Config::default();
    for (path, workspaces) in [("a", vec![]), ("b", vec!["w".to_owned()]), ("c", vec!["v".to_owned()])] {
        let mut entry = SkillConfigEntry::default();
        entry.path = path.to_owned();
        entry.workspaces = workspaces;
        config.skills.push(entry);
    }
    let loaded = || vec![Ok(skill("a", "1")), Ok(skill("b", "2")), Ok(skill("c", "3"))];
    let workspace = WorkspaceId::new("w");
    assert_eq!(load_skills(&config, &workspace, loaded()).summaries().len(), 2);
    assert_eq!(
        SkillCatalog::load(&config.skills, &workspace, loaded()).unwrap().summaries().len(),
        2
    );
    let broken = || vec![Err(OpsCodexError::Storage("x".to_owned())), Ok(skill("b", "2")), Ok(skill("c", "3"))];
    assert_eq!(load_skills(&config, &workspace, broken()).summaries().len(), 1);
    assert!(SkillCatalog::load(&config.skills, &workspace, broken()).is_err());
    let twice = vec![Ok(skill("b", "1")), Ok(skill("b", "2")), Ok(skill("c", "3"))];
    assert_eq!(load_skills(&config, &workspace, twice).summaries().len(), 1);
}

fn runbook_front(id: &str, version: u32) -> RunbookFront {
    RunbookFront {
        id: id.to_owned(),
        title: "Slow checkout".to_owned(),
        services: vec!["orders".to_owned()],
        signals: vec!["latency".to_owned()],
        tags: vec!["db".to_owned()],
        version,
    }
}

#[test]
fn latest_runbook_is_read() {
    let mut catalog = RunbookCatalog::default();
    for version in [1, 3, 2] {
        let source = format!("---\nid: slow\n---\nbody {}\n", version);
        catalog.insert(parse_runbook(&source, Ok(runbook_front("slow", version))).unwrap()).unwrap();
    }
    assert_eq!(catalog.read("slow", None).unwrap().meta.version, 3);
    assert!(catalog.read("slow", Some(2)).unwrap().body.contains("body 2"));
    assert!(catalog.read("slow", Some(9)).is_err());
    assert!(catalog.read("fast", None).is_err());
    assert!(!catalog.search("latency", Some("ORDERS")).is_empty());
    assert!(catalog.search("latency", Some("billing")).is_empty());
}

#[test]
fn runbooks_are_loaded_from_the_markdown_files_of_a_directory() {
    let file = |name: &str, version: u32| RunbookFile {
        name: name.to_owned(),
        runbook: parse_runbook("---\nid: slow\n---\nbody\n", Ok(runbook_front("slow", version))),
    };
    assert!(RunbookCatalog::load(None).unwrap().read("slow", None).is_err());
    let catalog = RunbookCatalog::load(Some(vec![
        file("one.md", 1),
        file("one.txt", 1),
        file(".md", 7),
        file("two.b.md", 2),
    ]))
    .unwrap();
    assert_eq!(catalog.read("slow", None).unwrap().meta.version, 2);
    let twice = RunbookCatalog::load(Some(vec![file("one.md", 1), file("again.md", 1)]));
    assert_eq!(
        twice.err().unwrap().to_string(),
        "protocol error: duplicate runbook slow@1"
    );
    let unreadable = RunbookFile {
        name: "bad.md".to_owned(),
        runbook: Err(OpsCodexError::Storage("gone".to_owned())),
    };
    assert!(RunbookCatalog::load(Some(vec![unreadable])).is_err());
}

#[test]
fn trust_is_marked_on_a_capability() {
    let builtin = CapabilityDescriptor::builtin(
        "t".to_owned(),
        "d".to_owned(),
        Json::Null,
        ToolRisk::Safe,
    );
    let name = builtin.name.clone();
    let distrusted = builtin.with_trusted_local(false);
    assert!(!distrusted.trusted_local);
    assert_eq!(distrusted.name, name);
    assert!(distrusted.with_trusted_local(true).trusted_local);
}

#[test]
fn messages_of_a_server_are_read() {
    assert_eq!(read_line_message("{ }").unwrap().to_text(), "{}");
    let body = read_body_message(b"{\"id\":1,\"result\":{\"b\":1,\"a\":2}}").unwrap();
    assert_eq!(McpSession::answer(1, &body).unwrap().unwrap().to_text(), "{\"a\":2,\"b\":1}");
    assert!(read_line_message("{").unwrap_err().to_string().contains("invalid MCP JSON-RPC: EOF"));
    assert!(read_body_message(&[0xff]).is_err());
    assert!(check_message(Err("x".to_owned())).is_err());
    assert!(matches!(http_payload(b"{\"result\":3}"), HttpReply::Payload(_)));
    assert_eq!(
        mcp_http_call(http_payload(b"nope")).unwrap_err().to_string(),
        "protocol error: invalid MCP HTTP JSON: error decoding response body"
    );
}
