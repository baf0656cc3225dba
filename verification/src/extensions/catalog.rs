//! The extensions of a workspace: which may be enabled, what they provide, and
//! what is said of those that failed.
use vstd::prelude::*;
use vstd::utf8::encode_utf8;

use crate::config::{Config, ExtensionConfigEntry, ExtensionsConfig};
use crate::digest::sha256_text;
use crate::error::{ErrorView, OpsCodexError, OpsResult};
use crate::extensions::capability::{
    effect_named, hash_bytes, lemma_effect_named, mode_named, CapabilityDescriptor,
    CapabilityEffect, CapabilitySummary, RecoveryMode,
};
use crate::extensions::custom::{
    allowed_env, describes, load_custom_manifest, manifest_error, recovery_of, tool_error, CustomJsonTool,
    CustomToolManifest,
};
use crate::extensions::lifecycle::{ExtensionHealth, ExtensionState, ExtensionSummary};
use crate::extensions::mcp::{
    describes_mcp, mcp_error, mcp_url_error, validate_mcp_http_url, McpInstallSpec, McpListedTool,
    McpSpecView, McpTool,
};
use crate::extensions::skill::{available_skills, Skill, SkillCatalog};
use crate::extensions::supervisor::{path_error, validate_path, ChildSupervisor};
use crate::runtime::thread::WorkspaceId;
use crate::text::{same, views};
use crate::url_text::{url_of, UrlParts, UrlView};

verus! {

// ---------------------------------------------------------------------------
// What the configuration says
// ---------------------------------------------------------------------------
/// A list of workspaces that holds one, or that is left empty for all.
pub open spec fn covers(workspaces: Seq<Seq<char>>, workspace_id: Seq<char>) -> bool {
    workspaces.len() == 0 || workspaces.contains(workspace_id)
}

fn is_covered(workspaces: &Vec<String>, workspace_id: &str) -> (r: bool)
    ensures
        r == covers(views(workspaces@), workspace_id@),
{
    if workspaces.len() == 0 {
        return true;
    }
    let ghost seen = views(workspaces@);
    let mut i: usize = 0;
    while i < workspaces.len()
        invariant
            i <= workspaces@.len(),
            workspaces@.len() > 0,
            seen == views(workspaces@),
            forall|k: int| 0 <= k < i ==> #[trigger] seen[k] != workspace_id@,
        decreases workspaces@.len() - i,
    {
        assert(seen[i as int] == workspaces@[i as int]@);
        if same(workspaces[i].as_str(), workspace_id) {
            return true;
        }
        i += 1;
    }
    false
}

/// Whether an extension is to be installed for a workspace.
pub fn applies_to(entry: &ExtensionConfigEntry, workspace_id: &str) -> (r: bool)
    ensures
        r == (entry.enabled && covers(views(entry.workspaces@), workspace_id@)),
{
    entry.enabled && is_covered(&entry.workspaces, workspace_id)
}

pub open spec fn optional_effect(value: Option<Seq<char>>) -> Result<
    Option<CapabilityEffect>,
    ErrorView,
> {
    match value {
        None => Ok(None),
        Some(text) => match effect_named(text) {
            Ok(effect) => Ok(Some(effect)),
            Err(e) => Err(e),
        },
    }
}

pub fn parse_effect(value: &Option<String>) -> (r: OpsResult<Option<CapabilityEffect>>)
    ensures
        match r {
            Ok(effect) => optional_effect(crate::json::string_view(*value)) == Ok::<
                Option<CapabilityEffect>,
                ErrorView,
            >(effect),
            Err(e) => optional_effect(crate::json::string_view(*value)) == Err::<
                Option<CapabilityEffect>,
                ErrorView,
            >(e@),
        },
{
    match value {
        None => Ok(None),
        Some(text) => {
            proof {
                lemma_effect_named(text@);
            }
            match CapabilityEffect::parse(text.as_str()) {
                Ok(effect) => Ok(Some(effect)),
                Err(e) => Err(e),
            }
        },
    }
}

/// The effect that the configuration gives an extension.
pub open spec fn configured_effect(entry: ExtensionConfigEntry) -> Result<
    CapabilityEffect,
    ErrorView,
> {
    match optional_effect(crate::json::string_view(entry.effect)) {
        Err(e) => Err(e),
        Ok(Some(effect)) => Ok(effect),
        Ok(None) => Err(
            ErrorView::Policy("extension `"@ + entry.id@ + "` requires a local effect override"@),
        ),
    }
}

/// The recovery mode that the configuration gives an extension.
pub open spec fn configured_recovery(entry: ExtensionConfigEntry) -> Result<
    RecoveryMode,
    ErrorView,
> {
    match entry.recovery {
        Some(text) => mode_named(text@),
        None => Err(
            ErrorView::Policy("extension `"@ + entry.id@ + "` requires local recovery metadata"@),
        ),
    }
}

fn of_extension(entry: &ExtensionConfigEntry, rest: &str) -> (r: String)
    ensures
        r@ == "extension `"@ + entry.id@ + rest@,
{
    let mut message = "extension `".to_owned();
    message.append(entry.id.as_str());
    message.append(rest);
    message
}

pub fn required_effect(entry: &ExtensionConfigEntry) -> (r: OpsResult<CapabilityEffect>)
    ensures
        match r {
            Ok(effect) => configured_effect(*entry) == Ok::<CapabilityEffect, ErrorView>(effect),
            Err(e) => configured_effect(*entry) == Err::<CapabilityEffect, ErrorView>(e@),
        },
{
    match parse_effect(&entry.effect) {
        Err(e) => Err(e),
        Ok(Some(effect)) => Ok(effect),
        Ok(None) => Err(
            OpsCodexError::Policy(of_extension(entry, "` requires a local effect override")),
        ),
    }
}

pub fn required_recovery(entry: &ExtensionConfigEntry) -> (r: OpsResult<RecoveryMode>)
    ensures
        match r {
            Ok(mode) => configured_recovery(*entry) == Ok::<RecoveryMode, ErrorView>(mode),
            Err(e) => configured_recovery(*entry) == Err::<RecoveryMode, ErrorView>(e@),
        },
{
    match &entry.recovery {
        Some(text) => RecoveryMode::parse(text.as_str()),
        None => Err(
            OpsCodexError::Policy(of_extension(entry, "` requires local recovery metadata")),
        ),
    }
}

// ---------------------------------------------------------------------------
// What is to be done
// ---------------------------------------------------------------------------
/// How an extension is installed.
#[derive(Debug)]
pub enum InstallPlan {
    /// Read the manifest at a path.
    Custom(String),
    /// Start a server.
    Stdio(String, ChildSupervisor),
    /// Speak to a server.
    Http(UrlParts),
}

pub enum PlanView {
    Custom(Seq<char>),
    Stdio(Seq<char>, u32),
    Http(UrlView),
}

impl InstallPlan {
    pub open spec fn view(&self) -> PlanView {
        match self {
            InstallPlan::Custom(path) => PlanView::Custom(path@),
            InstallPlan::Stdio(command, supervisor) => PlanView::Stdio(
                command@,
                supervisor.max_restarts,
            ),
            InstallPlan::Http(url) => PlanView::Http(url@),
        }
    }
}

/// How often a process is started again, as far as the configuration may ask.
pub open spec fn restarts_of(entry: ExtensionConfigEntry) -> u32 {
    let asked = match entry.max_restarts {
        Some(n) => n,
        None => 2,
    };
    if asked < 5 {
        asked
    } else {
        5
    }
}

pub open spec fn missing(entry: ExtensionConfigEntry, what: Seq<char>) -> ErrorView {
    ErrorView::Protocol("extension `"@ + entry.id@ + what)
}

/// How an extension is to be installed, or why it is not.
pub open spec fn plan_of(policy: ExtensionsConfig, entry: ExtensionConfigEntry) -> Result<
    PlanView,
    ErrorView,
> {
    if entry.kind@ == "custom"@ {
        if policy.production_safe || !policy.allow_custom_tools {
            Err(ErrorView::Policy("custom tools are disabled by extensions policy"@))
        } else if !entry.trusted_local {
            Err(ErrorView::Policy("custom tools require trusted_local"@))
        } else {
            match entry.path {
                None => Err(missing(entry, "` is missing path"@)),
                Some(path) => Ok(PlanView::Custom(path@)),
            }
        }
    } else if entry.kind@ == "mcp"@ {
        if policy.production_safe {
            Err(ErrorView::Policy("stdio MCP is disabled by production_safe"@))
        } else {
            match entry.command {
                None => Err(missing(entry, "` is missing command"@)),
                Some(command) => match entry.cwd {
                    Some(cwd) => match path_error(cwd@) {
                        Some(e) => Err(e),
                        None => Ok(PlanView::Stdio(command@, restarts_of(entry))),
                    },
                    None => Ok(PlanView::Stdio(command@, restarts_of(entry))),
                },
            }
        }
    } else if entry.kind@ == "mcp_http"@ {
        match entry.url {
            None => Err(missing(entry, "` is missing url"@)),
            Some(raw) => if policy.production_safe && entry.allowlist_hosts@.len() == 0 {
                Err(ErrorView::Policy("production_safe MCP HTTP requires an allowlist"@))
            } else {
                match mcp_url_error(raw@, views(entry.allowlist_hosts@)) {
                    Some(e) => Err(e),
                    None => Ok(PlanView::Http(url_of(raw@)->Ok_0)),
                }
            },
        }
    } else {
        Err(ErrorView::Protocol("unsupported extension kind `"@ + entry.kind@ + "`"@))
    }
}

/// Decides how an extension is to be installed.
pub fn plan_extension(policy: &ExtensionsConfig, entry: &ExtensionConfigEntry) -> (r: OpsResult<
    InstallPlan,
>)
    ensures
        match r {
            Ok(plan) => plan_of(*policy, *entry) == Ok::<PlanView, ErrorView>(plan@),
            Err(e) => plan_of(*policy, *entry) == Err::<PlanView, ErrorView>(e@),
        },
{
    if same(entry.kind.as_str(), "custom") {
        if policy.production_safe || !policy.allow_custom_tools {
            return Err(
                OpsCodexError::Policy("custom tools are disabled by extensions policy".to_owned()),
            );
        }
        if !entry.trusted_local {
            return Err(OpsCodexError::Policy("custom tools require trusted_local".to_owned()));
        }
        return match &entry.path {
            None => Err(OpsCodexError::Protocol(of_extension(entry, "` is missing path"))),
            Some(path) => Ok(InstallPlan::Custom(path.clone())),
        };
    }
    if same(entry.kind.as_str(), "mcp") {
        if policy.production_safe {
            return Err(OpsCodexError::Policy("stdio MCP is disabled by production_safe".to_owned()));
        }
        let command = match &entry.command {
            None => {
                return Err(OpsCodexError::Protocol(of_extension(entry, "` is missing command")));
            },
            Some(command) => command.clone(),
        };
        if let Some(cwd) = &entry.cwd {
            match validate_path(cwd.as_str()) {
                Ok(_) => {},
                Err(e) => return Err(e),
            }
        }
        let asked: u32 = match entry.max_restarts {
            Some(n) => n,
            None => 2,
        };
        return Ok(InstallPlan::Stdio(command, ChildSupervisor::new(asked)));
    }
    if same(entry.kind.as_str(), "mcp_http") {
        let raw = match &entry.url {
            None => return Err(OpsCodexError::Protocol(of_extension(entry, "` is missing url"))),
            Some(raw) => raw,
        };
        if policy.production_safe && entry.allowlist_hosts.len() == 0 {
            return Err(
                OpsCodexError::Policy("production_safe MCP HTTP requires an allowlist".to_owned()),
            );
        }
        return match validate_mcp_http_url(raw.as_str(), &entry.allowlist_hosts) {
            Ok(url) => Ok(InstallPlan::Http(url)),
            Err(e) => Err(e),
        };
    }
    let mut message = "unsupported extension kind `".to_owned();
    message.append(entry.kind.as_str());
    message.append("`");
    Err(OpsCodexError::Protocol(message))
}

/// In production no local program is started, neither as a tool nor as a server.
pub proof fn law_production_starts_nothing(policy: ExtensionsConfig, entry: ExtensionConfigEntry)
    requires
        policy.production_safe,
    ensures
        plan_of(policy, entry) is Err || plan_of(policy, entry)->Ok_0 is Http,
{
}

/// Whether a server that has failed so many times to start is tried again.
pub fn tries_again(supervisor: &ChildSupervisor, failures: u32) -> (r: bool)
    ensures
        r == (failures <= supervisor.max_restarts),
{
    failures <= supervisor.max_restarts
}

// ---------------------------------------------------------------------------
// Summaries
// ---------------------------------------------------------------------------
/// The summary is that of an extension.
pub open spec fn is_summary_of(
    r: ExtensionSummary,
    entry: ExtensionConfigEntry,
    kind: Seq<char>,
    version: Seq<char>,
    hash: Seq<char>,
    workspace_id: Seq<char>,
) -> bool {
    &&& r.id@ == entry.id@
    &&& r.kind@ == kind
    &&& r.version@ == version
    &&& r.hash@ == hash
    &&& r.enabled == !(r.health.state is Disabled)
    &&& views(r.workspaces@) == (if entry.workspaces@.len() == 0 {
        seq![workspace_id]
    } else {
        views(entry.workspaces@)
    })
}

fn extension_summary(
    entry: &ExtensionConfigEntry,
    kind: &str,
    version: &str,
    hash: &str,
    workspace_id: &str,
    health: ExtensionHealth,
    capabilities: Vec<CapabilitySummary>,
) -> (r: ExtensionSummary)
    ensures
        is_summary_of(r, *entry, kind@, version@, hash@, workspace_id@),
        r.health == health,
        r.capabilities == capabilities,
{
    let workspaces = if entry.workspaces.len() == 0 {
        let mut one: Vec<String> = Vec::new();
        one.push(workspace_id.to_owned());
        assert(views(one@) =~= seq![workspace_id@]);
        one
    } else {
        entry.workspaces.clone()
    };
    let disabled = match health.state {
        ExtensionState::Disabled => true,
        _ => false,
    };
    ExtensionSummary {
        id: entry.id.clone(),
        kind: kind.to_owned(),
        version: version.to_owned(),
        hash: hash.to_owned(),
        enabled: !disabled,
        health,
        workspaces,
        capabilities,
    }
}

/// The summary of an extension that could not be installed.
pub open spec fn is_disabled_summary(
    r: ExtensionSummary,
    entry: ExtensionConfigEntry,
    workspace_id: Seq<char>,
    error: ErrorView,
) -> bool {
    &&& is_summary_of(
        r,
        entry,
        entry.kind@,
        match entry.version {
            Some(version) => version@,
            None => "unknown"@,
        },
        "unpinned"@,
        workspace_id,
    )
    &&& r.health.state is Disabled
    &&& r.health.detail matches Some(detail)
    &&& detail@ == error.text()
    &&& r.health.restart_count == 0
    &&& r.capabilities@.len() == 0
}

pub fn disabled_summary(
    entry: &ExtensionConfigEntry,
    workspace_id: &str,
    error: OpsCodexError,
) -> (r: ExtensionSummary)
    ensures
        is_disabled_summary(r, *entry, workspace_id@, error@),
{
    let version = match &entry.version {
        Some(version) => version.clone(),
        None => "unknown".to_owned(),
    };
    extension_summary(
        entry,
        entry.kind.as_str(),
        version.as_str(),
        "unpinned",
        workspace_id,
        ExtensionHealth::disabled(error.to_string()),
        Vec::new(),
    )
}

/// The hash of where an extension comes from.
pub open spec fn origin_hash(origin: Seq<char>) -> Seq<char> {
    sha256_text(encode_utf8(origin))
}

pub fn hash_origin(origin: &str) -> (r: String)
    ensures
        r@ == origin_hash(origin@),
{
    hash_bytes(origin.as_bytes())
}

/// The summary tells of a tool.
pub open spec fn tells(summary: CapabilitySummary, d: CapabilityDescriptor) -> bool {
    summary.id == d.id && summary.name == d.name && summary.source == d.source && summary.version
        == d.provenance.version && summary.effect == d.effect && summary.schema_hash
        == d.provenance.schema_hash && summary.enabled == d.enabled && summary.trusted_local
        == d.trusted_local
}

// ---------------------------------------------------------------------------
// Custom tools
// ---------------------------------------------------------------------------
/// What is wrong with the custom tool that a manifest at a path describes.
pub open spec fn custom_error(
    entry: ExtensionConfigEntry,
    path: Seq<char>,
    read: Result<Result<CustomToolManifest, String>, String>,
    exists: bool,
    workspace_max: Option<CapabilityEffect>,
) -> Option<ErrorView> {
    match manifest_error(path, read) {
        Some(e) => Some(e),
        None => match optional_effect(crate::json::string_view(entry.effect)) {
            Err(e) => Some(e),
            Ok(effect) => tool_error(
                read->Ok_0->Ok_0,
                exists,
                entry.trusted_local,
                effect,
                workspace_max,
            ),
        },
    }
}

/// Installs the custom tool that a manifest at a path describes.
pub fn install_custom(
    entry: &ExtensionConfigEntry,
    path: &str,
    read: Result<Result<CustomToolManifest, String>, String>,
    env: Vec<(String, String)>,
    exists: bool,
    binary: &[u8],
    workspace_id: &str,
    workspace_max: Option<CapabilityEffect>,
) -> (r: OpsResult<(CustomJsonTool, ExtensionSummary)>)
    ensures
        match r {
            Ok((tool, summary)) => {
                let manifest = read->Ok_0->Ok_0;
                let effect = optional_effect(crate::json::string_view(entry.effect))->Ok_0;
                &&& custom_error(*entry, path@, read, exists, workspace_max) is None
                &&& describes(
                    tool.capability,
                    manifest,
                    effect_named(manifest.spec.effect@)->Ok_0.stricter(effect),
                    recovery_of(manifest.spec)->Ok_0,
                    entry.trusted_local,
                    binary@,
                )
                &&& is_summary_of(
                    summary,
                    *entry,
                    "custom"@,
                    manifest.metadata.version@,
                    tool.capability.provenance.schema_hash@,
                    workspace_id@,
                )
                &&& tool.command@ == manifest.spec.command@
                &&& tool.args == manifest.spec.args
                &&& tool.cwd == manifest.spec.cwd
                &&& tool.env@ == allowed_env(env@, views(manifest.spec.env_allowlist@))
                &&& summary.health.state is Healthy
                &&& summary.health.detail is None
                &&& summary.health.restart_count == 0
                &&& summary.capabilities@.len() == 1
                &&& tells(summary.capabilities@[0], tool.capability)
                &&& tool.supervisor.max_restarts == restarts_of(*entry)
            },
            Err(e) => custom_error(*entry, path@, read, exists, workspace_max) == Some(e@),
        },
{
    let manifest = match load_custom_manifest(path, read) {
        Ok(manifest) => manifest,
        Err(e) => return Err(e),
    };
    let effect = match parse_effect(&entry.effect) {
        Ok(effect) => effect,
        Err(e) => return Err(e),
    };
    let asked: u32 = match entry.max_restarts {
        Some(n) => n,
        None => 2,
    };
    let tool = match CustomJsonTool::from_manifest(
        manifest,
        entry.trusted_local,
        effect,
        workspace_max,
        env,
        asked,
        exists,
        binary,
    ) {
        Ok(tool) => tool,
        Err(e) => return Err(e),
    };
    let mut capabilities: Vec<CapabilitySummary> = Vec::new();
    capabilities.push(tool.capability.summary());
    let summary = extension_summary(
        entry,
        "custom",
        tool.capability.provenance.version.as_str(),
        tool.capability.provenance.schema_hash.as_str(),
        workspace_id,
        ExtensionHealth::healthy(),
        capabilities,
    );
    Ok((tool, summary))
}

// ---------------------------------------------------------------------------
// Tools of servers
// ---------------------------------------------------------------------------
/// The version under which the tools of a server are known.
pub open spec fn version_of(entry: ExtensionConfigEntry) -> Seq<char> {
    match entry.version {
        Some(version) => version@,
        None => "1.0.0"@,
    }
}

/// What the configuration says of a server.
pub open spec fn server_spec(
    entry: ExtensionConfigEntry,
    origin: Seq<char>,
    workspace_max: Option<CapabilityEffect>,
) -> McpSpecView {
    McpSpecView {
        server_id: entry.id@,
        trusted_local: entry.trusted_local,
        effect: configured_effect(entry)->Ok_0,
        recovery: configured_recovery(entry)->Ok_0,
        version: version_of(entry),
        workspace_max,
        origin,
    }
}

/// What is wrong before any tool is looked at.
pub open spec fn server_error(
    entry: ExtensionConfigEntry,
    listed: OpsResult<Vec<McpListedTool>>,
) -> Option<ErrorView> {
    match listed {
        Err(e) => Some(e@),
        Ok(_) => match configured_effect(entry) {
            Err(e) => Some(e),
            Ok(_) => match configured_recovery(entry) {
                Err(e) => Some(e),
                Ok(_) => None,
            },
        },
    }
}

/// How many tools can be enabled before the first that cannot.
pub open spec fn fit_tools(spec: McpSpecView, tools: Seq<McpListedTool>) -> nat
    decreases tools.len(),
{
    if tools.len() == 0 || mcp_error(spec, tools[0].name@) is Some {
        0
    } else {
        1 + fit_tools(spec, tools.skip(1))
    }
}

/// Installs the tools that a server lists. The tools before the first that
/// cannot be enabled are installed in any case.
pub fn install_server_tools(
    entry: &ExtensionConfigEntry,
    listed: OpsResult<Vec<McpListedTool>>,
    origin: &str,
    workspace_id: &str,
    workspace_max: Option<CapabilityEffect>,
) -> (r: (Vec<McpTool>, OpsResult<ExtensionSummary>))
    ensures
        match server_error(*entry, listed) {
            Some(error) => r.0@.len() == 0 && (r.1 matches Err(e) && e@ == error),
            None => {
                let spec = server_spec(*entry, origin@, workspace_max);
                let tools = listed->Ok_0@;
                let fit = fit_tools(spec, tools);
                &&& r.0@.len() == fit <= tools.len()
                &&& forall|i: int|
                    0 <= i < fit ==> describes_mcp(
                        (#[trigger] r.0@[i]).capability,
                        spec,
                        tools[i],
                    ) && r.0@[i].remote_name@ == tools[i].name@
                &&& match r.1 {
                    Ok(summary) => {
                        &&& fit == tools.len()
                        &&& is_summary_of(
                            summary,
                            *entry,
                            entry.kind@,
                            version_of(*entry),
                            origin_hash(origin@),
                            workspace_id@,
                        )
                        &&& summary.health.state is Healthy
                        &&& summary.health.detail is None
                        &&& summary.health.restart_count == 0
                        &&& summary.capabilities@.len() == fit
                        &&& forall|i: int|
                            0 <= i < fit ==> tells(
                                #[trigger] summary.capabilities@[i],
                                r.0@[i].capability,
                            )
                    },
                    Err(e) => fit < tools.len() && mcp_error(spec, tools[fit as int].name@)
                        == Some(e@),
                }
            },
        },
{
    let mut tools: Vec<McpTool> = Vec::new();
    let mut rest = match listed {
        Ok(listed) => listed,
        Err(e) => return (tools, Err(e)),
    };
    let effect = match required_effect(entry) {
        Ok(effect) => effect,
        Err(e) => return (tools, Err(e)),
    };
    let recovery = match required_recovery(entry) {
        Ok(recovery) => recovery,
        Err(e) => return (tools, Err(e)),
    };
    let version = match &entry.version {
        Some(version) => version.clone(),
        None => "1.0.0".to_owned(),
    };
    let ghost all = rest@;
    let ghost spec = server_spec(*entry, origin@, workspace_max);
    let mut capabilities: Vec<CapabilitySummary> = Vec::new();
    assert(all.skip(0) =~= all);
    while rest.len() > 0
        invariant
            tools@.len() <= all.len(),
            rest@ == all.skip(tools@.len() as int),
            listed == Ok::<Vec<McpListedTool>, OpsCodexError>(listed->Ok_0),
            all == listed->Ok_0@,
            server_error(*entry, listed) is None,
            effect == configured_effect(*entry)->Ok_0,
            recovery == configured_recovery(*entry)->Ok_0,
            version@ == version_of(*entry),
            spec == server_spec(*entry, origin@, workspace_max),
            fit_tools(spec, all) == tools@.len() + fit_tools(spec, rest@),
            forall|i: int|
                0 <= i < tools@.len() ==> describes_mcp(
                    (#[trigger] tools@[i]).capability,
                    spec,
                    all[i],
                ) && tools@[i].remote_name@ == all[i].name@,
            capabilities@.len() == tools@.len(),
            forall|i: int|
                0 <= i < tools@.len() ==> tells(
                    #[trigger] capabilities@[i],
                    tools@[i].capability,
                ),
        decreases rest@.len(),
    {
        let ghost before = rest@;
        let next = rest.remove(0);
        assert(before[0] == next);
        assert(next == all[tools@.len() as int]);
        assert(rest@ =~= before.skip(1));
        assert(rest@ =~= all.skip(tools@.len() as int + 1));
        let given = McpInstallSpec {
            server_id: entry.id.as_str(),
            trusted_local: entry.trusted_local,
            effect,
            recovery,
            version: version.as_str(),
            workspace_max,
            origin: origin.to_owned(),
        };
        assert(given@ == spec);
        match McpTool::new(given, next) {
            Ok(tool) => {
                capabilities.push(tool.capability.summary());
                tools.push(tool);
            },
            Err(e) => return (tools, Err(e)),
        }
    }
    let summary = extension_summary(
        entry,
        entry.kind.as_str(),
        version.as_str(),
        hash_origin(origin).as_str(),
        workspace_id,
        ExtensionHealth::healthy(),
        capabilities,
    );
    (tools, Ok(summary))
}

/// Where a server that was started comes from.
pub fn stdio_origin(entry: &ExtensionConfigEntry) -> (r: String)
    ensures
        r@ == "mcp-stdio:"@ + entry.id@,
{
    let mut origin = "mcp-stdio:".to_owned();
    origin.append(entry.id.as_str());
    origin
}

// ---------------------------------------------------------------------------
// The catalog
// ---------------------------------------------------------------------------
#[derive(Debug)]
pub struct ExtensionCatalog {
    summaries: Vec<ExtensionSummary>,
}

impl Default for ExtensionCatalog {
    fn default() -> (r: Self)
        ensures
            r@.len() == 0,
    {
        ExtensionCatalog { summaries: Vec::new() }
    }
}

/// Where the summaries stand that are for a workspace, among the first `n`.
pub open spec fn places_for(
    summaries: Seq<ExtensionSummary>,
    workspace_id: Seq<char>,
    n: int,
) -> Seq<int>
    decreases n,
{
    if n <= 0 {
        Seq::empty()
    } else if covers(views(summaries[n - 1].workspaces@), workspace_id) {
        places_for(summaries, workspace_id, n - 1).push(n - 1)
    } else {
        places_for(summaries, workspace_id, n - 1)
    }
}

impl ExtensionCatalog {
    pub closed spec fn view(&self) -> Seq<ExtensionSummary> {
        self.summaries@
    }

    pub fn summaries(&self) -> (r: &[ExtensionSummary])
        ensures
            r@ == self@,
    {
        self.summaries.as_slice()
    }

    pub fn for_workspace(&self, workspace_id: &str) -> (r: Vec<&ExtensionSummary>)
        ensures
            r@.len() == places_for(self@, workspace_id@, self@.len() as int).len(),
            forall|k: int|
                0 <= k < r@.len() ==> *(#[trigger] r@[k]) == self@[places_for(
                    self@,
                    workspace_id@,
                    self@.len() as int,
                )[k]],
    {
        let mut r: Vec<&ExtensionSummary> = Vec::new();
        let mut i: usize = 0;
        while i < self.summaries.len()
            invariant
                i <= self.summaries@.len(),
                self@ == self.summaries@,
                r@.len() == places_for(self@, workspace_id@, i as int).len(),
                forall|k: int|
                    0 <= k < r@.len() ==> *(#[trigger] r@[k]) == self@[places_for(
                        self@,
                        workspace_id@,
                        i as int,
                    )[k]],
            decreases self.summaries@.len() - i,
        {
            if is_covered(&self.summaries[i].workspaces, workspace_id) {
                r.push(&self.summaries[i]);
            }
            i += 1;
        }
        r
    }

    /// Takes what came of an extension. One that failed is listed as disabled.
    pub fn record(
        &mut self,
        entry: &ExtensionConfigEntry,
        workspace_id: &str,
        outcome: OpsResult<ExtensionSummary>,
    )
        ensures
            final(self)@.len() == old(self)@.len() + 1,
            final(self)@.drop_last() == old(self)@,
            match outcome {
                Ok(summary) => final(self)@.last() == summary,
                Err(e) => is_disabled_summary(final(self)@.last(), *entry, workspace_id@, e@)
                    && !final(self)@.last().enabled,
            },
    {
        let summary = match outcome {
            Ok(summary) => summary,
            Err(error) => disabled_summary(entry, workspace_id, error),
        };
        self.summaries.push(summary);
        assert(self@.drop_last() =~= old(self)@);
    }
}

/// The skills of a workspace. Those that cannot be had are left out.
pub fn load_skills(config: &Config, workspace: &WorkspaceId, loaded: Vec<OpsResult<Skill>>) -> (r:
    SkillCatalog)
    requires
        loaded@.len() == config.skills@.len(),
    ensures
        r.well_formed(),
        r@ == available_skills(
            config.skills@,
            workspace@,
            loaded@,
            config.skills@.len() as int,
        ),
{
    SkillCatalog::load_available(&config.skills, workspace, loaded)
}

} // verus!
