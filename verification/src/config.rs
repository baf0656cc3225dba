//! The configuration, its defaults, and what it may not say.
use vstd::prelude::*;

use crate::error::{ErrorView, OpsCodexError, OpsResult};
use crate::extensions::capability::CapabilityEffect;
use crate::model::provider::ModelCapabilities;
use crate::runtime::agent::RuntimeConfig;
use crate::runtime::context::ContextBudget;
use crate::text::{
    chars_of, find_chars, find_from, is_digit, lower, lower_str, same, split, split_str, substring,
    trim, trim_str, views,
};
use crate::url_text::{is_loopback_name, loopback_name, parse_url, url_of, UrlParts, UrlView};

verus! {

/// Which model is asked, and how.
#[derive(Debug)]
pub struct ModelConfig {
    pub provider: String,
    pub model: String,
    pub api_key_env: String,
    pub endpoint: String,
    pub reasoning_effort: Option<String>,
}

impl ModelConfig {
    /// The settings where none is given.
    pub open spec fn is_default(&self) -> bool {
        &&& self.provider@ == "openai"@
        &&& self.model@ == "gpt-5.2"@
        &&& self.api_key_env@ == "OPENAI_API_KEY"@
        &&& self.endpoint@ == "https://api.openai.com/v1/responses"@
        &&& self.reasoning_effort is None
    }
}

impl Default for ModelConfig {
    fn default() -> (r: Self)
        ensures
            r.is_default(),
    {
        ModelConfig {
            provider: "openai".to_owned(),
            model: "gpt-5.2".to_owned(),
            api_key_env: "OPENAI_API_KEY".to_owned(),
            endpoint: "https://api.openai.com/v1/responses".to_owned(),
            reasoning_effort: None,
        }
    }
}

/// The limits of turns.
#[derive(Debug)]
pub struct RuntimeSettings {
    pub max_steps: usize,
    pub max_concurrent_turns: usize,
    pub tool_timeout_seconds: u64,
    pub model_timeout_seconds: u64,
    pub max_output_bytes: usize,
    pub context_items: usize,
    pub context_max_tokens: usize,
    pub context_max_bytes: usize,
    pub context_max_evidence: usize,
    pub context_max_tool_calls: usize,
    pub context_max_cost_micros: u64,
    pub inline_artifact_bytes: usize,
}

impl RuntimeSettings {
    /// The settings where none is given.
    pub open spec fn is_default(&self) -> bool {
        &&& self.max_steps == 12
        &&& self.max_concurrent_turns == 4
        &&& self.tool_timeout_seconds == 30
        &&& self.model_timeout_seconds == 120
        &&& self.max_output_bytes == 65536
        &&& self.context_items == 100
        &&& self.context_max_tokens == 24_000
        &&& self.context_max_bytes == 96_000
        &&& self.context_max_evidence == 32
        &&& self.context_max_tool_calls == 24
        &&& self.context_max_cost_micros == 0
        &&& self.inline_artifact_bytes == 8192
    }
}

impl Default for RuntimeSettings {
    fn default() -> (r: Self)
        ensures
            r.is_default(),
    {
        RuntimeSettings {
            max_steps: 12,
            max_concurrent_turns: 4,
            tool_timeout_seconds: 30,
            model_timeout_seconds: 120,
            max_output_bytes: 65536,
            context_items: 100,
            context_max_tokens: 24_000,
            context_max_bytes: 96_000,
            context_max_evidence: 32,
            context_max_tool_calls: 24,
            context_max_cost_micros: 0,
            inline_artifact_bytes: 8192,
        }
    }
}

#[derive(Debug)]
pub struct PrometheusConfig {
    pub url: String,
}

impl PrometheusConfig {
    /// The settings where none is given.
    pub open spec fn is_default(&self) -> bool {
        &&& self.url@ == "http://localhost:9090"@
    }
}

impl Default for PrometheusConfig {
    fn default() -> (r: Self)
        ensures
            r.is_default(),
    {
        PrometheusConfig {
            url: "http://localhost:9090".to_owned(),
        }
    }
}

#[derive(Debug)]
pub struct LokiConfig {
    pub url: String,
    pub tenant_header: String,
    pub tenant_env: String,
    pub max_range_seconds: u64,
    pub max_lines: u32,
}

impl LokiConfig {
    /// The settings where none is given.
    pub open spec fn is_default(&self) -> bool {
        &&& self.url@ == "http://localhost:3100"@
        &&& self.tenant_header@ == "X-Scope-OrgID"@
        &&& self.tenant_env@ == "LOKI_TENANT"@
        &&& self.max_range_seconds == 3600
        &&& self.max_lines == 200
    }
}

impl Default for LokiConfig {
    fn default() -> (r: Self)
        ensures
            r.is_default(),
    {
        LokiConfig {
            url: "http://localhost:3100".to_owned(),
            tenant_header: "X-Scope-OrgID".to_owned(),
            tenant_env: "LOKI_TENANT".to_owned(),
            max_range_seconds: 3600,
            max_lines: 200,
        }
    }
}

#[derive(Debug)]
pub struct TempoConfig {
    pub url: String,
    pub max_range_seconds: u64,
}

impl TempoConfig {
    /// The settings where none is given.
    pub open spec fn is_default(&self) -> bool {
        &&& self.url@ == "http://localhost:3200"@
        &&& self.max_range_seconds == 3600
    }
}

impl Default for TempoConfig {
    fn default() -> (r: Self)
        ensures
            r.is_default(),
    {
        TempoConfig {
            url: "http://localhost:3200".to_owned(),
            max_range_seconds: 3600,
        }
    }
}

#[derive(Debug)]
pub struct TargetConfig {
    pub allowed_containers: Vec<String>,
    pub allowed_hosts: Vec<String>,
}

impl TargetConfig {
    /// The settings where none is given.
    pub open spec fn is_default(&self) -> bool {
        &&& views(self.allowed_containers@) == seq!["order-service"@]
        &&& views(self.allowed_hosts@) == seq!["localhost"@, "127.0.0.1"@, "order-service"@]
    }
}

impl Default for TargetConfig {
    fn default() -> (r: Self)
        ensures
            r.is_default(),
    {
        let mut allowed_containers: Vec<String> = Vec::new();
        allowed_containers.push("order-service".to_owned());
        assert(views(allowed_containers@) =~= seq!["order-service"@]);
        let mut allowed_hosts: Vec<String> = Vec::new();
        allowed_hosts.push("localhost".to_owned());
        allowed_hosts.push("127.0.0.1".to_owned());
        allowed_hosts.push("order-service".to_owned());
        assert(views(allowed_hosts@) =~= seq!["localhost"@, "127.0.0.1"@, "order-service"@]);
        TargetConfig {
            allowed_containers,
            allowed_hosts,
        }
    }
}

#[derive(Debug)]
pub struct ToolsConfig {
    pub allow_exec: bool,
}

impl ToolsConfig {
    /// The settings where none is given.
    pub open spec fn is_default(&self) -> bool {
        &&& !self.allow_exec
    }
}

impl Default for ToolsConfig {
    fn default() -> (r: Self)
        ensures
            r.is_default(),
    {
        ToolsConfig {
            allow_exec: false,
        }
    }
}

#[derive(Debug)]
pub struct ServerConfig {
    pub host: String,
    pub port: u16,
}

impl ServerConfig {
    /// The settings where none is given.
    pub open spec fn is_default(&self) -> bool {
        &&& self.host@ == "127.0.0.1"@
        &&& self.port == 3000
    }
}

impl Default for ServerConfig {
    fn default() -> (r: Self)
        ensures
            r.is_default(),
    {
        ServerConfig {
            host: "127.0.0.1".to_owned(),
            port: 3000,
        }
    }
}

#[derive(Debug)]
pub struct WorkspaceConfigEntry {
    pub id: String,
    pub display_name: Option<String>,
    pub environment: Option<String>,
    pub prometheus_url: Option<String>,
    pub loki_url: Option<String>,
    pub loki_tenant_env: Option<String>,
    pub tempo_url: Option<String>,
    pub allowed_hosts: Option<Vec<String>>,
    pub allowed_containers: Option<Vec<String>>,
    pub kubeconfig_env: Option<String>,
    pub kube_context: Option<String>,
    pub cluster_alias: Option<String>,
    pub allowed_namespaces: Option<Vec<String>>,
    pub allowed_kinds: Option<Vec<String>>,
    pub runbook_dir: Option<String>,
    pub max_concurrent_turns: Option<usize>,
    pub max_effect: Option<String>,
    pub allow_remediation: bool,
}

impl WorkspaceConfigEntry {
    /// The settings where none is given.
    pub open spec fn is_default(&self) -> bool {
        &&& self.id@.len() == 0
        &&& self.display_name is None
        &&& self.environment is None
        &&& self.prometheus_url is None
        &&& self.loki_url is None
        &&& self.loki_tenant_env is None
        &&& self.tempo_url is None
        &&& self.allowed_hosts is None
        &&& self.allowed_containers is None
        &&& self.kubeconfig_env is None
        &&& self.kube_context is None
        &&& self.cluster_alias is None
        &&& self.allowed_namespaces is None
        &&& self.allowed_kinds is None
        &&& self.runbook_dir is None
        &&& self.max_concurrent_turns is None
        &&& self.max_effect is None
        &&& !self.allow_remediation
    }
}

impl Default for WorkspaceConfigEntry {
    fn default() -> (r: Self)
        ensures
            r.is_default(),
    {
        WorkspaceConfigEntry {
            id: String::new(),
            display_name: None,
            environment: None,
            prometheus_url: None,
            loki_url: None,
            loki_tenant_env: None,
            tempo_url: None,
            allowed_hosts: None,
            allowed_containers: None,
            kubeconfig_env: None,
            kube_context: None,
            cluster_alias: None,
            allowed_namespaces: None,
            allowed_kinds: None,
            runbook_dir: None,
            max_concurrent_turns: None,
            max_effect: None,
            allow_remediation: false,
        }
    }
}

#[derive(Debug)]
pub struct ExtensionsConfig {
    pub production_safe: bool,
    pub allow_custom_tools: bool,
    pub max_skill_context_bytes: usize,
}

impl ExtensionsConfig {
    /// The settings where none is given.
    pub open spec fn is_default(&self) -> bool {
        &&& !self.production_safe
        &&& !self.allow_custom_tools
        &&& self.max_skill_context_bytes == 4096
    }
}

impl Default for ExtensionsConfig {
    fn default() -> (r: Self)
        ensures
            r.is_default(),
    {
        ExtensionsConfig {
            production_safe: false,
            allow_custom_tools: false,
            max_skill_context_bytes: 4096,
        }
    }
}

#[derive(Debug)]
pub struct ExtensionConfigEntry {
    pub id: String,
    pub kind: String,
    pub enabled: bool,
    pub trusted_local: bool,
    pub path: Option<String>,
    pub command: Option<String>,
    pub args: Vec<String>,
    pub cwd: Option<String>,
    pub url: Option<String>,
    pub allowlist_hosts: Vec<String>,
    pub workspaces: Vec<String>,
    pub effect: Option<String>,
    pub recovery: Option<String>,
    pub version: Option<String>,
    pub max_restarts: Option<u32>,
    pub env: Vec<String>,
}

impl ExtensionConfigEntry {
    /// The settings where none is given.
    pub open spec fn is_default(&self) -> bool {
        &&& self.id@.len() == 0
        &&& self.kind@.len() == 0
        &&& self.enabled
        &&& !self.trusted_local
        &&& self.path is None
        &&& self.command is None
        &&& self.args@.len() == 0
        &&& self.cwd is None
        &&& self.url is None
        &&& self.allowlist_hosts@.len() == 0
        &&& self.workspaces@.len() == 0
        &&& self.effect is None
        &&& self.recovery is None
        &&& self.version is None
        &&& self.max_restarts is None
        &&& self.env@.len() == 0
    }
}

impl Default for ExtensionConfigEntry {
    fn default() -> (r: Self)
        ensures
            r.is_default(),
    {
        ExtensionConfigEntry {
            id: String::new(),
            kind: String::new(),
            enabled: true,
            trusted_local: false,
            path: None,
            command: None,
            args: Vec::new(),
            cwd: None,
            url: None,
            allowlist_hosts: Vec::new(),
            workspaces: Vec::new(),
            effect: None,
            recovery: None,
            version: None,
            max_restarts: None,
            env: Vec::new(),
        }
    }
}

#[derive(Debug)]
pub struct SkillConfigEntry {
    pub path: String,
    pub enabled: bool,
    pub workspaces: Vec<String>,
}

impl SkillConfigEntry {
    /// The settings where none is given.
    pub open spec fn is_default(&self) -> bool {
        &&& self.path@.len() == 0
        &&& self.enabled
        &&& self.workspaces@.len() == 0
    }
}

impl Default for SkillConfigEntry {
    fn default() -> (r: Self)
        ensures
            r.is_default(),
    {
        SkillConfigEntry {
            path: String::new(),
            enabled: true,
            workspaces: Vec::new(),
        }
    }
}

#[derive(Debug)]
pub struct StoreConfig {
    pub backend: String,
    pub sqlite_path: Option<String>,
    pub jsonl_dir: Option<String>,
    pub approval_ttl_seconds: u64,
    pub lease_ttl_seconds: u64,
}

impl StoreConfig {
    /// The settings where none is given.
    pub open spec fn is_default(&self) -> bool {
        &&& self.backend@ == "sqlite"@
        &&& self.sqlite_path is None
        &&& self.jsonl_dir is None
        &&& self.approval_ttl_seconds == 3600
        &&& self.lease_ttl_seconds == 30
    }
}

impl Default for StoreConfig {
    fn default() -> (r: Self)
        ensures
            r.is_default(),
    {
        StoreConfig {
            backend: "sqlite".to_owned(),
            sqlite_path: None,
            jsonl_dir: None,
            approval_ttl_seconds: 3600,
            lease_ttl_seconds: 30,
        }
    }
}

#[derive(Debug)]
pub struct RemediationConfig {
    pub enabled: bool,
    pub kill_switch: bool,
    pub demo_fault_url: String,
    pub approval_ttl_seconds: u64,
}

impl RemediationConfig {
    /// The settings where none is given.
    pub open spec fn is_default(&self) -> bool {
        &&& !self.enabled
        &&& !self.kill_switch
        &&& self.demo_fault_url@ == "http://127.0.0.1:8080"@
        &&& self.approval_ttl_seconds == 1800
    }
}

impl Default for RemediationConfig {
    fn default() -> (r: Self)
        ensures
            r.is_default(),
    {
        RemediationConfig {
            enabled: false,
            kill_switch: false,
            demo_fault_url: "http://127.0.0.1:8080".to_owned(),
            approval_ttl_seconds: 1800,
        }
    }
}

#[derive(Debug)]
pub struct Config {
    pub model: ModelConfig,
    pub runtime: RuntimeSettings,
    pub prometheus: PrometheusConfig,
    pub loki: LokiConfig,
    pub tempo: TempoConfig,
    pub targets: TargetConfig,
    pub tools: ToolsConfig,
    pub server: ServerConfig,
    pub workspaces: Vec<WorkspaceConfigEntry>,
    pub extensions: ExtensionsConfig,
    pub extension: Vec<ExtensionConfigEntry>,
    pub skills: Vec<SkillConfigEntry>,
    pub store: StoreConfig,
    pub remediation: RemediationConfig,
}

impl Config {
    /// The configuration where nothing is set.
    pub open spec fn is_default(&self) -> bool {
        &&& self.model.is_default()
        &&& self.runtime.is_default()
        &&& self.prometheus.is_default()
        &&& self.loki.is_default()
        &&& self.tempo.is_default()
        &&& self.targets.is_default()
        &&& self.tools.is_default()
        &&& self.server.is_default()
        &&& self.workspaces@.len() == 0
        &&& self.extensions.is_default()
        &&& self.extension@.len() == 0
        &&& self.skills@.len() == 0
        &&& self.store.is_default()
        &&& self.remediation.is_default()
    }
}

impl Default for Config {
    fn default() -> (r: Self)
        ensures
            r.is_default(),
    {
        Config {
            model: ModelConfig::default(),
            runtime: RuntimeSettings::default(),
            prometheus: PrometheusConfig::default(),
            loki: LokiConfig::default(),
            tempo: TempoConfig::default(),
            targets: TargetConfig::default(),
            tools: ToolsConfig::default(),
            server: ServerConfig::default(),
            workspaces: Vec::new(),
            extensions: ExtensionsConfig::default(),
            extension: Vec::new(),
            skills: Vec::new(),
            store: StoreConfig::default(),
            remediation: RemediationConfig::default(),
        }
    }
}

// ---------------------------------------------------------------------------
// Addresses of this machine
// ---------------------------------------------------------------------------
/// An octet of an address: up to three digits, no needless zero, 255 at most.
pub open spec fn is_octet(text: Seq<char>) -> bool {
    &&& 1 <= text.len() <= 3
    &&& forall|i: int| 0 <= i < text.len() ==> is_digit(#[trigger] text[i])
    &&& text.len() > 1 ==> text[0] != '0'
    &&& octet_value(text) <= 255
}

pub open spec fn octet_value(text: Seq<char>) -> int
    decreases text.len(),
{
    if text.len() == 0 {
        0
    } else {
        10 * octet_value(text.drop_last()) + (text.last() as int - '0' as int)
    }
}

/// An address in dotted form whose first octet is 127.
pub open spec fn is_loopback_v4(text: Seq<char>) -> bool {
    let parts = split(text, '.');
    &&& parts.len() == 4
    &&& forall|i: int| 0 <= i < 4 ==> is_octet(#[trigger] parts[i])
    &&& parts[0] == "127"@
}

/// A group of zeros, and one that ends with a one.
pub open spec fn is_zero_group(text: Seq<char>) -> bool {
    &&& 1 <= text.len() <= 4
    &&& forall|i: int| 0 <= i < text.len() ==> #[trigger] text[i] == '0'
}

pub open spec fn is_one_group(text: Seq<char>) -> bool {
    &&& 1 <= text.len() <= 4
    &&& forall|i: int| 0 <= i < text.len() - 1 ==> #[trigger] text[i] == '0'
    &&& text.last() == '1'
}

pub open spec fn are_zero_groups(groups: Seq<Seq<char>>) -> bool {
    forall|i: int| 0 <= i < groups.len() ==> is_zero_group(#[trigger] groups[i])
}

/// The groups at the end of an address that stand for one: zeros, then a one,
/// which may be written in dotted form. Dotted groups count twice.
pub open spec fn ends_in_one(groups: Seq<Seq<char>>) -> bool {
    groups.len() > 0 && are_zero_groups(groups.drop_last()) && (is_one_group(groups.last())
        || groups.last() == "0.0.0.1"@)
}

pub open spec fn group_count(groups: Seq<Seq<char>>) -> int {
    if groups.len() > 0 && groups.last() == "0.0.0.1"@ {
        groups.len() as int + 1
    } else {
        groups.len() as int
    }
}

/// The address `::1`, in any of its forms: eight groups, or fewer where a pair
/// of colons stands for the rest.
pub open spec fn is_loopback_v6(text: Seq<char>) -> bool {
    match find_from(text, "::"@, 0) {
        None => {
            let groups = split(text, ':');
            ends_in_one(groups) && group_count(groups) == 8
        },
        Some(at) => {
            let head = text.take(at);
            let tail = split(text.skip(at + 2), ':');
            let before = if head.len() == 0 {
                Seq::empty()
            } else {
                split(head, ':')
            };
            are_zero_groups(before) && ends_in_one(tail) && before.len() + group_count(tail) <= 7
        },
    }
}

/// A text without the brackets around it.
pub open spec fn unbracketed_start(text: Seq<char>) -> Seq<char>
    decreases text.len(),
{
    if text.len() > 0 && (text[0] == '[' || text[0] == ']') {
        unbracketed_start(text.skip(1))
    } else {
        text
    }
}

pub open spec fn unbracketed_end(text: Seq<char>) -> Seq<char>
    decreases text.len(),
{
    if text.len() > 0 && (text.last() == '[' || text.last() == ']') {
        unbracketed_end(text.drop_last())
    } else {
        text
    }
}

pub open spec fn bind_name(host: Seq<char>) -> Seq<char> {
    unbracketed_end(unbracketed_start(trim(host)))
}

/// A host that only this machine can reach.
pub open spec fn loopback_host(host: Seq<char>) -> bool {
    let name = bind_name(host);
    lower(name) == "localhost"@ || is_loopback_v4(name) || is_loopback_v6(name)
}

fn octet_is_valid(text: &str) -> (r: bool)
    ensures
        r == is_octet(text@),
{
    let chars = chars_of(text);
    let n: usize = chars.len();
    if n < 1 || n > 3 {
        return false;
    }
    let mut value: u32 = 0;
    let mut i: usize = 0;
    while i < n
        invariant
            chars@ == text@,
            n == chars@.len(),
            i <= n <= 3,
            value == octet_value(chars@.take(i as int)),
            value < 1000,
            i == 0 ==> value == 0,
            i == 1 ==> value < 10,
            i == 2 ==> value < 100,
            forall|k: int| 0 <= k < i ==> is_digit(#[trigger] chars@[k]),
        decreases n - i,
    {
        let c = chars[i];
        if !(c >= '0' && c <= '9') {
            return false;
        }
        assert(chars@.take(i + 1).drop_last() =~= chars@.take(i as int));
        assert(chars@.take(i + 1).last() == c);
        value = value * 10 + (c as u32 - '0' as u32);
        i += 1;
    }
    assert(chars@.take(n as int) =~= chars@);
    !(n > 1 && chars[0] == '0') && value <= 255
}

fn host_is_v4(text: &str) -> (r: bool)
    ensures
        r == is_loopback_v4(text@),
{
    let parts = split_str(text, '.');
    let ghost seen = views(parts@);
    if parts.len() != 4 {
        return false;
    }
    let mut i: usize = 0;
    while i < 4
        invariant
            i <= 4,
            parts@.len() == 4,
            seen == views(parts@),
            seen == split(text@, '.'),
            forall|k: int| 0 <= k < i ==> is_octet(#[trigger] seen[k]),
        decreases 4 - i,
    {
        assert(seen[i as int] == parts@[i as int]@);
        if !octet_is_valid(parts[i].as_str()) {
            return false;
        }
        i += 1;
    }
    assert(seen[0] == parts@[0]@);
    same(parts[0].as_str(), "127")
}

fn group_is_zero(text: &str) -> (r: bool)
    ensures
        r == is_zero_group(text@),
{
    let chars = chars_of(text);
    let n: usize = chars.len();
    if n < 1 || n > 4 {
        return false;
    }
    let mut i: usize = 0;
    while i < n
        invariant
            chars@ == text@,
            n == chars@.len(),
            i <= n,
            forall|k: int| 0 <= k < i ==> #[trigger] chars@[k] == '0',
        decreases n - i,
    {
        if chars[i] != '0' {
            return false;
        }
        i += 1;
    }
    true
}

fn group_is_one(text: &str) -> (r: bool)
    ensures
        r == is_one_group(text@),
{
    let chars = chars_of(text);
    let n: usize = chars.len();
    if n < 1 || n > 4 {
        return false;
    }
    let mut i: usize = 0;
    while i < n - 1
        invariant
            chars@ == text@,
            n == chars@.len(),
            n >= 1,
            i <= n - 1,
            forall|k: int| 0 <= k < i ==> #[trigger] chars@[k] == '0',
        decreases n - i,
    {
        if chars[i] != '0' {
            return false;
        }
        i += 1;
    }
    chars[n - 1] == '1'
}

fn first_are_zero(groups: &Vec<String>, n: usize) -> (r: bool)
    requires
        n <= groups@.len(),
    ensures
        r == are_zero_groups(views(groups@).take(n as int)),
{
    let ghost seen = views(groups@).take(n as int);
    let mut i: usize = 0;
    while i < n
        invariant
            i <= n <= groups@.len(),
            seen == views(groups@).take(n as int),
            forall|k: int| 0 <= k < i ==> is_zero_group(#[trigger] seen[k]),
        decreases n - i,
    {
        assert(seen[i as int] == groups@[i as int]@);
        if !group_is_zero(groups[i].as_str()) {
            return false;
        }
        i += 1;
    }
    true
}

fn groups_end_in_one(groups: &Vec<String>) -> (r: bool)
    ensures
        r == ends_in_one(views(groups@)),
{
    let n: usize = groups.len();
    if n == 0 {
        return false;
    }
    let ghost seen = views(groups@);
    assert(seen.take(n - 1) =~= seen.drop_last());
    assert(seen.last() == groups@[n - 1]@);
    first_are_zero(groups, n - 1) && (group_is_one(groups[n - 1].as_str()) || same(
        groups[n - 1].as_str(),
        "0.0.0.1",
    ))
}

fn count_groups(groups: &Vec<String>) -> (r: Option<usize>)
    ensures
        match r {
            Some(n) => n == group_count(views(groups@)),
            None => group_count(views(groups@)) > usize::MAX,
        },
{
    let n: usize = groups.len();
    if n > 0 {
        assert(views(groups@).last() == groups@[n - 1]@);
        if same(groups[n - 1].as_str(), "0.0.0.1") {
            return n.checked_add(1);
        }
    }
    Some(n)
}

fn host_is_v6(text: &str) -> (r: bool)
    ensures
        r == is_loopback_v6(text@),
{
    let chars = chars_of(text);
    let pair = chars_of("::");
    match find_chars(&chars, &pair, 0) {
        None => {
            let groups = split_str(text, ':');
            groups_end_in_one(&groups) && (match count_groups(&groups) {
                Some(n) => n == 8,
                None => false,
            })
        },
        Some(at) => {
            proof {
                reveal_strlit("::");
                crate::text::lemma_find_from(chars@, pair@, 0);
            }
            let n: usize = chars.len();
            let head = substring(&chars, 0, at);
            assert(head@ =~= text@.take(at as int));
            let rest = substring(&chars, at + 2, n);
            assert(rest@ =~= text@.skip(at + 2));
            let tail = split_str(rest.as_str(), ':');
            let before = if head.as_str().is_empty() {
                Vec::new()
            } else {
                split_str(head.as_str(), ':')
            };
            let ghost zeros = views(before@);
            assert(head@.len() == 0 ==> zeros =~= Seq::empty());
            let m: usize = before.len();
            assert(zeros.take(m as int) =~= zeros);
            first_are_zero(&before, m) && groups_end_in_one(&tail) && (match count_groups(&tail) {
                Some(k) => m <= 7 && k <= 7 - m,
                None => false,
            })
        },
    }
}

fn strip_brackets(text: &str) -> (r: String)
    ensures
        r@ == unbracketed_end(unbracketed_start(text@)),
{
    let chars = chars_of(text);
    let n: usize = chars.len();
    let mut from: usize = 0;
    assert(chars@.skip(0) =~= chars@);
    while from < n && (chars[from] == '[' || chars[from] == ']')
        invariant
            n == chars@.len(),
            from <= n,
            unbracketed_start(chars@) == unbracketed_start(chars@.skip(from as int)),
        decreases n - from,
    {
        assert(chars@.skip(from as int)[0] == chars@[from as int]);
        assert(chars@.skip(from as int).skip(1) =~= chars@.skip(from + 1));
        from += 1;
    }
    assert(from < n ==> chars@.skip(from as int)[0] == chars@[from as int]);
    let ghost rest = chars@.skip(from as int);
    assert(unbracketed_start(chars@) == rest);
    let mut to: usize = n;
    assert(rest.take(to - from) =~= rest);
    while to > from && (chars[to - 1] == '[' || chars[to - 1] == ']')
        invariant
            n == chars@.len(),
            from <= to <= n,
            rest == chars@.skip(from as int),
            unbracketed_end(rest) == unbracketed_end(rest.take(to - from)),
        decreases to - from,
    {
        assert(rest.take(to - from).last() == chars@[to - 1]);
        assert(rest.take(to - from).drop_last() =~= rest.take(to - 1 - from));
        to -= 1;
    }
    assert(to > from ==> rest.take(to - from).last() == chars@[to - 1]);
    let r = substring(&chars, from, to);
    assert(r@ =~= rest.take(to - from));
    r
}

/// The name of a host without what surrounds it.
pub fn bind_name_of(host: &str) -> (r: String)
    ensures
        r@ == bind_name(host@),
{
    strip_brackets(trim_str(host).as_str())
}

pub fn is_loopback_bind_host(host: &str) -> (r: bool)
    ensures
        r == loopback_host(host@),
{
    let name = bind_name_of(host);
    same(lower_str(name.as_str()).as_str(), "localhost") || host_is_v4(name.as_str())
        || host_is_v6(name.as_str())
}

// ---------------------------------------------------------------------------
// Validation
// ---------------------------------------------------------------------------
impl RuntimeSettings {
    /// The first setting that is zero and may not be.
    pub open spec fn zero_setting(&self) -> Option<Seq<char>> {
        if self.max_steps == 0 {
            Some("max_steps"@)
        } else if self.max_concurrent_turns == 0 {
            Some("max_concurrent_turns"@)
        } else if self.tool_timeout_seconds == 0 {
            Some("tool_timeout_seconds"@)
        } else if self.model_timeout_seconds == 0 {
            Some("model_timeout_seconds"@)
        } else if self.max_output_bytes == 0 {
            Some("max_output_bytes"@)
        } else if self.context_items == 0 {
            Some("context_items"@)
        } else if self.context_max_tokens == 0 {
            Some("context_max_tokens"@)
        } else if self.context_max_bytes == 0 {
            Some("context_max_bytes"@)
        } else if self.context_max_evidence == 0 {
            Some("context_max_evidence"@)
        } else if self.context_max_tool_calls == 0 {
            Some("context_max_tool_calls"@)
        } else if self.inline_artifact_bytes == 0 {
            Some("inline_artifact_bytes"@)
        } else {
            None
        }
    }

    fn find_zero(&self) -> (r: Option<&'static str>)
        ensures
            crate::json::str_view(r) == self.zero_setting(),
    {
        if self.max_steps == 0 {
            Some("max_steps")
        } else if self.max_concurrent_turns == 0 {
            Some("max_concurrent_turns")
        } else if self.tool_timeout_seconds == 0 {
            Some("tool_timeout_seconds")
        } else if self.model_timeout_seconds == 0 {
            Some("model_timeout_seconds")
        } else if self.max_output_bytes == 0 {
            Some("max_output_bytes")
        } else if self.context_items == 0 {
            Some("context_items")
        } else if self.context_max_tokens == 0 {
            Some("context_max_tokens")
        } else if self.context_max_bytes == 0 {
            Some("context_max_bytes")
        } else if self.context_max_evidence == 0 {
            Some("context_max_evidence")
        } else if self.context_max_tool_calls == 0 {
            Some("context_max_tool_calls")
        } else if self.inline_artifact_bytes == 0 {
            Some("inline_artifact_bytes")
        } else {
            None
        }
    }
}

/// What was read of a URL.
pub open spec fn read_url_view(url: Result<UrlParts, String>) -> Result<UrlView, Seq<char>> {
    match url {
        Ok(url) => Ok(url@),
        Err(e) => Err(e@),
    }
}

/// The efforts that a model can be asked for.
pub open spec fn known_effort(text: Seq<char>) -> bool {
    text == "none"@ || text == "minimal"@ || text == "low"@ || text == "medium"@ || text == "high"@
        || text == "xhigh"@
}

fn is_known_effort(text: &str) -> (r: bool)
    ensures
        r == known_effort(text@),
{
    same(text, "none") || same(text, "minimal") || same(text, "low") || same(text, "medium")
        || same(text, "high") || same(text, "xhigh")
}

/// What is wrong with the name of an effect.
pub open spec fn effect_error(text: Seq<char>) -> Option<ErrorView> {
    if exists|effect: CapabilityEffect| #[trigger] effect.name() == text {
        None
    } else {
        Some(ErrorView::Protocol("unsupported capability effect `"@ + text + "`"@))
    }
}

/// What the check of the name of the workspace at `i` found.
pub open spec fn name_error(names: Seq<OpsResult<()>>, i: int) -> Option<ErrorView> {
    match names[i] {
        Ok(_) => None,
        Err(e) => Some(e@),
    }
}

/// What is wrong with the workspace at `i`, when `names` is what the checks of the
/// names found.
pub open spec fn workspace_error(
    workspaces: Seq<WorkspaceConfigEntry>,
    names: Seq<OpsResult<()>>,
    i: int,
) -> Option<ErrorView> {
    let workspace = workspaces[i];
    if name_error(names, i) is Some {
        name_error(names, i)
    } else if exists|j: int| 0 <= j < i && trim((#[trigger] workspaces[j]).id@) == trim(workspace.id@) {
        Some(ErrorView::Protocol("duplicate workspace id `"@ + workspace.id@ + "`"@))
    } else if workspace.max_concurrent_turns == Some(0usize) {
        Some(
            ErrorView::Protocol("workspace.max_concurrent_turns must be greater than zero"@),
        )
    } else {
        match workspace.max_effect {
            Some(effect) => effect_error(effect@),
            None => None,
        }
    }
}

/// The first thing wrong with the first `n` workspaces.
pub open spec fn workspaces_error(
    workspaces: Seq<WorkspaceConfigEntry>,
    names: Seq<OpsResult<()>>,
    n: int,
) -> Option<ErrorView>
    decreases n,
{
    if n <= 0 {
        None
    } else {
        match workspaces_error(workspaces, names, n - 1) {
            Some(e) => Some(e),
            None => workspace_error(workspaces, names, n - 1),
        }
    }
}

/// What is wrong with the extension at `i`.
pub open spec fn extension_error(extensions: Seq<ExtensionConfigEntry>, i: int) -> Option<ErrorView> {
    let extension = extensions[i];
    if trim(extension.id@).len() == 0 {
        Some(ErrorView::Protocol("extension.id must not be empty"@))
    } else if exists|j: int|
        0 <= j < i && trim((#[trigger] extensions[j]).id@) == trim(extension.id@) {
        Some(ErrorView::Protocol("duplicate extension id `"@ + extension.id@ + "`"@))
    } else if extension.kind@ != "custom"@ && extension.kind@ != "mcp"@ && extension.kind@
        != "mcp_http"@ {
        Some(ErrorView::Protocol("unsupported extension kind `"@ + extension.kind@ + "`"@))
    } else {
        None
    }
}

/// The first thing wrong with the first `n` extensions.
pub open spec fn extensions_error(extensions: Seq<ExtensionConfigEntry>, n: int) -> Option<ErrorView>
    decreases n,
{
    if n <= 0 {
        None
    } else {
        match extensions_error(extensions, n - 1) {
            Some(e) => Some(e),
            None => extension_error(extensions, n - 1),
        }
    }
}

impl Config {
    /// What is wrong with the model and the sources of evidence.
    pub open spec fn source_error(&self) -> Option<ErrorView> {
        if trim(self.model.model@).len() == 0 {
            Some(ErrorView::Protocol("model.model must not be empty"@))
        } else if self.model.reasoning_effort matches Some(effort) && !known_effort(effort@) {
            Some(
                ErrorView::Protocol(
                    "model.reasoning_effort must be one of none, minimal, low, medium, high, or xhigh"@,
                ),
            )
        } else if self.loki.max_range_seconds == 0 || self.tempo.max_range_seconds == 0 {
            Some(
                ErrorView::Protocol(
                    "loki.max_range_seconds and tempo.max_range_seconds must be greater than zero"@,
                ),
            )
        } else if self.loki.max_lines == 0 {
            Some(ErrorView::Protocol("loki.max_lines must be greater than zero"@))
        } else if self.extensions.max_skill_context_bytes == 0 {
            Some(
                ErrorView::Protocol(
                    "extensions.max_skill_context_bytes must be greater than zero"@,
                ),
            )
        } else if self.store.approval_ttl_seconds == 0 || self.store.lease_ttl_seconds == 0 {
            Some(
                ErrorView::Protocol(
                    "store.approval_ttl_seconds and store.lease_ttl_seconds must be greater than zero"@,
                ),
            )
        } else if self.remediation.approval_ttl_seconds == 0 {
            Some(
                ErrorView::Protocol("remediation.approval_ttl_seconds must be greater than zero"@),
            )
        } else {
            None
        }
    }

    /// What is wrong with the addresses and the store; `url` is what was read of the
    /// address of the demo service.
    pub open spec fn place_error(&self, url: Result<UrlView, Seq<char>>) -> Option<ErrorView> {
        match url {
            Err(e) => Some(ErrorView::Protocol("invalid remediation.demo_fault_url: "@ + e)),
            Ok(url) => if !(url.host matches Some(host) && loopback_name(host)) {
                Some(
                    ErrorView::Protocol("remediation.demo_fault_url must be a loopback host"@),
                )
            } else if !loopback_host(self.server.host@) {
                Some(
                    ErrorView::Protocol(
                        "without TLS, server.host must be a loopback address (127.0.0.1, localhost, or ::1)"@,
                    ),
                )
            } else if self.store.backend@ != "sqlite"@ && self.store.backend@ != "jsonl"@ {
                Some(
                    ErrorView::Protocol(
                        "store.backend must be sqlite or jsonl, not `"@ + self.store.backend@
                            + "`"@,
                    ),
                )
            } else {
                None
            },
        }
    }

    /// The first thing wrong with the configuration, when `names` is what the checks
    /// of the names of its workspaces found.
    pub open spec fn error(&self, names: Seq<OpsResult<()>>) -> Option<ErrorView> {
        self.error_with(url_of(self.remediation.demo_fault_url@), names)
    }

    /// The first thing wrong with the configuration, when `url` is what was read of
    /// the address of the demo service, and `names` what the checks of the names of its
    /// workspaces found.
    pub open spec fn error_with(
        &self,
        url: Result<UrlView, Seq<char>>,
        names: Seq<OpsResult<()>>,
    ) -> Option<ErrorView> {
        if self.runtime.zero_setting() is Some {
            Some(
                ErrorView::Protocol(
                    "runtime."@ + self.runtime.zero_setting()->0 + " must be greater than zero"@,
                ),
            )
        } else if self.source_error() is Some {
            self.source_error()
        } else if self.place_error(url) is Some {
            self.place_error(url)
        } else if workspaces_error(self.workspaces@, names, self.workspaces@.len() as int) is Some {
            workspaces_error(self.workspaces@, names, self.workspaces@.len() as int)
        } else if extensions_error(self.extension@, self.extension@.len() as int) is Some {
            extensions_error(self.extension@, self.extension@.len() as int)
        } else if self.extensions.production_safe && self.tools.allow_exec {
            Some(
                ErrorView::Protocol(
                    "extensions.production_safe cannot be combined with tools.exec"@,
                ),
            )
        } else {
            None
        }
    }

    fn find_source_error(&self) -> (r: Option<OpsCodexError>)
        ensures
            match r {
                Some(e) => self.source_error() == Some(e@),
                None => self.source_error() is None,
            },
    {
        if trim_str(self.model.model.as_str()).as_str().is_empty() {
            return Some(OpsCodexError::Protocol("model.model must not be empty".to_owned()));
        }
        if let Some(effort) = &self.model.reasoning_effort {
            if !is_known_effort(effort.as_str()) {
                return Some(
                    OpsCodexError::Protocol(
                        "model.reasoning_effort must be one of none, minimal, low, medium, high, or xhigh".to_owned(),
                    ),
                );
            }
        }
        if self.loki.max_range_seconds == 0 || self.tempo.max_range_seconds == 0 {
            return Some(
                OpsCodexError::Protocol(
                    "loki.max_range_seconds and tempo.max_range_seconds must be greater than zero".to_owned(),
                ),
            );
        }
        if self.loki.max_lines == 0 {
            return Some(
                OpsCodexError::Protocol("loki.max_lines must be greater than zero".to_owned()),
            );
        }
        if self.extensions.max_skill_context_bytes == 0 {
            return Some(
                OpsCodexError::Protocol(
                    "extensions.max_skill_context_bytes must be greater than zero".to_owned(),
                ),
            );
        }
        if self.store.approval_ttl_seconds == 0 || self.store.lease_ttl_seconds == 0 {
            return Some(
                OpsCodexError::Protocol(
                    "store.approval_ttl_seconds and store.lease_ttl_seconds must be greater than zero".to_owned(),
                ),
            );
        }
        if self.remediation.approval_ttl_seconds == 0 {
            return Some(
                OpsCodexError::Protocol(
                    "remediation.approval_ttl_seconds must be greater than zero".to_owned(),
                ),
            );
        }
        None
    }

    fn find_place_error(&self, url: &Result<UrlParts, String>) -> (r: Option<OpsCodexError>)
        ensures
            match r {
                Some(e) => self.place_error(read_url_view(*url)) == Some(e@),
                None => self.place_error(read_url_view(*url)) is None,
            },
    {
        let url = match url {
            Ok(url) => url,
            Err(e) => {
                let mut message = "invalid remediation.demo_fault_url: ".to_owned();
                message.append(e.as_str());
                return Some(OpsCodexError::Protocol(message));
            },
        };
        let local = match &url.host {
            Some(host) => is_loopback_name(host.as_str()),
            None => false,
        };
        if !local {
            return Some(
                OpsCodexError::Protocol(
                    "remediation.demo_fault_url must be a loopback host".to_owned(),
                ),
            );
        }
        if !is_loopback_bind_host(self.server.host.as_str()) {
            return Some(
                OpsCodexError::Protocol(
                    "without TLS, server.host must be a loopback address (127.0.0.1, localhost, or ::1)".to_owned(),
                ),
            );
        }
        if !same(self.store.backend.as_str(), "sqlite") && !same(
            self.store.backend.as_str(),
            "jsonl",
        ) {
            let mut message = "store.backend must be sqlite or jsonl, not `".to_owned();
            message.append(self.store.backend.as_str());
            message.append("`");
            return Some(OpsCodexError::Protocol(message));
        }
        None
    }

    fn find_workspace_error(&self, names: &Vec<OpsResult<()>>) -> (r: Option<OpsCodexError>)
        requires
            names@.len() == self.workspaces@.len(),
        ensures
            match r {
                Some(e) => workspaces_error(self.workspaces@, names@, self.workspaces@.len() as int)
                    == Some(e@),
                None => workspaces_error(self.workspaces@, names@, self.workspaces@.len() as int) is None,
            },
    {
        let mut i: usize = 0;
        while i < self.workspaces.len()
            invariant
                i <= self.workspaces@.len(),
                names@.len() == self.workspaces@.len(),
                workspaces_error(self.workspaces@, names@, i as int) is None,
            decreases self.workspaces@.len() - i,
        {
            if let Some(error) = check_workspace(&self.workspaces, names, i) {
                proof {
                    lemma_workspaces_error_stays(
                        self.workspaces@,
                        names@,
                        i + 1,
                        self.workspaces@.len() as int,
                    );
                }
                return Some(error);
            }
            i += 1;
        }
        None
    }

    fn find_extension_error(&self) -> (r: Option<OpsCodexError>)
        ensures
            match r {
                Some(e) => extensions_error(self.extension@, self.extension@.len() as int) == Some(
                    e@,
                ),
                None => extensions_error(self.extension@, self.extension@.len() as int) is None,
            },
    {
        let mut i: usize = 0;
        while i < self.extension.len()
            invariant
                i <= self.extension@.len(),
                extensions_error(self.extension@, i as int) is None,
            decreases self.extension@.len() - i,
        {
            if let Some(error) = check_extension(&self.extension, i) {
                proof {
                    lemma_extensions_error_stays(
                        self.extension@,
                        i + 1,
                        self.extension@.len() as int,
                    );
                }
                return Some(error);
            }
            i += 1;
        }
        None
    }

    /// Whether the configuration is accepted; `names` is what the checks of the names
    /// of its workspaces, without the space around them, found.
    pub fn validate(&self, names: &Vec<OpsResult<()>>) -> (r: OpsResult<()>)
        requires
            names@.len() == self.workspaces@.len(),
        ensures
            match r {
                Ok(_) => self.error(names@) is None,
                Err(e) => self.error(names@) == Some(e@),
            },
    {
        self.check(parse_url(self.remediation.demo_fault_url.as_str()), names)
    }

    /// Checks the configuration, when `url` is what was read of the address of the
    /// demo service.
    pub fn check(&self, url: Result<UrlParts, String>, names: &Vec<OpsResult<()>>) -> (r: OpsResult<
        (),
    >)
        requires
            names@.len() == self.workspaces@.len(),
        ensures
            match r {
                Ok(_) => self.error_with(read_url_view(url), names@) is None,
                Err(e) => self.error_with(read_url_view(url), names@) == Some(e@),
            },
    {
        if let Some(name) = self.runtime.find_zero() {
            let mut message = "runtime.".to_owned();
            message.append(name);
            message.append(" must be greater than zero");
            return Err(OpsCodexError::Protocol(message));
        }
        if let Some(error) = self.find_source_error() {
            return Err(error);
        }
        if let Some(error) = self.find_place_error(&url) {
            return Err(error);
        }
        if let Some(error) = self.find_workspace_error(names) {
            return Err(error);
        }
        if let Some(error) = self.find_extension_error() {
            return Err(error);
        }
        if self.extensions.production_safe && self.tools.allow_exec {
            return Err(
                OpsCodexError::Protocol(
                    "extensions.production_safe cannot be combined with tools.exec".to_owned(),
                ),
            );
        }
        Ok(())
    }
}

fn check_workspace(
    workspaces: &Vec<WorkspaceConfigEntry>,
    names: &Vec<OpsResult<()>>,
    i: usize,
) -> (r: Option<OpsCodexError>)
    requires
        i < workspaces@.len(),
        names@.len() == workspaces@.len(),
    ensures
        match r {
            Some(e) => workspace_error(workspaces@, names@, i as int) == Some(e@),
            None => workspace_error(workspaces@, names@, i as int) is None,
        },
{
    let workspace = &workspaces[i];
    if let Err(error) = &names[i] {
        return Some(error.clone());
    }
    let id = trim_str(workspace.id.as_str());
    let mut j: usize = 0;
    while j < i
        invariant
            j <= i < workspaces@.len(),
            workspace == workspaces@[i as int],
            id@ == trim(workspace.id@),
            name_error(names@, i as int) is None,
            forall|k: int| 0 <= k < j ==> trim((#[trigger] workspaces@[k]).id@) != id@,
        decreases i - j,
    {
        if same(trim_str(workspaces[j].id.as_str()).as_str(), id.as_str()) {
            let mut message = "duplicate workspace id `".to_owned();
            message.append(workspace.id.as_str());
            message.append("`");
            return Some(OpsCodexError::Protocol(message));
        }
        j += 1;
    }
    if let Some(turns) = workspace.max_concurrent_turns {
        if turns == 0 {
            return Some(
                OpsCodexError::Protocol(
                    "workspace.max_concurrent_turns must be greater than zero".to_owned(),
                ),
            );
        }
    }
    if let Some(effect) = &workspace.max_effect {
        if let Err(error) = CapabilityEffect::parse(effect.as_str()) {
            return Some(error);
        }
    }
    None
}

fn check_extension(extensions: &Vec<ExtensionConfigEntry>, i: usize) -> (r: Option<OpsCodexError>)
    requires
        i < extensions@.len(),
    ensures
        match r {
            Some(e) => extension_error(extensions@, i as int) == Some(e@),
            None => extension_error(extensions@, i as int) is None,
        },
{
    let extension = &extensions[i];
    let id = trim_str(extension.id.as_str());
    if id.as_str().is_empty() {
        return Some(OpsCodexError::Protocol("extension.id must not be empty".to_owned()));
    }
    let mut j: usize = 0;
    while j < i
        invariant
            j <= i < extensions@.len(),
            extension == extensions@[i as int],
            id@ == trim(extension.id@),
            id@.len() > 0,
            forall|k: int| 0 <= k < j ==> trim((#[trigger] extensions@[k]).id@) != id@,
        decreases i - j,
    {
        if same(trim_str(extensions[j].id.as_str()).as_str(), id.as_str()) {
            let mut message = "duplicate extension id `".to_owned();
            message.append(extension.id.as_str());
            message.append("`");
            return Some(OpsCodexError::Protocol(message));
        }
        j += 1;
    }
    let kind = extension.kind.as_str();
    if !same(kind, "custom") && !same(kind, "mcp") && !same(kind, "mcp_http") {
        let mut message = "unsupported extension kind `".to_owned();
        message.append(kind);
        message.append("`");
        return Some(OpsCodexError::Protocol(message));
    }
    None
}

proof fn lemma_workspaces_error_stays(
    workspaces: Seq<WorkspaceConfigEntry>,
    names: Seq<OpsResult<()>>,
    m: int,
    n: int,
)
    requires
        0 <= m <= n,
        workspaces_error(workspaces, names, m) is Some,
    ensures
        workspaces_error(workspaces, names, n) == workspaces_error(workspaces, names, m),
    decreases n,
{
    if m < n {
        lemma_workspaces_error_stays(workspaces, names, m, n - 1);
    }
}

proof fn lemma_extensions_error_stays(extensions: Seq<ExtensionConfigEntry>, m: int, n: int)
    requires
        0 <= m <= n,
        extensions_error(extensions, m) is Some,
    ensures
        extensions_error(extensions, n) == extensions_error(extensions, m),
    decreases n,
{
    if m < n {
        lemma_extensions_error_stays(extensions, m, n - 1);
    }
}

proof fn lemma_no_error_below(
    workspaces: Seq<WorkspaceConfigEntry>,
    names: Seq<OpsResult<()>>,
    i: int,
    n: int,
)
    requires
        0 <= i < n,
        workspaces_error(workspaces, names, n) is None,
    ensures
        workspace_error(workspaces, names, i) is None,
    decreases n,
{
    if i < n - 1 {
        lemma_no_error_below(workspaces, names, i, n - 1);
    }
}

/// In a configuration that is accepted no two workspaces have the same
/// identifier.
pub proof fn law_workspaces_are_distinct(
    config: Config,
    names: Seq<OpsResult<()>>,
    i: int,
    j: int,
)
    requires
        config.error(names) is None,
        0 <= i < j < config.workspaces@.len(),
    ensures
        trim(config.workspaces@[i].id@) != trim(config.workspaces@[j].id@),
{
    lemma_no_error_below(config.workspaces@, names, j, config.workspaces@.len() as int);
    let w = config.workspaces@[i];
    assert(workspace_error(config.workspaces@, names, j) is None);
}

/// A configuration is accepted only where the name of every workspace is.
pub proof fn law_workspace_names_are_accepted(config: Config, names: Seq<OpsResult<()>>, i: int)
    requires
        config.error(names) is None,
        0 <= i < config.workspaces@.len() == names.len(),
    ensures
        names[i] is Ok,
{
    lemma_no_error_below(config.workspaces@, names, i, config.workspaces@.len() as int);
}

/// A configuration that is accepted binds to this machine alone.
pub proof fn law_accepted_config_is_local(config: Config, names: Seq<OpsResult<()>>)
    requires
        config.error(names) is None,
    ensures
        loopback_host(config.server.host@),
        !(config.extensions.production_safe && config.tools.allow_exec),
{
}

// ---------------------------------------------------------------------------
// Choices
// ---------------------------------------------------------------------------
/// Where threads are kept; without a place of its own a store is in the data
/// directory.
#[derive(Debug)]
pub enum StoreChoice {
    Jsonl { directory: Option<String> },
    Sqlite { path: Option<String> },
}

/// Picks the store.
pub fn choose_store(config: &StoreConfig) -> (r: OpsResult<StoreChoice>)
    ensures
        match r {
            Ok(StoreChoice::Jsonl { directory }) => config.backend@ == "jsonl"@ && directory
                == config.jsonl_dir,
            Ok(StoreChoice::Sqlite { path }) => config.backend@ != "jsonl"@ && config.backend@
                == "sqlite"@ && path == config.sqlite_path,
            Err(e) => config.backend@ != "jsonl"@ && config.backend@ != "sqlite"@ && e@
                == ErrorView::Protocol(
                "unsupported store.backend `"@ + config.backend@
                    + "` (expected sqlite or jsonl)"@,
            ),
        },
{
    if same(config.backend.as_str(), "jsonl") {
        Ok(StoreChoice::Jsonl { directory: config.jsonl_dir.clone() })
    } else if same(config.backend.as_str(), "sqlite") {
        Ok(StoreChoice::Sqlite { path: config.sqlite_path.clone() })
    } else {
        let mut message = "unsupported store.backend `".to_owned();
        message.append(config.backend.as_str());
        message.append("` (expected sqlite or jsonl)");
        Err(OpsCodexError::Protocol(message))
    }
}

#[derive(Clone, Copy, Debug, PartialEq, Eq, Structural)]
pub enum ModelChoice {
    Demo,
    OpenAi,
}

/// Picks the model.
pub fn choose_model(config: &ModelConfig, fake_model: bool) -> (r: OpsResult<ModelChoice>)
    ensures
        match r {
            Ok(ModelChoice::Demo) => fake_model || config.provider@ == "fake"@,
            Ok(ModelChoice::OpenAi) => !fake_model && config.provider@ != "fake"@
                && config.provider@ == "openai"@,
            Err(e) => !fake_model && config.provider@ != "fake"@ && config.provider@ != "openai"@
                && e@ == ErrorView::Model(
                "unsupported model provider `"@ + config.provider@ + "`"@,
            ),
        },
{
    if fake_model || same(config.provider.as_str(), "fake") {
        Ok(ModelChoice::Demo)
    } else if same(config.provider.as_str(), "openai") {
        Ok(ModelChoice::OpenAi)
    } else {
        let mut message = "unsupported model provider `".to_owned();
        message.append(config.provider.as_str());
        message.append("`");
        Err(OpsCodexError::Model(message))
    }
}

/// An effort can be asked only of a model that lets itself be told.
pub fn check_reasoning(config: &ModelConfig, capabilities: &ModelCapabilities) -> (r: OpsResult<()>)
    ensures
        r is Ok <==> config.reasoning_effort is None || capabilities.reasoning_control,
        r matches Err(e) ==> e@ == ErrorView::Model(
            "model.reasoning_effort is set but the selected provider does not declare reasoning_control"@,
        ),
{
    if config.reasoning_effort.is_some() && !capabilities.reasoning_control {
        Err(
            OpsCodexError::Model(
                "model.reasoning_effort is set but the selected provider does not declare reasoning_control".to_owned(),
            ),
        )
    } else {
        Ok(())
    }
}

impl RuntimeConfig {
    /// The limits that the settings ask for.
    pub fn from_settings(settings: &RuntimeSettings) -> (r: RuntimeConfig)
        ensures
            r == (RuntimeConfig {
                max_steps: settings.max_steps,
                max_concurrent_turns: settings.max_concurrent_turns,
                model_timeout: settings.model_timeout_seconds,
                tool_timeout: settings.tool_timeout_seconds,
                context_items: settings.context_items,
                context: ContextBudget {
                    max_items: settings.context_items,
                    max_tokens: settings.context_max_tokens,
                    max_bytes: settings.context_max_bytes,
                    max_evidence: settings.context_max_evidence,
                    max_tool_calls: settings.context_max_tool_calls,
                    max_cost_micros: settings.context_max_cost_micros,
                },
                inline_artifact_bytes: settings.inline_artifact_bytes,
            }),
    {
        RuntimeConfig {
            max_steps: settings.max_steps,
            max_concurrent_turns: settings.max_concurrent_turns,
            model_timeout: settings.model_timeout_seconds,
            tool_timeout: settings.tool_timeout_seconds,
            context_items: settings.context_items,
            context: ContextBudget {
                max_items: settings.context_items,
                max_tokens: settings.context_max_tokens,
                max_bytes: settings.context_max_bytes,
                max_evidence: settings.context_max_evidence,
                max_tool_calls: settings.context_max_tool_calls,
                max_cost_micros: settings.context_max_cost_micros,
            },
            inline_artifact_bytes: settings.inline_artifact_bytes,
        }
    }
}

// ---------------------------------------------------------------------------
// Paths
// ---------------------------------------------------------------------------
/// A name below a directory.
pub open spec fn below(directory: Seq<char>, name: Seq<char>) -> Seq<char> {
    if directory.len() == 0 {
        name
    } else if directory.last() == '/' {
        directory + name
    } else {
        directory + "/"@ + name
    }
}

pub fn join_path(directory: &str, name: &str) -> (r: String)
    ensures
        r@ == below(directory@, name@),
{
    let chars = chars_of(directory);
    let n: usize = chars.len();
    let mut path = directory.to_owned();
    if n > 0 && chars[n - 1] != '/' {
        path.append("/");
    }
    path.append(name);
    assert(path@ =~= below(directory@, name@));
    path
}

/// The directory of the program: the one that is named, or one in the home of
/// the user, or one in the current directory.
pub open spec fn program_home(named: Option<Seq<char>>, home: Option<Seq<char>>) -> Seq<char> {
    match named {
        Some(named) => named,
        None => match home {
            Some(home) => below(home, ".opscodex"@),
            None => below("."@, ".opscodex"@),
        },
    }
}

impl Config {
    /// The directory of the program. `named` and `home` are what the
    /// environment says.
    pub fn data_dir(named: Option<&str>, home: Option<&str>) -> (r: String)
        ensures
            r@ == program_home(crate::json::str_view(named), crate::json::str_view(home)),
    {
        match named {
            Some(named) => named.to_owned(),
            None => match home {
                Some(home) => join_path(home, ".opscodex"),
                None => join_path(".", ".opscodex"),
            },
        }
    }

    /// Where the configuration is read from.
    pub fn default_path(data_dir: &str) -> (r: String)
        ensures
            r@ == below(data_dir@, "config.toml"@),
    {
        join_path(data_dir, "config.toml")
    }

    /// Where the database is.
    pub fn sqlite_path(&self, data_dir: &str) -> (r: String)
        ensures
            r@ == (match self.store.sqlite_path {
                Some(path) => path@,
                None => below(data_dir@, "state.sqlite3"@),
            }),
    {
        match &self.store.sqlite_path {
            Some(path) => path.clone(),
            None => join_path(data_dir, "state.sqlite3"),
        }
    }

    /// Where large outputs are kept.
    pub fn artifact_dir(&self, data_dir: &str) -> (r: String)
        ensures
            r@ == below(data_dir@, "artifacts"@),
    {
        join_path(data_dir, "artifacts")
    }
}

// ---------------------------------------------------------------------------
// Loading
// ---------------------------------------------------------------------------
/// What is wrong with a configuration that was decoded.
pub open spec fn decoded_error(
    decoded: Result<Config, String>,
    names: Seq<OpsResult<()>>,
) -> Option<ErrorView> {
    match decoded {
        Err(e) => Some(ErrorView::Protocol("invalid config: "@ + e@)),
        Ok(config) => config.error(names),
    }
}

impl Config {
    /// Takes a configuration that was decoded.
    pub fn from_toml(decoded: Result<Config, String>, names: &Vec<OpsResult<()>>) -> (r: OpsResult<
        Config,
    >)
        requires
            decoded matches Ok(config) ==> names@.len() == config.workspaces@.len(),
        ensures
            match r {
                Ok(config) => decoded_error(decoded, names@) is None && decoded == Ok::<Config, String>(
                    config,
                ),
                Err(e) => decoded_error(decoded, names@) == Some(e@),
            },
    {
        let config = match decoded {
            Ok(config) => config,
            Err(e) => {
                let mut message = "invalid config: ".to_owned();
                message.append(e.as_str());
                return Err(OpsCodexError::Protocol(message));
            },
        };
        match config.validate(names) {
            Ok(_) => Ok(config),
            Err(e) => Err(e),
        }
    }

    /// Takes a configuration that was read from a path. Where there is no file it is
    /// not asked for; where there is one, it was read (`Ok`) or not (`Err`).
    pub fn load(
        path: &str,
        file: Result<Result<Config, String>, String>,
        names: &Vec<OpsResult<()>>,
    ) -> (r: OpsResult<Config>)
        requires
            file matches Ok(Ok(config)) ==> names@.len() == config.workspaces@.len(),
        ensures
            match file {
                Err(error) => r matches Err(e) && e@ == ErrorView::Storage(
                    "could not read "@ + path@ + ": "@ + error@,
                ),
                Ok(decoded) => match r {
                    Ok(config) => decoded_error(decoded, names@) is None && decoded == Ok::<
                        Config,
                        String,
                    >(config),
                    Err(e) => decoded_error(decoded, names@) == Some(e@),
                },
            },
    {
        match file {
            Err(error) => {
                let mut message = "could not read ".to_owned();
                message.append(path);
                message.append(": ");
                message.append(error.as_str());
                Err(OpsCodexError::Storage(message))
            },
            Ok(decoded) => Config::from_toml(decoded, names),
        }
    }

    /// The key of the model; `value` is what the environment holds under its name.
    pub fn api_key(&self, value: Option<String>) -> (r: OpsResult<String>)
        ensures
            match value {
                Some(key) => r == Ok::<String, OpsCodexError>(key),
                None => r matches Err(e) && e@ == ErrorView::Model(
                    "environment variable "@ + self.model.api_key_env@ + " is not set"@,
                ),
            },
    {
        match value {
            Some(key) => Ok(key),
            None => {
                let mut message = "environment variable ".to_owned();
                message.append(self.model.api_key_env.as_str());
                message.append(" is not set");
                Err(OpsCodexError::Model(message))
            },
        }
    }
}

} // verus!
