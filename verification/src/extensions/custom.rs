//! Custom tools: local programs that read and write JSON.
use vstd::prelude::*;

use crate::digest::sha256_text;
use crate::error::{ErrorView, OpsCodexError, OpsResult};
use crate::evidence::{EvidenceMeta, Sensitivity};
use crate::extensions::capability::{
    capability_id, effect_named, enablement, hash_bytes, hash_schema, id_text, law_strictest_unique,
    lemma_effect_named, lemma_stricter_of_two, mode_named, CapabilityDescriptor, CapabilityEffect,
    CapabilitySource, Provenance, RecoveryMode,
};
use crate::extensions::mcp::{ceiling_error, enforce_workspace_ceiling};
use crate::extensions::supervisor::{
    command_error, path_error, validate_command, validate_path, ChildSupervisor, SpawnSpec,
    MAX_RESTARTS,
};
use crate::json::{entries_view, push_entry, string_view, Json, JsonEntry, JsonView};
use crate::json_map::map_bytes;
use crate::json_read::{json_of_bytes, read_json_bytes};
use crate::text::{same, views};
use crate::time::Timestamp;
use crate::tools::{ToolOutput, ToolRisk};

verus! {

pub const DEFAULT_CUSTOM_TIMEOUT: u64 = 10;

pub const DEFAULT_CUSTOM_BYTES: usize = 65536;

#[derive(Debug)]
pub struct CustomToolManifest {
    pub api_version: String,
    pub kind: String,
    pub metadata: CustomToolMetadata,
    pub spec: CustomToolSpec,
}

#[derive(Debug)]
pub struct CustomToolMetadata {
    pub name: String,
    pub version: String,
}

#[derive(Debug)]
pub struct CustomToolSpec {
    pub command: String,
    pub args: Vec<String>,
    pub cwd: Option<String>,
    pub input_schema: Json,
    pub output_schema: Option<Json>,
    pub effect: String,
    pub recovery: Option<String>,
    pub timeout_seconds: Option<u64>,
    pub max_output_bytes: Option<usize>,
    pub env_allowlist: Vec<String>,
}

// ---------------------------------------------------------------------------
// The manifest
// ---------------------------------------------------------------------------
/// What is wrong with a manifest at a path: with the path, with reading the file
/// (`Err`), with decoding what was read (`Ok(Err)`), or with what it declares.
pub open spec fn manifest_error(
    path: Seq<char>,
    read: Result<Result<CustomToolManifest, String>, String>,
) -> Option<ErrorView> {
    match path_error(path) {
        Some(e) => Some(e),
        None => match read {
            Err(e) => Some(ErrorView::Storage("failed to read "@ + path + ": "@ + e@)),
            Ok(Err(e)) => Some(ErrorView::Protocol("invalid custom tool manifest: "@ + e@)),
            Ok(Ok(manifest)) => if manifest.api_version@ != "opscodex.dev/v1"@ || manifest.kind@
                != "Tool"@ {
                Some(
                    ErrorView::Protocol(
                        "custom tool manifest must be apiVersion opscodex.dev/v1 kind Tool"@,
                    ),
                )
            } else {
                None
            },
        },
    }
}

/// Takes a manifest that was read from a path.
pub fn load_custom_manifest(
    path: &str,
    read: Result<Result<CustomToolManifest, String>, String>,
) -> (r: OpsResult<CustomToolManifest>)
    ensures
        match r {
            Ok(manifest) => manifest_error(path@, read) is None && read == Ok::<
                Result<CustomToolManifest, String>,
                String,
            >(Ok(manifest)),
            Err(e) => manifest_error(path@, read) == Some(e@),
        },
{
    match validate_path(path) {
        Ok(_) => {},
        Err(e) => return Err(e),
    }
    let decoded = match read {
        Ok(decoded) => decoded,
        Err(e) => {
            let mut message = "failed to read ".to_owned();
            message.append(path);
            message.append(": ");
            message.append(e.as_str());
            return Err(OpsCodexError::Storage(message));
        },
    };
    let manifest = match decoded {
        Ok(manifest) => manifest,
        Err(e) => {
            let mut message = "invalid custom tool manifest: ".to_owned();
            message.append(e.as_str());
            return Err(OpsCodexError::Protocol(message));
        },
    };
    if !same(manifest.api_version.as_str(), "opscodex.dev/v1") || !same(
        manifest.kind.as_str(),
        "Tool",
    ) {
        return Err(
            OpsCodexError::Protocol(
                "custom tool manifest must be apiVersion opscodex.dev/v1 kind Tool".to_owned(),
            ),
        );
    }
    Ok(manifest)
}

// ---------------------------------------------------------------------------
// The tool
// ---------------------------------------------------------------------------
#[derive(Debug)]
pub struct CustomJsonTool {
    pub capability: CapabilityDescriptor,
    pub command: String,
    pub args: Vec<String>,
    pub cwd: Option<String>,
    pub env: Vec<(String, String)>,
    pub supervisor: ChildSupervisor,
}

/// The recovery mode that a manifest names, if it names one.
pub open spec fn recovery_of(spec: CustomToolSpec) -> Result<Option<RecoveryMode>, ErrorView> {
    match spec.recovery {
        None => Ok(None),
        Some(text) => match mode_named(text@) {
            Ok(mode) => Ok(Some(mode)),
            Err(e) => Err(e),
        },
    }
}

/// A number that is given, or a default, but at least one.
pub open spec fn at_least_one(given: Option<u64>, default: u64) -> u64 {
    let n = match given {
        Some(n) => n,
        None => default,
    };
    if n == 0 {
        1
    } else {
        n
    }
}

pub open spec fn bytes_at_least_one(given: Option<usize>, default: usize) -> usize {
    let n = match given {
        Some(n) => n,
        None => default,
    };
    if n == 0 {
        1
    } else {
        n
    }
}

/// The descriptor is that of a tool with this manifest, whose program holds
/// `binary`.
pub open spec fn describes(
    d: CapabilityDescriptor,
    manifest: CustomToolManifest,
    effect: CapabilityEffect,
    recovery: Option<RecoveryMode>,
    trusted_local: bool,
    binary: Seq<u8>,
) -> bool {
    let name = manifest.metadata.name@;
    let version = manifest.metadata.version@;
    &&& d.id@ == id_text("custom"@, name, version)
    &&& d.source == CapabilitySource::Custom
    &&& d.name@ == "custom/"@ + name
    &&& d.description@ == "Custom tool "@ + name + "@"@ + version
        + ". Process-local JSON runner."@
    &&& d.input_schema == manifest.spec.input_schema
    &&& d.output_schema == manifest.spec.output_schema
    &&& d.effect == effect
    &&& d.target_requirements@.len() == 0
    &&& d.timeout_seconds == at_least_one(manifest.spec.timeout_seconds, DEFAULT_CUSTOM_TIMEOUT)
    &&& d.max_output_bytes == bytes_at_least_one(
        manifest.spec.max_output_bytes,
        DEFAULT_CUSTOM_BYTES,
    )
    &&& d.recovery == recovery
    &&& d.provenance.source == CapabilitySource::Custom
    &&& d.provenance.version@ == version
    &&& d.provenance.schema_hash@ == sha256_text(map_bytes(manifest.spec.input_schema@))
    &&& d.provenance.binary_hash matches Some(hash)
    &&& hash@ == sha256_text(binary)
    &&& d.provenance.origin matches Some(origin)
    &&& origin@ == manifest.spec.command@
    &&& d.content_sensitivity == Sensitivity::Internal
    &&& d.enabled
    &&& d.trusted_local == trusted_local
}

/// What is wrong with a tool that is to be enabled.
pub open spec fn tool_error(
    manifest: CustomToolManifest,
    exists: bool,
    trusted_local: bool,
    effect_override: Option<CapabilityEffect>,
    workspace_max: Option<CapabilityEffect>,
) -> Option<ErrorView> {
    let name = manifest.metadata.name@;
    let id = id_text("custom"@, name, manifest.metadata.version@);
    if command_error(manifest.spec.command@, exists) is Some {
        command_error(manifest.spec.command@, exists)
    } else {
        match effect_named(manifest.spec.effect@) {
            Err(e) => Some(e),
            Ok(declared) => match recovery_of(manifest.spec) {
                Err(e) => Some(e),
                Ok(recovery) => {
                    let ceiling = ceiling_error(
                        id,
                        declared.stricter(effect_override),
                        workspace_max,
                    );
                    let unfit = enablement(
                        id,
                        "custom/"@ + name,
                        CapabilitySource::Custom,
                        recovery,
                        false,
                    );
                    if ceiling is Some {
                        ceiling
                    } else if unfit is Some {
                        unfit
                    } else if !trusted_local {
                        Some(
                            ErrorView::Policy(
                                "custom tool `"@ + id + "` requires trusted_local"@,
                            ),
                        )
                    } else {
                        None
                    }
                },
            },
        }
    }
}

/// The variables of an environment that an allowlist names.
pub open spec fn allowed_env(env: Seq<(String, String)>, allowlist: Seq<Seq<char>>) -> Seq<
    (String, String),
>
    decreases env.len(),
{
    if env.len() == 0 {
        Seq::empty()
    } else if allowlist.contains(env.last().0@) {
        allowed_env(env.drop_last(), allowlist).push(env.last())
    } else {
        allowed_env(env.drop_last(), allowlist)
    }
}

fn is_listed(list: &Vec<String>, name: &str) -> (r: bool)
    ensures
        r == views(list@).contains(name@),
{
    let ghost seen = views(list@);
    let mut i: usize = 0;
    while i < list.len()
        invariant
            i <= list@.len(),
            seen == views(list@),
            forall|k: int| 0 <= k < i ==> #[trigger] seen[k] != name@,
        decreases list@.len() - i,
    {
        assert(seen[i as int] == list@[i as int]@);
        if same(list[i].as_str(), name) {
            return true;
        }
        i += 1;
    }
    false
}

fn filter_env(env: &Vec<(String, String)>, allowlist: &Vec<String>) -> (r: Vec<(String, String)>)
    ensures
        r@ == allowed_env(env@, views(allowlist@)),
{
    let mut r: Vec<(String, String)> = Vec::new();
    let mut i: usize = 0;
    assert(env@.take(0) =~= Seq::empty());
    while i < env.len()
        invariant
            i <= env@.len(),
            r@ == allowed_env(env@.take(i as int), views(allowlist@)),
        decreases env@.len() - i,
    {
        assert(env@.take(i + 1).drop_last() =~= env@.take(i as int));
        assert(env@.take(i + 1).last() == env@[i as int]);
        if is_listed(allowlist, env[i].0.as_str()) {
            r.push((env[i].0.clone(), env[i].1.clone()));
        }
        i += 1;
    }
    assert(env@.take(i as int) =~= env@);
    r
}

/// What kind of value a schema asks for.
pub open spec fn fits(value: JsonView, schema: JsonView) -> bool {
    let expected = schema.text_at("type"@);
    if expected == Some("object"@) {
        value is Object
    } else if expected == Some("array"@) {
        value is Array
    } else if expected == Some("string"@) {
        value is Text
    } else if expected == Some("number"@) || expected == Some("integer"@) {
        value is Number
    } else if expected == Some("boolean"@) {
        value is Bool
    } else if expected == Some("null"@) {
        value is Null
    } else {
        true
    }
}

pub fn validate_against_schema(value: &Json, schema: &Json) -> (r: OpsResult<()>)
    ensures
        match r {
            Ok(_) => fits(value@, schema@),
            Err(e) => !fits(value@, schema@) && e@ == ErrorView::Protocol(
                "custom tool output does not match outputSchema"@,
            ),
        },
{
    let fitting = match schema.str_at("type") {
        None => true,
        Some(expected) => if same(expected, "object") {
            matches!(value, Json::Object(_))
        } else if same(expected, "array") {
            matches!(value, Json::Array(_))
        } else if same(expected, "string") {
            matches!(value, Json::Text(_))
        } else if same(expected, "number") || same(expected, "integer") {
            matches!(value, Json::Number(_))
        } else if same(expected, "boolean") {
            matches!(value, Json::Bool(_))
        } else if same(expected, "null") {
            matches!(value, Json::Null)
        } else {
            true
        },
    };
    if fitting {
        Ok(())
    } else {
        Err(OpsCodexError::Protocol("custom tool output does not match outputSchema".to_owned()))
    }
}

/// What is written of a result.
pub open spec fn custom_entries(d: CapabilityDescriptor, result: JsonView, truncated: bool) -> Seq<
    (Seq<char>, JsonView),
> {
    seq![
        ("hash"@, JsonView::Text(d.provenance.schema_hash@)),
        ("result"@, result),
        ("source"@, JsonView::Text("custom"@)),
        ("tool"@, JsonView::Text(d.name@)),
        ("truncated"@, JsonView::Bool(truncated)),
        ("version"@, JsonView::Text(d.provenance.version@)),
    ]
}

/// The program wrote no document.
pub open spec fn invalid_output(error: Seq<char>) -> ErrorView {
    ErrorView::Protocol("custom tool returned invalid JSON: "@ + error)
}

impl CustomJsonTool {
    /// Makes the tool of a manifest. `exists` tells whether there is such a
    /// command, and `binary` is what the file holds.
    pub fn from_manifest(
        manifest: CustomToolManifest,
        trusted_local: bool,
        effect_override: Option<CapabilityEffect>,
        workspace_max: Option<CapabilityEffect>,
        env: Vec<(String, String)>,
        max_restarts: u32,
        exists: bool,
        binary: &[u8],
    ) -> (r: OpsResult<Self>)
        ensures
            match r {
                Ok(tool) => {
                    let declared = effect_named(manifest.spec.effect@);
                    let recovery = recovery_of(manifest.spec);
                    &&& tool_error(
                        manifest,
                        exists,
                        trusted_local,
                        effect_override,
                        workspace_max,
                    ) is None
                    &&& describes(
                        tool.capability,
                        manifest,
                        declared->Ok_0.stricter(effect_override),
                        recovery->Ok_0,
                        trusted_local,
                        binary@,
                    )
                    &&& tool.command@ == manifest.spec.command@
                    &&& tool.args == manifest.spec.args
                    &&& tool.cwd == manifest.spec.cwd
                    &&& tool.env@ == allowed_env(env@, views(manifest.spec.env_allowlist@))
                    &&& tool.supervisor.max_restarts == (if max_restarts < MAX_RESTARTS {
                        max_restarts
                    } else {
                        MAX_RESTARTS
                    })
                },
                Err(e) => tool_error(
                    manifest,
                    exists,
                    trusted_local,
                    effect_override,
                    workspace_max,
                ) == Some(e@),
            },
    {
        match validate_command(manifest.spec.command.as_str(), exists) {
            Ok(_) => {},
            Err(e) => return Err(e),
        }
        proof {
            lemma_effect_named(manifest.spec.effect@);
        }
        let effect = match CapabilityEffect::parse(manifest.spec.effect.as_str()) {
            Ok(effect) => effect,
            Err(e) => return Err(e),
        };
        let recovery = match &manifest.spec.recovery {
            None => None,
            Some(text) => match RecoveryMode::parse(text.as_str()) {
                Ok(mode) => Some(mode),
                Err(e) => return Err(e),
            },
        };
        let name = manifest.metadata.name.as_str();
        let version = manifest.metadata.version.as_str();
        let mut shown = "custom/".to_owned();
        shown.append(name);
        let mut description = "Custom tool ".to_owned();
        description.append(name);
        description.append("@");
        description.append(version);
        description.append(". Process-local JSON runner.");
        let timeout: u64 = match manifest.spec.timeout_seconds {
            Some(n) => n,
            None => DEFAULT_CUSTOM_TIMEOUT,
        };
        let bytes: usize = match manifest.spec.max_output_bytes {
            Some(n) => n,
            None => DEFAULT_CUSTOM_BYTES,
        };
        let schema_hash = hash_schema(&manifest.spec.input_schema);
        let kept_env = filter_env(&env, &manifest.spec.env_allowlist);
        let descriptor = CapabilityDescriptor {
            id: capability_id(CapabilitySource::Custom.as_str(), name, version),
            source: CapabilitySource::Custom,
            name: shown,
            description,
            input_schema: manifest.spec.input_schema,
            output_schema: manifest.spec.output_schema,
            effect,
            target_requirements: Vec::new(),
            timeout_seconds: if timeout == 0 {
                1
            } else {
                timeout
            },
            max_output_bytes: if bytes == 0 {
                1
            } else {
                bytes
            },
            recovery,
            provenance: Provenance {
                source: CapabilitySource::Custom,
                version: version.to_owned(),
                schema_hash,
                binary_hash: Some(hash_bytes(binary)),
                origin: Some(manifest.spec.command.clone()),
            },
            content_sensitivity: Sensitivity::Internal,
            enabled: true,
            trusted_local,
        };
        let descriptor = descriptor.apply_strictest(None, effect_override);
        proof {
            lemma_stricter_of_two(effect, effect_override);
            law_strictest_unique(
                descriptor.effect,
                effect.stricter(effect_override),
                CapabilityDescriptor::effects(effect, None, effect_override),
            );
            assert(describes(
                descriptor,
                manifest,
                effect.stricter(effect_override),
                recovery,
                trusted_local,
                binary@,
            ));
        }
        match enforce_workspace_ceiling(&descriptor, workspace_max) {
            Ok(_) => {},
            Err(e) => return Err(e),
        }
        match descriptor.validate_for_enablement() {
            Ok(_) => {},
            Err(e) => return Err(e),
        }
        if !trusted_local {
            let mut message = "custom tool `".to_owned();
            message.append(descriptor.id.as_str());
            message.append("` requires trusted_local");
            return Err(OpsCodexError::Policy(message));
        }
        Ok(
            CustomJsonTool {
                capability: descriptor,
                command: manifest.spec.command,
                args: manifest.spec.args,
                cwd: manifest.spec.cwd,
                env: kept_env,
                supervisor: ChildSupervisor::new(max_restarts),
            },
        )
    }

    pub fn risk(&self) -> (r: ToolRisk)
        ensures
            r == risk_of(self.capability.effect),
    {
        effect_risk(self.capability.effect)
    }

    /// Whether the program is still the one that was enabled.
    pub fn check_binary(&self, current: &[u8]) -> (r: OpsResult<()>)
        ensures
            match r {
                Ok(_) => self.capability.provenance.binary_hash matches Some(hash) && hash@
                    == sha256_text(current@),
                Err(e) => {
                    &&& !(self.capability.provenance.binary_hash matches Some(hash) && hash@
                        == sha256_text(current@))
                    &&& e@ == ErrorView::Policy(
                        "custom tool `"@ + self.capability.id@ + "` binary hash changed"@,
                    )
                },
            },
    {
        let hash = hash_bytes(current);
        let unchanged = match &self.capability.provenance.binary_hash {
            Some(known) => same(known.as_str(), hash.as_str()),
            None => false,
        };
        if unchanged {
            return Ok(());
        }
        let mut message = "custom tool `".to_owned();
        message.append(self.capability.id.as_str());
        message.append("` binary hash changed");
        Err(OpsCodexError::Policy(message))
    }

    /// The process that runs the tool.
    pub fn spawn_spec(&self) -> (r: SpawnSpec)
        ensures
            r.command == self.command,
            r.args@ == self.args@,
            r.cwd == self.cwd,
            r.env@ == self.env@,
            r.timeout == self.capability.timeout_seconds,
            r.max_output_bytes == self.capability.max_output_bytes,
    {
        let mut env: Vec<(String, String)> = Vec::new();
        let mut i: usize = 0;
        while i < self.env.len()
            invariant
                i <= self.env@.len(),
                env@ == self.env@.take(i as int),
            decreases self.env@.len() - i,
        {
            env.push((self.env[i].0.clone(), self.env[i].1.clone()));
            i += 1;
            assert(env@ =~= self.env@.take(i as int));
        }
        assert(env@ =~= self.env@);
        SpawnSpec {
            command: self.command.clone(),
            args: self.args.clone(),
            cwd: self.cwd.clone(),
            env,
            timeout: self.capability.timeout_seconds,
            max_output_bytes: self.capability.max_output_bytes,
        }
    }

    /// What is wrong with a document that the program wrote.
    pub open spec fn value_error(&self, value: JsonView) -> Option<ErrorView> {
        match self.capability.output_schema {
            Some(schema) => if fits(value, schema@) {
                None
            } else {
                Some(ErrorView::Protocol("custom tool output does not match outputSchema"@))
            },
            None => None,
        }
    }

    /// What is wrong with the output of the program; `parsed` is what was decoded
    /// from it.
    pub open spec fn output_error(&self, parsed: Result<Json, String>) -> Option<ErrorView> {
        match parsed {
            Err(e) => Some(invalid_output(e@)),
            Ok(value) => self.value_error(value@),
        }
    }

    /// What the tool returns of what its program wrote.
    pub fn output_of(&self, stdout: &[u8], truncated: bool, now: Timestamp) -> (r: OpsResult<
        ToolOutput,
    >)
        ensures
            match r {
                Ok(output) => {
                    &&& json_of_bytes(stdout@) matches Ok(value)
                    &&& self.value_error(value) is None
                    &&& output.content@ == JsonView::Object(
                        custom_entries(self.capability, value, truncated),
                    )
                    &&& is_reported(
                        output.evidence,
                        "custom"@,
                        self.capability.id@,
                        "custom tool "@ + self.capability.name@,
                        truncated,
                        now,
                    )
                },
                Err(e) => match json_of_bytes(stdout@) {
                    Ok(value) => self.value_error(value) == Some(e@),
                    Err(error) => e@ == invalid_output(error),
                },
            },
    {
        self.output(read_json_bytes(stdout), truncated, now)
    }

    /// What the tool returns of a document, or of what was wrong with the text of one.
    pub fn output(&self, parsed: Result<Json, String>, truncated: bool, now: Timestamp) -> (r:
        OpsResult<ToolOutput>)
        ensures
            match r {
                Ok(output) => {
                    &&& self.output_error(parsed) is None
                    &&& parsed matches Ok(value)
                    &&& output.content@ == JsonView::Object(
                        custom_entries(self.capability, value@, truncated),
                    )
                    &&& is_reported(
                        output.evidence,
                        "custom"@,
                        self.capability.id@,
                        "custom tool "@ + self.capability.name@,
                        truncated,
                        now,
                    )
                },
                Err(e) => self.output_error(parsed) == Some(e@),
            },
    {
        let value = match parsed {
            Ok(value) => value,
            Err(e) => {
                let mut message = "custom tool returned invalid JSON: ".to_owned();
                message.append(e.as_str());
                return Err(OpsCodexError::Protocol(message));
            },
        };
        if let Some(schema) = &self.capability.output_schema {
            match validate_against_schema(&value, schema) {
                Ok(_) => {},
                Err(e) => return Err(e),
            }
        }
        let ghost result = value@;
        let d = &self.capability;
        let mut entries: Vec<JsonEntry> = Vec::new();
        push_entry(&mut entries, "hash", Json::text(d.provenance.schema_hash.as_str()));
        push_entry(&mut entries, "result", value);
        push_entry(&mut entries, "source", Json::text("custom"));
        push_entry(&mut entries, "tool", Json::text(d.name.as_str()));
        push_entry(&mut entries, "truncated", Json::Bool(truncated));
        push_entry(&mut entries, "version", Json::text(d.provenance.version.as_str()));
        assert(entries_view(entries@) =~= custom_entries(*d, result, truncated));
        let mut summary = "custom tool ".to_owned();
        summary.append(d.name.as_str());
        let evidence = EvidenceMeta::new("custom".to_owned(), now).with_query(
            d.id.clone(),
        ).with_summary(summary).with_truncated(truncated);
        Ok(ToolOutput { content: Json::Object(entries), evidence })
    }
}

/// The evidence says where an output comes from, and nothing else.
pub open spec fn is_reported(
    r: EvidenceMeta,
    source: Seq<char>,
    query: Seq<char>,
    summary: Seq<char>,
    truncated: bool,
    now: Timestamp,
) -> bool {
    &&& r.source@ == source
    &&& string_view(r.query) == Some(query)
    &&& r.timestamp == now
    &&& r.duration_ms == 0
    &&& r.truncated == truncated
    &&& r.evidence_id is None
    &&& string_view(r.source_kind) == Some(source)
    &&& string_view(r.source_ref) == Some(source)
    &&& string_view(r.query_or_operation) == Some(query)
    &&& r.observed_at == Some(now)
    &&& r.time_range is None
    &&& r.summary@ == summary
    &&& r.artifact_ref is None
    &&& r.content_type@ == "application/json"@
    &&& r.byte_size == 0
    &&& r.sensitivity == Sensitivity::Internal
    &&& r.sha256@.len() == 0
}

/// How a tool with an effect is treated.
pub open spec fn risk_of(effect: CapabilityEffect) -> ToolRisk {
    if effect is Observe {
        ToolRisk::Safe
    } else {
        ToolRisk::Ask
    }
}

pub fn effect_risk(effect: CapabilityEffect) -> (r: ToolRisk)
    ensures
        r == risk_of(effect),
{
    match effect {
        CapabilityEffect::Observe => ToolRisk::Safe,
        _ => ToolRisk::Ask,
    }
}

/// An override from the configuration never makes a tool less strict than its
/// manifest says, and no tool goes beyond its workspace.
pub proof fn law_custom_tools_stay_below_the_ceiling(
    manifest: CustomToolManifest,
    exists: bool,
    trusted_local: bool,
    effect_override: Option<CapabilityEffect>,
    workspace_max: Option<CapabilityEffect>,
    binary: Seq<u8>,
    d: CapabilityDescriptor,
)
    requires
        tool_error(manifest, exists, trusted_local, effect_override, workspace_max) is None,
        describes(
            d,
            manifest,
            effect_named(manifest.spec.effect@)->Ok_0.stricter(effect_override),
            recovery_of(manifest.spec)->Ok_0,
            trusted_local,
            binary,
        ),
    ensures
        effect_named(manifest.spec.effect@) matches Ok(declared) && declared.strictness()
            <= d.effect.strictness(),
        effect_override matches Some(effect) ==> effect.strictness() <= d.effect.strictness(),
        workspace_max matches Some(max) ==> d.effect.strictness() <= max.strictness(),
        d.recovery is Some,
        d.trusted_local,
{
}

} // verus!
