//! Capabilities: what a tool may do, where it comes from and how it is named.
use vstd::prelude::*;

use crate::digest::{sha256_hex, sha256_text};
use crate::error::{ErrorView, OpsCodexError, OpsResult};
use crate::evidence::Sensitivity;
use crate::json::Json;
use crate::json_map::map_bytes;
use crate::text::{
    chars_of, find_chars, find_from, has_char, matches_at, rfind, rfind_char, same, substring, trim,
    trim_str,
};
use crate::tools::{ToolRisk, MAX_OUTPUT_BYTES};

verus! {

pub const BUILTIN_NAMESPACE: &'static str = "builtin";

pub const BUILTIN_VERSION: &'static str = "1.0.0";

#[derive(Clone, Copy, Debug, PartialEq, Eq, Structural)]
pub enum CapabilitySource {
    Builtin,
    Mcp,
    Custom,
}

impl CapabilitySource {
    /// The name under which the capability source is written.
    pub open spec fn name(self) -> Seq<char> {
        match self {
            CapabilitySource::Builtin => "builtin"@,
            CapabilitySource::Mcp => "mcp"@,
            CapabilitySource::Custom => "custom"@,
        }
    }

    pub fn as_str(self) -> (r: &'static str)
        ensures
            r@ == self.name(),
    {
        match self {
            CapabilitySource::Builtin => "builtin",
            CapabilitySource::Mcp => "mcp",
            CapabilitySource::Custom => "custom",
        }
    }

    /// Reads the name of a capability source.
    pub fn parse(value: &str) -> (r: OpsResult<Self>)
        ensures
            match r {
                Ok(v) => v.name() == value@,
                Err(e) => {
                    &&& e@ == ErrorView::Protocol("unsupported capability source `"@ + value@ + "`"@)
                    &&& forall|v: CapabilitySource| #[trigger] v.name() != value@
                },
            },
    {
        if same(value, "builtin") {
            Ok(CapabilitySource::Builtin)
        } else if same(value, "mcp") {
            Ok(CapabilitySource::Mcp)
        } else if same(value, "custom") {
            Ok(CapabilitySource::Custom)
        } else {
            let mut message = "unsupported capability source `".to_owned();
            message.append(value);
            message.append("`");
            Err(OpsCodexError::Protocol(message))
        }
    }
}

/// A name belongs to one capability source alone.
pub proof fn law_source_names_distinct(a: CapabilitySource, b: CapabilitySource)
    requires
        a.name() == b.name(),
    ensures
        a == b,
{
    reveal_strlit("builtin");
    assert("builtin"@.len() == 7);
    reveal_strlit("mcp");
    assert("mcp"@.len() == 3);
    reveal_strlit("custom");
    assert("custom"@.len() == 6);
}

#[derive(Clone, Copy, Debug, PartialEq, Eq, Structural)]
pub enum CapabilityEffect {
    Observe,
    ChangeReversible,
    ChangeIrreversible,
    ExternalSideEffect,
}

impl CapabilityEffect {
    /// The name under which the capability effect is written.
    pub open spec fn name(self) -> Seq<char> {
        match self {
            CapabilityEffect::Observe => "observe"@,
            CapabilityEffect::ChangeReversible => "change_reversible"@,
            CapabilityEffect::ChangeIrreversible => "change_irreversible"@,
            CapabilityEffect::ExternalSideEffect => "external_side_effect"@,
        }
    }

    pub fn as_str(self) -> (r: &'static str)
        ensures
            r@ == self.name(),
    {
        match self {
            CapabilityEffect::Observe => "observe",
            CapabilityEffect::ChangeReversible => "change_reversible",
            CapabilityEffect::ChangeIrreversible => "change_irreversible",
            CapabilityEffect::ExternalSideEffect => "external_side_effect",
        }
    }

    /// Reads the name of a capability effect.
    pub fn parse(value: &str) -> (r: OpsResult<Self>)
        ensures
            match r {
                Ok(v) => v.name() == value@,
                Err(e) => {
                    &&& e@ == ErrorView::Protocol("unsupported capability effect `"@ + value@ + "`"@)
                    &&& forall|v: CapabilityEffect| #[trigger] v.name() != value@
                },
            },
    {
        if same(value, "observe") {
            Ok(CapabilityEffect::Observe)
        } else if same(value, "change_reversible") {
            Ok(CapabilityEffect::ChangeReversible)
        } else if same(value, "change_irreversible") {
            Ok(CapabilityEffect::ChangeIrreversible)
        } else if same(value, "external_side_effect") {
            Ok(CapabilityEffect::ExternalSideEffect)
        } else {
            let mut message = "unsupported capability effect `".to_owned();
            message.append(value);
            message.append("`");
            Err(OpsCodexError::Protocol(message))
        }
    }
}

/// A name belongs to one capability effect alone.
pub proof fn law_effect_names_distinct(a: CapabilityEffect, b: CapabilityEffect)
    requires
        a.name() == b.name(),
    ensures
        a == b,
{
    reveal_strlit("observe");
    assert("observe"@.len() == 7);
    reveal_strlit("change_reversible");
    assert("change_reversible"@.len() == 17);
    reveal_strlit("change_irreversible");
    assert("change_irreversible"@.len() == 19);
    reveal_strlit("external_side_effect");
    assert("external_side_effect"@.len() == 20);
}

/// The effect that a text names, or what is wrong with it.
pub open spec fn effect_named(value: Seq<char>) -> Result<CapabilityEffect, ErrorView> {
    if value == "observe"@ {
        Ok(CapabilityEffect::Observe)
    } else if value == "change_reversible"@ {
        Ok(CapabilityEffect::ChangeReversible)
    } else if value == "change_irreversible"@ {
        Ok(CapabilityEffect::ChangeIrreversible)
    } else if value == "external_side_effect"@ {
        Ok(CapabilityEffect::ExternalSideEffect)
    } else {
        Err(ErrorView::Protocol("unsupported capability effect `"@ + value + "`"@))
    }
}

/// What reading the name of an effect gives.
pub proof fn lemma_effect_named(value: Seq<char>)
    ensures
        match effect_named(value) {
            Ok(effect) => effect.name() == value && forall|other: CapabilityEffect| #[trigger]
                other.name() == value ==> other == effect,
            Err(_) => forall|other: CapabilityEffect| #[trigger] other.name() != value,
        },
{
    match effect_named(value) {
        Ok(effect) => {
            assert(effect.name() == value);
            assert forall|other: CapabilityEffect| #[trigger] other.name()
                == value implies other == effect by {
                law_effect_names_distinct(other, effect);
            }
        },
        Err(_) => {
            assert forall|other: CapabilityEffect| #[trigger] other.name() != value by {
                match other {
                    CapabilityEffect::Observe => {},
                    CapabilityEffect::ChangeReversible => {},
                    CapabilityEffect::ChangeIrreversible => {},
                    CapabilityEffect::ExternalSideEffect => {},
                }
            }
        },
    }
}

/// The recovery mode that a text names, or what is wrong with it.
pub open spec fn mode_named(value: Seq<char>) -> Result<RecoveryMode, ErrorView> {
    match RecoveryMode::named(value) {
        Some(mode) => Ok(mode),
        None => Err(ErrorView::Protocol("unsupported recovery mode `"@ + value + "`"@)),
    }
}

impl CapabilityEffect {
    /// The stricter of two effects.
    pub open spec fn stricter(self, other: Option<CapabilityEffect>) -> CapabilityEffect {
        match other {
            Some(effect) => if effect.strictness() > self.strictness() {
                effect
            } else {
                self
            },
            None => self,
        }
    }

    /// How strict the effect is; the order of the variants.
    pub open spec fn strictness(self) -> u8 {
        match self {
            CapabilityEffect::Observe => 0,
            CapabilityEffect::ChangeReversible => 1,
            CapabilityEffect::ChangeIrreversible => 2,
            CapabilityEffect::ExternalSideEffect => 3,
        }
    }

    pub fn rank(self) -> (r: u8)
        ensures
            r == self.strictness(),
    {
        match self {
            CapabilityEffect::Observe => 0,
            CapabilityEffect::ChangeReversible => 1,
            CapabilityEffect::ChangeIrreversible => 2,
            CapabilityEffect::ExternalSideEffect => 3,
        }
    }

    /// `r` is the strictest of `effects`; of none it is the strictest there is.
    pub open spec fn is_strictest(r: CapabilityEffect, effects: Seq<CapabilityEffect>) -> bool {
        if effects.len() == 0 {
            r == CapabilityEffect::ExternalSideEffect
        } else {
            &&& effects.contains(r)
            &&& forall|i: int|
                0 <= i < effects.len() ==> (#[trigger] effects[i]).strictness() <= r.strictness()
        }
    }

    pub fn strictest(effects: &Vec<CapabilityEffect>) -> (r: Self)
        ensures
            CapabilityEffect::is_strictest(r, effects@),
    {
        if effects.len() == 0 {
            return CapabilityEffect::ExternalSideEffect;
        }
        let mut best = effects[0];
        let mut i: usize = 1;
        while i < effects.len()
            invariant
                1 <= i <= effects@.len(),
                effects@.contains(best),
                forall|j: int|
                    0 <= j < i ==> (#[trigger] effects@[j]).strictness() <= best.strictness(),
            decreases effects@.len() - i,
        {
            if effects[i].rank() >= best.rank() {
                best = effects[i];
                assert(effects@[i as int] == best);
            }
            i += 1;
        }
        best
    }
}

/// At most one effect is the strictest of given ones.
pub proof fn law_strictest_unique(
    a: CapabilityEffect,
    b: CapabilityEffect,
    effects: Seq<CapabilityEffect>,
)
    requires
        CapabilityEffect::is_strictest(a, effects),
        CapabilityEffect::is_strictest(b, effects),
    ensures
        a == b,
{
    if effects.len() > 0 {
        let i = choose|i: int| 0 <= i < effects.len() && effects[i] == a;
        let j = choose|j: int| 0 <= j < effects.len() && effects[j] == b;
        assert(effects[i].strictness() <= b.strictness());
        assert(effects[j].strictness() <= a.strictness());
    }
}

#[derive(Clone, Copy, Debug, PartialEq, Eq, Structural)]
pub enum RecoveryMode {
    NoneNeeded,
    Idempotent,
    NeedsReconciliation,
}

impl RecoveryMode {
    /// The recovery mode that `value` names.
    pub open spec fn named(value: Seq<char>) -> Option<RecoveryMode> {
        if value == "none_needed"@ || value == "none"@ {
            Some(RecoveryMode::NoneNeeded)
        } else if value == "idempotent"@ {
            Some(RecoveryMode::Idempotent)
        } else if value == "needs_reconciliation"@ {
            Some(RecoveryMode::NeedsReconciliation)
        } else {
            None
        }
    }

    pub fn parse(value: &str) -> (r: OpsResult<Self>)
        ensures
            match r {
                Ok(v) => RecoveryMode::named(value@) == Some(v),
                Err(e) => RecoveryMode::named(value@) is None && e@ == ErrorView::Protocol(
                    "unsupported recovery mode `"@ + value@ + "`"@,
                ),
            },
    {
        if same(value, "none_needed") || same(value, "none") {
            Ok(RecoveryMode::NoneNeeded)
        } else if same(value, "idempotent") {
            Ok(RecoveryMode::Idempotent)
        } else if same(value, "needs_reconciliation") {
            Ok(RecoveryMode::NeedsReconciliation)
        } else {
            let mut message = "unsupported recovery mode `".to_owned();
            message.append(value);
            message.append("`");
            Err(OpsCodexError::Protocol(message))
        }
    }
}

#[derive(Debug)]
pub struct Provenance {
    pub source: CapabilitySource,
    pub version: String,
    pub schema_hash: String,
    pub binary_hash: Option<String>,
    pub origin: Option<String>,
}

#[derive(Debug)]
pub struct CapabilityDescriptor {
    pub id: String,
    pub source: CapabilitySource,
    pub name: String,
    pub description: String,
    pub input_schema: Json,
    pub output_schema: Option<Json>,
    pub effect: CapabilityEffect,
    pub target_requirements: Vec<String>,
    pub timeout_seconds: u64,
    pub max_output_bytes: usize,
    pub recovery: Option<RecoveryMode>,
    pub provenance: Provenance,
    pub content_sensitivity: Sensitivity,
    pub enabled: bool,
    pub trusted_local: bool,
}

#[derive(Debug)]
pub struct CapabilitySummary {
    pub id: String,
    pub name: String,
    pub source: CapabilitySource,
    pub version: String,
    pub effect: CapabilityEffect,
    pub schema_hash: String,
    pub enabled: bool,
    pub trusted_local: bool,
}

/// What is wrong with a capability, if anything; `no_budget` tells whether one of
/// its budgets is zero.
pub open spec fn enablement(
    id: Seq<char>,
    name: Seq<char>,
    source: CapabilitySource,
    recovery: Option<RecoveryMode>,
    no_budget: bool,
) -> Option<ErrorView> {
    if id_error(id) is Some {
        id_error(id)
    } else if trim(name).len() == 0 {
        Some(ErrorView::Protocol("capability name cannot be empty"@))
    } else if source != CapabilitySource::Builtin && recovery is None {
        Some(ErrorView::Policy("capability `"@ + id + "` is missing recovery metadata"@))
    } else if no_budget {
        Some(ErrorView::Protocol("capability `"@ + id + "` budgets must be greater than zero"@))
    } else {
        None
    }
}

impl CapabilityDescriptor {
    /// A tool that is compiled in. Whatever is not safe counts as a side effect.
    pub fn builtin(name: String, description: String, input_schema: Json, risk: ToolRisk) -> (r: Self)
        ensures
            r.id@ == id_text("builtin"@, name@, "1.0.0"@),
            r.source == CapabilitySource::Builtin,
            r.name == name,
            r.description == description,
            r.input_schema == input_schema,
            r.output_schema is None,
            r.effect == (if risk == ToolRisk::Safe {
                CapabilityEffect::Observe
            } else {
                CapabilityEffect::ExternalSideEffect
            }),
            r.target_requirements@.len() == 0,
            r.timeout_seconds == 30,
            r.max_output_bytes == MAX_OUTPUT_BYTES,
            r.recovery == Some(RecoveryMode::NoneNeeded),
            r.provenance.source == CapabilitySource::Builtin,
            r.provenance.version@ == "1.0.0"@,
            r.provenance.schema_hash@ == sha256_text(map_bytes(input_schema@)),
            r.provenance.binary_hash is None,
            r.provenance.origin matches Some(origin) && origin@ == "compiled"@,
            r.content_sensitivity == Sensitivity::Internal,
            r.enabled,
            !r.trusted_local,
    {
        let effect = match risk {
            ToolRisk::Safe => CapabilityEffect::Observe,
            ToolRisk::Ask | ToolRisk::Forbidden => CapabilityEffect::ExternalSideEffect,
        };
        let schema_hash = hash_schema(&input_schema);
        let id = capability_id(BUILTIN_NAMESPACE, name.as_str(), BUILTIN_VERSION);
        CapabilityDescriptor {
            source: CapabilitySource::Builtin,
            provenance: Provenance {
                source: CapabilitySource::Builtin,
                version: BUILTIN_VERSION.to_owned(),
                schema_hash,
                binary_hash: None,
                origin: Some("compiled".to_owned()),
            },
            id,
            name,
            description,
            input_schema,
            output_schema: None,
            effect,
            target_requirements: Vec::new(),
            timeout_seconds: 30,
            max_output_bytes: MAX_OUTPUT_BYTES,
            recovery: Some(RecoveryMode::NoneNeeded),
            content_sensitivity: Sensitivity::Internal,
            enabled: true,
            trusted_local: false,
        }
    }

    pub fn with_effect(self, effect: CapabilityEffect) -> (r: Self)
        ensures
            r == (CapabilityDescriptor { effect, ..self }),
    {
        let mut r = self;
        r.effect = effect;
        r
    }

    pub fn with_trusted_local(self, trusted_local: bool) -> (r: Self)
        ensures
            r == (CapabilityDescriptor { trusted_local, ..self }),
    {
        let mut r = self;
        r.trusted_local = trusted_local;
        r
    }

    /// The effects that bear on a capability: its own, then the workspace's and
    /// the local one where they are set.
    pub open spec fn effects(
        own: CapabilityEffect,
        workspace: Option<CapabilityEffect>,
        local: Option<CapabilityEffect>,
    ) -> Seq<CapabilityEffect> {
        let base = seq![own];
        let with_workspace = match workspace {
            Some(effect) => base.push(effect),
            None => base,
        };
        match local {
            Some(effect) => with_workspace.push(effect),
            None => with_workspace,
        }
    }

    /// Raises the effect to the strictest of those that bear on it.
    pub fn apply_strictest(
        self,
        workspace: Option<CapabilityEffect>,
        local: Option<CapabilityEffect>,
    ) -> (r: Self)
        ensures
            CapabilityEffect::is_strictest(
                r.effect,
                CapabilityDescriptor::effects(self.effect, workspace, local),
            ),
            r == (CapabilityDescriptor { effect: r.effect, ..self }),
    {
        let mut effects: Vec<CapabilityEffect> = Vec::new();
        effects.push(self.effect);
        if let Some(effect) = workspace {
            effects.push(effect);
        }
        if let Some(effect) = local {
            effects.push(effect);
        }
        assert(effects@ =~= CapabilityDescriptor::effects(self.effect, workspace, local));
        let mut r = self;
        r.effect = CapabilityEffect::strictest(&effects);
        r
    }

    pub fn requires_recovery_metadata(&self) -> (r: bool)
        ensures
            r == (self.source != CapabilitySource::Builtin),
    {
        self.source != CapabilitySource::Builtin
    }

    /// What is wrong with the descriptor, if anything.
    pub open spec fn enablement_error(&self) -> Option<ErrorView> {
        enablement(
            self.id@,
            self.name@,
            self.source,
            self.recovery,
            self.timeout_seconds == 0 || self.max_output_bytes == 0,
        )
    }

    pub fn validate_for_enablement(&self) -> (r: OpsResult<()>)
        ensures
            match r {
                Ok(_) => self.enablement_error() is None,
                Err(e) => self.enablement_error() == Some(e@),
            },
    {
        match parse_capability_id(self.id.as_str()) {
            Ok(_) => {},
            Err(error) => {
                return Err(error);
            },
        }
        if trim_str(self.name.as_str()).as_str().is_empty() {
            return Err(OpsCodexError::Protocol("capability name cannot be empty".to_owned()));
        }
        if self.requires_recovery_metadata() && self.recovery.is_none() {
            let mut message = "capability `".to_owned();
            message.append(self.id.as_str());
            message.append("` is missing recovery metadata");
            return Err(OpsCodexError::Policy(message));
        }
        if self.timeout_seconds == 0 || self.max_output_bytes == 0 {
            let mut message = "capability `".to_owned();
            message.append(self.id.as_str());
            message.append("` budgets must be greater than zero");
            return Err(OpsCodexError::Protocol(message));
        }
        Ok(())
    }

    pub fn summary(&self) -> (r: CapabilitySummary)
        ensures
            r.id == self.id,
            r.name == self.name,
            r.source == self.source,
            r.version == self.provenance.version,
            r.effect == self.effect,
            r.schema_hash == self.provenance.schema_hash,
            r.enabled == self.enabled,
            r.trusted_local == self.trusted_local,
    {
        CapabilitySummary {
            id: self.id.clone(),
            name: self.name.clone(),
            source: self.source,
            version: self.provenance.version.clone(),
            effect: self.effect,
            schema_hash: self.provenance.schema_hash.clone(),
            enabled: self.enabled,
            trusted_local: self.trusted_local,
        }
    }
}

/// Of one's own effect and a local one the stricter holds.
pub proof fn lemma_stricter_of_two(own: CapabilityEffect, local: Option<CapabilityEffect>)
    ensures
        CapabilityEffect::is_strictest(
            own.stricter(local),
            CapabilityDescriptor::effects(own, None, local),
        ),
{
    let effects = CapabilityDescriptor::effects(own, None, local);
    assert(effects[0] == own);
    if let Some(effect) = local {
        assert(effects[1] == effect);
    }
    assert(effects.contains(own.stricter(local)));
}

/// Where a capability is enabled with the strictest of several effects, none
/// of them is stricter.
pub proof fn law_strictest_never_weaker(
    own: CapabilityEffect,
    workspace: Option<CapabilityEffect>,
    local: Option<CapabilityEffect>,
    r: CapabilityEffect,
)
    requires
        CapabilityEffect::is_strictest(r, CapabilityDescriptor::effects(own, workspace, local)),
    ensures
        own.strictness() <= r.strictness(),
        workspace matches Some(effect) ==> effect.strictness() <= r.strictness(),
        local matches Some(effect) ==> effect.strictness() <= r.strictness(),
{
    let effects = CapabilityDescriptor::effects(own, workspace, local);
    assert(effects[0] == own);
    if let Some(effect) = workspace {
        assert(effects[1] == effect);
    }
    if let Some(effect) = local {
        assert(effects[effects.len() - 1] == effect);
    }
}

// ---------------------------------------------------------------------------
// Identifiers of capabilities
// ---------------------------------------------------------------------------
/// `namespace/name@version`.
pub open spec fn id_text(namespace: Seq<char>, name: Seq<char>, version: Seq<char>) -> Seq<char> {
    namespace + "/"@ + name + "@"@ + version
}

pub fn capability_id(namespace: &str, name: &str, version: &str) -> (r: String)
    ensures
        r@ == id_text(namespace@, name@, version@),
{
    let mut r = namespace.to_owned();
    r.append("/");
    r.append(name);
    r.append("@");
    r.append(version);
    r
}

/// The namespace, name and version of an identifier: the version follows the
/// last `@`, the name the first `/` before it.
pub open spec fn id_parts(id: Seq<char>) -> Option<(Seq<char>, Seq<char>, Seq<char>)> {
    match rfind_char(id, '@') {
        None => None,
        Some(at) => {
            let qualified = id.take(at);
            match find_from(qualified, seq!['/'], 0) {
                None => None,
                Some(slash) => Some(
                    (qualified.take(slash), qualified.skip(slash + 1), id.skip(at + 1)),
                ),
            }
        },
    }
}

/// What is wrong with an identifier, if anything.
pub open spec fn id_error(id: Seq<char>) -> Option<ErrorView> {
    let malformed = ErrorView::Protocol(
        "capability id `"@ + id + "` must be namespace/name@version"@,
    );
    match id_parts(id) {
        None => Some(malformed),
        Some((namespace, name, version)) => if trim(namespace).len() == 0 || trim(name).len() == 0
            || trim(version).len() == 0 {
            Some(malformed)
        } else if namespace == "builtin"@ && name.contains('/') {
            Some(
                ErrorView::Protocol(
                    "builtin capability names cannot contain additional namespaces"@,
                ),
            )
        } else {
            None
        },
    }
}

fn malformed_id(id: &str) -> (r: OpsCodexError)
    ensures
        r@ == ErrorView::Protocol("capability id `"@ + id@ + "` must be namespace/name@version"@),
{
    let mut message = "capability id `".to_owned();
    message.append(id);
    message.append("` must be namespace/name@version");
    OpsCodexError::Protocol(message)
}

pub fn parse_capability_id(id: &str) -> (r: OpsResult<(String, String, String)>)
    ensures
        match r {
            Ok(parts) => id_error(id@) is None && id_parts(id@) == Some(
                (parts.0@, parts.1@, parts.2@),
            ),
            Err(e) => id_error(id@) == Some(e@),
        },
{
    let chars = chars_of(id);
    let at = match rfind(&chars, '@') {
        Some(at) => at,
        None => {
            return Err(malformed_id(id));
        },
    };
    proof {
        lemma_rfind_char(id@, '@');
    }
    let end: usize = chars.len();
    let version = substring(&chars, at + 1, end);
    assert(version@ =~= id@.skip(at + 1));
    let qualified = chars_of(substring(&chars, 0, at).as_str());
    assert(qualified@ =~= id@.take(at as int));
    let mut separator: Vec<char> = Vec::new();
    separator.push('/');
    assert(separator@ =~= seq!['/']);
    let slash = match find_chars(&qualified, &separator, 0) {
        Some(slash) => slash,
        None => {
            return Err(malformed_id(id));
        },
    };
    proof {
        crate::text::lemma_find_from(qualified@, seq!['/'], 0);
    }
    let namespace = substring(&qualified, 0, slash);
    let name = substring(&qualified, slash + 1, qualified.len());
    assert(namespace@ =~= qualified@.take(slash as int));
    assert(name@ =~= qualified@.skip(slash + 1));
    if trim_str(namespace.as_str()).as_str().is_empty() || trim_str(name.as_str()).as_str().is_empty()
        || trim_str(version.as_str()).as_str().is_empty() {
        return Err(malformed_id(id));
    }
    if same(namespace.as_str(), BUILTIN_NAMESPACE) && has_char(name.as_str(), '/') {
        return Err(
            OpsCodexError::Protocol(
                "builtin capability names cannot contain additional namespaces".to_owned(),
            ),
        );
    }
    Ok((namespace, name, version))
}

proof fn lemma_rfind_char(s: Seq<char>, c: char)
    ensures
        match rfind_char(s, c) {
            Some(at) => {
                &&& 0 <= at < s.len()
                &&& s[at] == c
                &&& forall|i: int| at < i < s.len() ==> s[i] != c
            },
            None => forall|i: int| 0 <= i < s.len() ==> s[i] != c,
        },
    decreases s.len(),
{
    if s.len() > 0 && s.last() != c {
        lemma_rfind_char(s.drop_last(), c);
        assert forall|i: int| 0 <= i < s.len() - 1 implies s.drop_last()[i] == s[i] by {}
    }
}

/// Putting the parts of a well-formed identifier together gives the identifier
/// back.
pub proof fn law_parts_make_the_id(id: Seq<char>)
    requires
        id_error(id) is None,
    ensures
        id_parts(id) matches Some((namespace, name, version)) && id_text(namespace, name, version)
            == id,
{
    lemma_rfind_char(id, '@');
    let at = rfind_char(id, '@')->0;
    let qualified = id.take(at);
    crate::text::lemma_find_from(qualified, seq!['/'], 0);
    let slash = find_from(qualified, seq!['/'], 0)->0;
    assert(matches_at(qualified, seq!['/'], slash));
    assert(qualified.subrange(slash, slash + 1)[0] == '/');
    reveal_strlit("/");
    reveal_strlit("@");
    assert(id_text(qualified.take(slash), qualified.skip(slash + 1), id.skip(at + 1)) =~= id);
}

/// The identifier made of a namespace, a name and a version is read back as
/// them. The namespace holds no `/`, the version no `@`.
pub proof fn law_id_gives_its_parts(namespace: Seq<char>, name: Seq<char>, version: Seq<char>)
    requires
        !namespace.contains('/'),
        !version.contains('@'),
    ensures
        id_parts(id_text(namespace, name, version)) == Some((namespace, name, version)),
{
    reveal_strlit("/");
    reveal_strlit("@");
    let id = id_text(namespace, name, version);
    let n = namespace.len() as int;
    let at = n + 1 + name.len() as int;
    assert(id[at] == '@');
    assert forall|i: int| at < i < id.len() implies id[i] != '@' by {
        assert(id[i] == version[i - at - 1]);
    }
    lemma_rfind_char(id, '@');
    assert(rfind_char(id, '@') == Some(at));
    let qualified = id.take(at);
    assert(qualified =~= namespace + seq!['/'] + name);
    crate::text::lemma_find_from(qualified, seq!['/'], 0);
    assert(qualified.subrange(n, n + 1) =~= seq!['/']);
    assert(matches_at(qualified, seq!['/'], n));
    assert forall|i: int| 0 <= i < n implies !matches_at(qualified, seq!['/'], i) by {
        assert(qualified[i] == namespace[i]);
        assert(qualified.subrange(i, i + 1)[0] == namespace[i]);
    }
    assert(find_from(qualified, seq!['/'], 0) == Some(n));
    assert(qualified.take(n) =~= namespace);
    assert(qualified.skip(n + 1) =~= name);
    assert(id.skip(at + 1) =~= version);
}

pub fn hash_schema(schema: &Json) -> (r: String)
    ensures
        r@ == sha256_text(map_bytes(schema@)),
        r@.len() == 64,
{
    hash_bytes(schema.to_map_bytes().as_slice())
}

pub fn hash_bytes(bytes: &[u8]) -> (r: String)
    ensures
        r@ == sha256_text(bytes@),
        r@.len() == 64,
{
    sha256_hex(bytes)
}

} // verus!
