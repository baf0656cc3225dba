//! Which configurations are accepted, what the doctor says of them, and what is used
//! where nothing is set.
use vstd::prelude::*;

use crate::config::{
    below, bind_name, extension_error, extensions_error, is_loopback_v6, loopback_host, program_home, workspace_error,
    workspaces_error, Config, ExtensionConfigEntry, WorkspaceConfigEntry,
};
use crate::error::OpsResult;
use crate::extensions::capability::CapabilityEffect;
use crate::ops::{all_checks, worst, StoreProbe};
use crate::text::{find_from, lemma_find_from, lower, split, trim};
use crate::url_text::url_of;

verus! {

proof fn lemma_workspaces(
    workspaces: Seq<WorkspaceConfigEntry>,
    names: Seq<OpsResult<()>>,
    n: int,
)
    requires
        0 <= n <= workspaces.len(),
        names.len() == workspaces.len(),
    ensures
        workspaces_error(workspaces, names, n) is None <==> forall|i: int|
            0 <= i < n ==> workspace_error(workspaces, names, i) is None,
    decreases n,
{
    if n > 0 {
        lemma_workspaces(workspaces, names, n - 1);
    }
}

proof fn lemma_workspace(workspaces: Seq<WorkspaceConfigEntry>, names: Seq<OpsResult<()>>, i: int)
    requires
        0 <= i < workspaces.len() == names.len(),
    ensures
        workspace_error(workspaces, names, i) is None <==> {
            &&& names[i] is Ok
            &&& forall|j: int|
                0 <= j < i ==> trim((#[trigger] workspaces[j]).id@) != trim(workspaces[i].id@)
            &&& workspaces[i].max_concurrent_turns != Some(0usize)
            &&& workspaces[i].max_effect matches Some(effect) ==> effect@ == "observe"@ || effect@
                == "change_reversible"@ || effect@ == "change_irreversible"@ || effect@
                == "external_side_effect"@
        },
{
    if let Some(effect) = workspaces[i].max_effect {
        assert(CapabilityEffect::Observe.name() == "observe"@);
        assert(CapabilityEffect::ChangeReversible.name() == "change_reversible"@);
        assert(CapabilityEffect::ChangeIrreversible.name() == "change_irreversible"@);
        assert(CapabilityEffect::ExternalSideEffect.name() == "external_side_effect"@);
    }
}

proof fn lemma_extensions(extensions: Seq<ExtensionConfigEntry>, n: int)
    requires
        0 <= n <= extensions.len(),
    ensures
        extensions_error(extensions, n) is None <==> forall|i: int|
            0 <= i < n ==> extension_error(extensions, i) is None,
    decreases n,
{
    if n > 0 {
        lemma_extensions(extensions, n - 1);
    }
}

/// Workspaces are accepted exactly where each has a name that is taken and no other
/// has, admits some turns, and names no effect but a known one.
pub proof fn law_workspaces_are_accepted(
    workspaces: Seq<WorkspaceConfigEntry>,
    names: Seq<OpsResult<()>>,
)
    requires
        names.len() == workspaces.len(),
    ensures
        workspaces_error(workspaces, names, workspaces.len() as int) is None <==> {
            &&& forall|i: int| 0 <= i < names.len() ==> #[trigger] names[i] is Ok
            &&& forall|i: int, j: int|
                0 <= j < i < workspaces.len() ==> trim((#[trigger] workspaces[j]).id@) != trim(
                    (#[trigger] workspaces[i]).id@,
                )
            &&& forall|i: int|
                0 <= i < workspaces.len() ==> (#[trigger] workspaces[i]).max_concurrent_turns
                    != Some(0usize)
            &&& forall|i: int|
                0 <= i < workspaces.len() ==> ((#[trigger] workspaces[i]).max_effect matches Some(
                    effect,
                ) ==> effect@ == "observe"@ || effect@ == "change_reversible"@ || effect@
                    == "change_irreversible"@ || effect@ == "external_side_effect"@)
        },
{
    let n = workspaces.len() as int;
    lemma_workspaces(workspaces, names, n);
    assert forall|i: int| 0 <= i < n implies (#[trigger] workspace_error(workspaces, names, i)
        is None <==> {
        &&& names[i] is Ok
        &&& forall|j: int|
            0 <= j < i ==> trim((#[trigger] workspaces[j]).id@) != trim(workspaces[i].id@)
        &&& workspaces[i].max_concurrent_turns != Some(0usize)
        &&& workspaces[i].max_effect matches Some(effect) ==> effect@ == "observe"@ || effect@
            == "change_reversible"@ || effect@ == "change_irreversible"@ || effect@
            == "external_side_effect"@
    }) by {
        lemma_workspace(workspaces, names, i);
    }
    if workspaces_error(workspaces, names, n) is None {
        assert forall|i: int| 0 <= i < names.len() implies #[trigger] names[i] is Ok by {
            assert(workspace_error(workspaces, names, i) is None);
        }
        assert forall|i: int, j: int| 0 <= j < i < n implies trim((#[trigger] workspaces[j]).id@)
            != trim((#[trigger] workspaces[i]).id@) by {
            assert(workspace_error(workspaces, names, i) is None);
        }
        assert forall|i: int| 0 <= i < n implies (#[trigger] workspaces[i]).max_concurrent_turns
            != Some(0usize) by {
            assert(workspace_error(workspaces, names, i) is None);
        }
        assert forall|i: int| 0 <= i < n implies ((#[trigger] workspaces[i]).max_effect matches Some(
            effect,
        ) ==> effect@ == "observe"@ || effect@ == "change_reversible"@ || effect@
            == "change_irreversible"@ || effect@ == "external_side_effect"@) by {
            assert(workspace_error(workspaces, names, i) is None);
        }
    }
}

/// Extensions are accepted exactly where each has a name that no other has and is of a
/// known kind.
pub proof fn law_extensions_are_accepted(extensions: Seq<ExtensionConfigEntry>)
    ensures
        extensions_error(extensions, extensions.len() as int) is None <==> {
            &&& forall|i: int|
                0 <= i < extensions.len() ==> trim((#[trigger] extensions[i]).id@).len() > 0
            &&& forall|i: int, j: int|
                0 <= j < i < extensions.len() ==> trim((#[trigger] extensions[j]).id@) != trim(
                    (#[trigger] extensions[i]).id@,
                )
            &&& forall|i: int|
                0 <= i < extensions.len() ==> (#[trigger] extensions[i]).kind@ == "custom"@
                    || extensions[i].kind@ == "mcp"@ || extensions[i].kind@ == "mcp_http"@
        },
{
    let n = extensions.len() as int;
    lemma_extensions(extensions, n);
    if extensions_error(extensions, n) is None {
        assert forall|i: int| 0 <= i < n implies trim((#[trigger] extensions[i]).id@).len() > 0
            && (extensions[i].kind@ == "custom"@ || extensions[i].kind@ == "mcp"@
            || extensions[i].kind@ == "mcp_http"@) by {
            assert(extension_error(extensions, i) is None);
        }
        assert forall|i: int, j: int| 0 <= j < i < n implies trim((#[trigger] extensions[j]).id@)
            != trim((#[trigger] extensions[i]).id@) by {
            assert(extension_error(extensions, i) is None);
        }
    }
}

/// A configuration is accepted exactly where no limit is zero, the model has a name and
/// a known effort, the fault of the demo and the server are on this machine, the store
/// is a known one, its workspaces and its extensions are in order, and commands are off
/// in production.
pub proof fn law_configurations_are_accepted(config: Config, names: Seq<OpsResult<()>>)
    ensures
        config.error(names) is None <==> {
            &&& config.runtime.max_steps > 0
            &&& config.runtime.max_concurrent_turns > 0
            &&& config.runtime.tool_timeout_seconds > 0
            &&& config.runtime.model_timeout_seconds > 0
            &&& config.runtime.max_output_bytes > 0
            &&& config.runtime.context_items > 0
            &&& config.runtime.context_max_tokens > 0
            &&& config.runtime.context_max_bytes > 0
            &&& config.runtime.context_max_evidence > 0
            &&& config.runtime.context_max_tool_calls > 0
            &&& config.runtime.inline_artifact_bytes > 0
            &&& trim(config.model.model@).len() > 0
            &&& config.model.reasoning_effort matches Some(effort) ==> effort@ == "none"@ || effort@
                == "minimal"@ || effort@ == "low"@ || effort@ == "medium"@ || effort@ == "high"@
                || effort@ == "xhigh"@
            &&& config.loki.max_range_seconds > 0
            &&& config.tempo.max_range_seconds > 0
            &&& config.loki.max_lines > 0
            &&& config.extensions.max_skill_context_bytes > 0
            &&& config.store.approval_ttl_seconds > 0
            &&& config.store.lease_ttl_seconds > 0
            &&& config.remediation.approval_ttl_seconds > 0
            &&& url_of(config.remediation.demo_fault_url@) matches Ok(url) && (url.host == Some(
                "127.0.0.1"@,
            ) || url.host == Some("localhost"@) || url.host == Some("::1"@))
            &&& loopback_host(config.server.host@)
            &&& config.store.backend@ == "sqlite"@ || config.store.backend@ == "jsonl"@
            &&& workspaces_error(config.workspaces@, names, config.workspaces@.len() as int) is None
            &&& extensions_error(config.extension@, config.extension@.len() as int) is None
            &&& !(config.extensions.production_safe && config.tools.allow_exec)
        },
        config.error(names) matches Some(e) ==> config.workspaces@.len() == 0 ==> e is Protocol,
{
    if config.workspaces@.len() == 0 {
        lemma_protocol(config.extension@, config.extension@.len() as int);
    }
}

proof fn lemma_protocol(extensions: Seq<ExtensionConfigEntry>, n: int)
    ensures
        extensions_error(extensions, n) matches Some(e) ==> e is Protocol,
    decreases n,
{
    if n > 0 {
        lemma_protocol(extensions, n - 1);
    }
}

/// Where nothing is set, nothing is changed and no command is run, the server is on
/// this machine, and every limit is in place.
pub proof fn law_defaults_are_careful(config: Config)
    requires
        config.is_default(),
    ensures
        !config.tools.allow_exec,
        !config.remediation.enabled,
        !config.remediation.kill_switch,
        !config.extensions.allow_custom_tools,
        !config.extensions.production_safe,
        config.server.host@ == "127.0.0.1"@,
        config.server.port == 3000,
        config.model.provider@ == "openai"@,
        config.model.reasoning_effort is None,
        config.store.backend@ == "sqlite"@,
        config.store.approval_ttl_seconds == 3600,
        config.store.lease_ttl_seconds == 30,
        config.remediation.approval_ttl_seconds == 1800,
        config.runtime.max_steps == 12,
        config.runtime.max_concurrent_turns == 4,
        config.runtime.tool_timeout_seconds == 30,
        config.runtime.model_timeout_seconds == 120,
        config.runtime.max_output_bytes == 65536,
        config.runtime.context_items == 100,
        config.runtime.context_max_tokens == 24_000,
        config.runtime.context_max_bytes == 96_000,
        config.runtime.context_max_evidence == 32,
        config.runtime.context_max_tool_calls == 24,
        config.runtime.inline_artifact_bytes == 8192,
        config.loki.max_range_seconds == 3600,
        config.loki.max_lines == 200,
        config.tempo.max_range_seconds == 3600,
        config.workspaces@.len() == 0,
        config.extension@.len() == 0,
        config.skills@.len() == 0,
{
}

/// The doctor finds nothing wrong exactly where the configuration is accepted, the
/// server binds this machine, the workspaces could be built, commands and changes are
/// off, and the store and the audit log were looked through. It reports an error where
/// one of these failed, and not for commands or changes alone.
pub proof fn law_the_doctor_reports_the_worst(
    config: &Config,
    names: Seq<OpsResult<()>>,
    workspaces: OpsResult<usize>,
    probe: StoreProbe,
)
    ensures
        worst(all_checks(config, names, workspaces, probe)) is Passed <==> {
            &&& config.error(names) is None
            &&& loopback_host(config.server.host@)
            &&& workspaces is Ok
            &&& !config.tools.allow_exec
            &&& !config.remediation.enabled
            &&& probe matches StoreProbe::Present { store, audit } && store is Ok && audit is Ok
        },
        worst(all_checks(config, names, workspaces, probe)) is Error <==> {
            ||| config.error(names) is Some
            ||| !loopback_host(config.server.host@)
            ||| workspaces is Err
            ||| config.extensions.production_safe && config.tools.allow_exec
            ||| probe matches StoreProbe::Present { store, audit } && (store is Err || audit is Err)
        },
{
    let checks = all_checks(config, names, workspaces, probe);
    assert(checks[0].name == "config"@);
    assert(checks[1].name == "bind"@);
    assert(checks[2].name == "workspaces"@);
    assert(checks[3].name == "exec"@);
    assert(checks[4].name == "remediation"@);
    assert(checks[5].name == "store"@);
    if probe is Present {
        assert(checks.len() == 7);
        assert(checks[6].name == "audit"@);
    } else {
        assert(checks.len() == 6);
    }
}

/// The program keeps its files where it is told, or below the home of the user.
pub proof fn law_files_are_kept_at_home(
    named: Option<Seq<char>>,
    home: Option<Seq<char>>,
    directory: Seq<char>,
    name: Seq<char>,
)
    ensures
        named matches Some(text) ==> program_home(named, home) == text,
        named is None ==> (home matches Some(text) ==> text.len() > 0 ==> text.last() != '/'
            ==> program_home(named, home) == text + "/"@ + ".opscodex"@),
        directory.len() > 0 && directory.last() != '/' ==> below(directory, name) == directory
            + "/"@ + name,
        directory.len() > 0 && directory.last() == '/' ==> below(directory, name) == directory
            + name,
{
}

proof fn lemma_first_part(s: Seq<char>, separator: char)
    ensures
        split(s, separator).len() >= 1,
        split(s, separator)[0].len() <= s.len(),
        split(s, separator)[0] == s.take(split(s, separator)[0].len() as int),
        split(s, separator).len() == 1 ==> split(s, separator)[0] == s,
        split(s, separator).len() > 1 ==> split(s, separator)[0].len() < s.len()
            && s[split(s, separator)[0].len() as int] == separator,
    decreases s.len(),
{
    if s.len() > 0 {
        let init = s.drop_last();
        lemma_first_part(init, separator);
        let before = split(init, separator);
        let after = split(s, separator);
        assert(init.push(s.last()) =~= s);
        let n = before[0].len() as int;
        if before.len() > 1 || s.last() == separator {
            assert(after[0] == before[0]);
            assert(s.take(n) =~= init.take(n));
        } else {
            assert(after[0] == before[0].push(s.last()));
            assert(s.take(s.len() as int) =~= s);
        }
    } else {
        assert(s =~= Seq::empty());
        assert(s.take(0) =~= s);
    }
}

/// A host is this machine where it is called localhost, whatever the case of its
/// letters. An address of four numbers is this machine only where the first of them is
/// 127, and any other name without a colon is not.
pub proof fn law_local_hosts_are_known(host: Seq<char>)
    ensures
        lower(bind_name(host)) == "localhost"@ ==> loopback_host(host),
        loopback_host(host) && lower(bind_name(host)) != "localhost"@ && !bind_name(host).contains(
            ':',
        ) ==> bind_name(host).len() > 4 && bind_name(host).take(3) == "127"@ && bind_name(host)[3]
            == '.' && split(bind_name(host), '.').len() == 4,
{
    let name = bind_name(host);
    if loopback_host(host) && lower(name) != "localhost"@ && !name.contains(':') {
        reveal_strlit("::");
        reveal_strlit("127");
        lemma_find_from(name, "::"@, 0);
        if let Some(at) = find_from(name, "::"@, 0) {
            assert(name.subrange(at, at + 2)[0] == "::"@[0]);
            assert(name[at] == ':');
        }
        assert(!is_loopback_v6(name)) by {
            if is_loopback_v6(name) {
                lemma_whole(name, ':');
            }
        }
        lemma_first_part(name, '.');
        let parts = split(name, '.');
        if name.len() == 4 {
            lemma_parts_fit(name, '.');
        }
    }
}

proof fn lemma_whole(s: Seq<char>, separator: char)
    requires
        !s.contains(separator),
    ensures
        split(s, separator).len() == 1,
    decreases s.len(),
{
    if s.len() > 0 {
        let init = s.drop_last();
        assert(s.contains(s[s.len() - 1]));
        if init.contains(separator) {
            let i = init.index_of(separator);
            assert(s[i] == separator);
        }
        lemma_whole(init, separator);
    }
}

proof fn lemma_parts_fit(s: Seq<char>, separator: char)
    ensures
        split(s, separator).len() <= s.len() - split(s, separator)[0].len() + 1,
    decreases s.len(),
{
    lemma_first_part(s, separator);
    if s.len() > 0 {
        lemma_first_part(s.drop_last(), separator);
        lemma_parts_fit(s.drop_last(), separator);
    }
}

} // verus!
