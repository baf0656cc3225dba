//! What is looked at before the program runs, and what it finds.
use vstd::prelude::*;

use crate::action::{chain_error, chained, verify_audit_chain, AuditRecord};
use crate::config::{
    below, bind_name, is_loopback_bind_host, join_path, loopback_host, Config,
};
use crate::error::{fails, ErrorView, OpsCodexError, OpsResult};
use crate::text::{decimal, decimal_of, join, join_strings, same, views};

verus! {

#[derive(Clone, Copy, Debug, PartialEq, Eq, Structural)]
pub enum CheckStatus {
    Passed,
    Degraded,
    Error,
}

impl CheckStatus {
    /// The name under which the status is written.
    pub open spec fn name(self) -> Seq<char> {
        match self {
            CheckStatus::Passed => "ok"@,
            CheckStatus::Degraded => "degraded"@,
            CheckStatus::Error => "error"@,
        }
    }

    pub fn as_str(self) -> (r: &'static str)
        ensures
            r@ == self.name(),
    {
        match self {
            CheckStatus::Passed => "ok",
            CheckStatus::Degraded => "degraded",
            CheckStatus::Error => "error",
        }
    }
}

#[derive(Debug)]
pub struct Check {
    pub name: String,
    pub status: CheckStatus,
    pub detail: String,
}

/// What a check says.
pub struct CheckView {
    pub name: Seq<char>,
    pub status: CheckStatus,
    pub detail: Seq<char>,
}

impl Check {
    pub open spec fn view(&self) -> CheckView {
        CheckView { name: self.name@, status: self.status, detail: self.detail@ }
    }
}

pub open spec fn check_views(checks: Seq<Check>) -> Seq<CheckView> {
    checks.map_values(|check: Check| check@)
}

#[derive(Debug)]
pub struct DoctorReport {
    pub status: CheckStatus,
    pub checks: Vec<Check>,
}

impl DoctorReport {
    pub fn is_ok(&self) -> (r: bool)
        ensures
            r == !(self.status is Error),
    {
        !matches!(self.status, CheckStatus::Error)
    }
}

/// The program would listen to other machines.
pub open spec fn not_loopback() -> ErrorView {
    ErrorView::Protocol(
        "without TLS, OpsCodex can only bind loopback (127.0.0.1, localhost, or ::1)"@,
    )
}

pub fn deny_non_loopback_bind(host: &str) -> (r: OpsResult<()>)
    ensures
        r is Ok <==> loopback_host(host@),
        r is Err ==> fails(r, not_loopback()),
{
    if is_loopback_bind_host(host) {
        Ok(())
    } else {
        Err(
            OpsCodexError::Protocol(
                "without TLS, OpsCodex can only bind loopback (127.0.0.1, localhost, or ::1)".to_owned(),
            ),
        )
    }
}

pub fn validate_config(config: &Config, names: &Vec<OpsResult<()>>) -> (r: OpsResult<()>)
    requires
        names@.len() == config.workspaces@.len(),
    ensures
        match r {
            Ok(_) => config.error(names@) is None,
            Err(e) => config.error(names@) == Some(e@),
        },
{
    match config.validate(names) {
        Ok(_) => {},
        Err(error) => return Err(error),
    }
    deny_non_loopback_bind(config.server.host.as_str())
}

/// The two forms in which an address to listen on is tried: the second has the
/// host in brackets.
pub fn listen_texts(host: &str, port: u16) -> (r: OpsResult<(String, String)>)
    ensures
        match r {
            Ok(texts) => {
                &&& loopback_host(host@)
                &&& texts.0@ == bind_name(host@) + ":"@ + decimal(port as nat)
                &&& texts.1@ == "["@ + bind_name(host@) + "]:"@ + decimal(port as nat)
            },
            Err(e) => !loopback_host(host@) && e@ == not_loopback(),
        },
{
    match deny_non_loopback_bind(host) {
        Ok(_) => {},
        Err(error) => return Err(error),
    }
    let name = crate::config::bind_name_of(host);
    let number = decimal_of(port as u64);
    let mut dotted = name.clone();
    dotted.append(":");
    dotted.append(number.as_str());
    let mut bracketed = "[".to_owned();
    bracketed.append(name.as_str());
    bracketed.append("]:");
    bracketed.append(number.as_str());
    Ok((dotted, bracketed))
}

// ---------------------------------------------------------------------------
// The doctor
// ---------------------------------------------------------------------------
/// What was found where the database is to be.
#[derive(Debug)]
pub enum StoreProbe {
    /// There is no database yet; it will be at this place.
    Absent { path: String },
    /// What came of looking through the database, and through the audit log.
    Present { store: OpsResult<String>, audit: OpsResult<String> },
}

pub open spec fn passed(name: Seq<char>, detail: Seq<char>) -> CheckView {
    CheckView { name, status: CheckStatus::Passed, detail }
}

pub open spec fn worse(name: Seq<char>, detail: Seq<char>) -> CheckView {
    CheckView { name, status: CheckStatus::Degraded, detail }
}

pub open spec fn failed(name: Seq<char>, detail: Seq<char>) -> CheckView {
    CheckView { name, status: CheckStatus::Error, detail }
}

/// The check of something that told its result.
pub open spec fn told(name: Seq<char>, result: OpsResult<String>) -> CheckView {
    match result {
        Ok(detail) => passed(name, detail@),
        Err(error) => failed(name, error@.text()),
    }
}

pub open spec fn config_check(config: &Config, names: Seq<OpsResult<()>>) -> CheckView {
    match config.error(names) {
        None => passed("config"@, "configuration is valid"@),
        Some(error) => failed("config"@, error.text()),
    }
}

pub open spec fn bind_check(host: Seq<char>) -> CheckView {
    if loopback_host(host) {
        passed("bind"@, "server binds loopback "@ + host)
    } else {
        failed(
            "bind"@,
            "server.host `"@ + host
                + "` is not loopback; TLS is required for non-loopback binds"@,
        )
    }
}

pub open spec fn workspaces_check(workspaces: OpsResult<usize>) -> CheckView {
    match workspaces {
        Ok(count) => passed(
            "workspaces"@,
            decimal(count as nat) + " workspace(s) configured"@,
        ),
        Err(error) => failed("workspaces"@, error@.text()),
    }
}

pub open spec fn exec_check(production_safe: bool, allow_exec: bool) -> CheckView {
    if production_safe && allow_exec {
        failed("exec"@, "production_safe profile cannot enable exec"@)
    } else if allow_exec {
        worse(
            "exec"@,
            "exec is enabled; it remains approval-gated and is not remediation"@,
        )
    } else {
        passed("exec"@, "exec is disabled"@)
    }
}

pub open spec fn remediation_check(enabled: bool) -> CheckView {
    if enabled {
        worse(
            "remediation"@,
            "remediation is enabled; change operations still require exact request-hash approval"@,
        )
    } else {
        passed("remediation"@, "remediation is disabled"@)
    }
}

pub open spec fn store_checks(probe: StoreProbe) -> Seq<CheckView> {
    match probe {
        StoreProbe::Absent { path } => seq![
            worse(
                "store"@,
                "sqlite file "@ + path@
                    + " is not present yet; it will be created on first run"@,
            ),
        ],
        StoreProbe::Present { store, audit } => seq![told("store"@, store), told("audit"@, audit)],
    }
}

/// All checks.
pub open spec fn all_checks(
    config: &Config,
    names: Seq<OpsResult<()>>,
    workspaces: OpsResult<usize>,
    probe: StoreProbe,
) -> Seq<CheckView> {
    seq![
        config_check(config, names),
        bind_check(config.server.host@),
        workspaces_check(workspaces),
        exec_check(config.extensions.production_safe, config.tools.allow_exec),
        remediation_check(config.remediation.enabled),
    ] + store_checks(probe)
}

/// The worst of the checks.
pub open spec fn worst(checks: Seq<CheckView>) -> CheckStatus {
    if exists|i: int| 0 <= i < checks.len() && (#[trigger] checks[i]).status is Error {
        CheckStatus::Error
    } else if exists|i: int| 0 <= i < checks.len() && (#[trigger] checks[i]).status is Degraded {
        CheckStatus::Degraded
    } else {
        CheckStatus::Passed
    }
}

fn check(name: &str, status: CheckStatus, detail: &str) -> (r: Check)
    ensures
        r@ == (CheckView { name: name@, status, detail: detail@ }),
{
    Check { name: name.to_owned(), status, detail: detail.to_owned() }
}

fn told_check(name: &str, result: OpsResult<String>) -> (r: Check)
    ensures
        r@ == told(name@, result),
{
    match result {
        Ok(detail) => check(name, CheckStatus::Passed, detail.as_str()),
        Err(error) => check(name, CheckStatus::Error, error.to_string().as_str()),
    }
}

fn check_bind(host: &str) -> (r: Check)
    ensures
        r@ == bind_check(host@),
{
    if is_loopback_bind_host(host) {
        let mut detail = "server binds loopback ".to_owned();
        detail.append(host);
        check("bind", CheckStatus::Passed, detail.as_str())
    } else {
        let mut detail = "server.host `".to_owned();
        detail.append(host);
        detail.append("` is not loopback; TLS is required for non-loopback binds");
        check("bind", CheckStatus::Error, detail.as_str())
    }
}

fn check_workspaces(workspaces: OpsResult<usize>) -> (r: Check)
    ensures
        r@ == workspaces_check(workspaces),
{
    match workspaces {
        Ok(count) => {
            let mut detail = decimal_of(count as u64);
            detail.append(" workspace(s) configured");
            check("workspaces", CheckStatus::Passed, detail.as_str())
        },
        Err(error) => check("workspaces", CheckStatus::Error, error.to_string().as_str()),
    }
}

fn check_exec(production_safe: bool, allow_exec: bool) -> (r: Check)
    ensures
        r@ == exec_check(production_safe, allow_exec),
{
    if production_safe && allow_exec {
        check("exec", CheckStatus::Error, "production_safe profile cannot enable exec")
    } else if allow_exec {
        check(
            "exec",
            CheckStatus::Degraded,
            "exec is enabled; it remains approval-gated and is not remediation",
        )
    } else {
        check("exec", CheckStatus::Passed, "exec is disabled")
    }
}

fn check_remediation(enabled: bool) -> (r: Check)
    ensures
        r@ == remediation_check(enabled),
{
    if enabled {
        check(
            "remediation",
            CheckStatus::Degraded,
            "remediation is enabled; change operations still require exact request-hash approval",
        )
    } else {
        check("remediation", CheckStatus::Passed, "remediation is disabled")
    }
}

fn worst_of(checks: &Vec<Check>) -> (r: CheckStatus)
    ensures
        r == worst(check_views(checks@)),
{
    let ghost views = check_views(checks@);
    let mut error = false;
    let mut degraded = false;
    let mut i: usize = 0;
    while i < checks.len()
        invariant
            i <= checks@.len(),
            views == check_views(checks@),
            error <==> exists|k: int| 0 <= k < i && (#[trigger] views[k]).status is Error,
            degraded <==> exists|k: int| 0 <= k < i && (#[trigger] views[k]).status is Degraded,
        decreases checks@.len() - i,
    {
        assert(views[i as int] == checks@[i as int]@);
        match checks[i].status {
            CheckStatus::Error => {
                error = true;
            },
            CheckStatus::Degraded => {
                degraded = true;
            },
            CheckStatus::Passed => {},
        }
        i += 1;
    }
    if error {
        CheckStatus::Error
    } else if degraded {
        CheckStatus::Degraded
    } else {
        CheckStatus::Passed
    }
}

/// Looks at everything, and reports the worst of it.
pub fn doctor(
    config: &Config,
    names: &Vec<OpsResult<()>>,
    workspaces: OpsResult<usize>,
    probe: StoreProbe,
) -> (r: DoctorReport)
    requires
        names@.len() == config.workspaces@.len(),
    ensures
        check_views(r.checks@) == all_checks(config, names@, workspaces, probe),
        r.status == worst(all_checks(config, names@, workspaces, probe)),
{
    let ghost expected = all_checks(config, names@, workspaces, probe);
    let mut checks: Vec<Check> = Vec::new();
    match validate_config(config, names) {
        Ok(_) => {
            checks.push(check("config", CheckStatus::Passed, "configuration is valid"));
        },
        Err(error) => {
            checks.push(check("config", CheckStatus::Error, error.to_string().as_str()));
        },
    }
    checks.push(check_bind(config.server.host.as_str()));
    checks.push(check_workspaces(workspaces));
    checks.push(check_exec(config.extensions.production_safe, config.tools.allow_exec));
    checks.push(check_remediation(config.remediation.enabled));
    match probe {
        StoreProbe::Absent { path } => {
            let mut detail = "sqlite file ".to_owned();
            detail.append(path.as_str());
            detail.append(" is not present yet; it will be created on first run");
            checks.push(check("store", CheckStatus::Degraded, detail.as_str()));
        },
        StoreProbe::Present { store, audit } => {
            checks.push(told_check("store", store));
            checks.push(told_check("audit", audit));
        },
    }
    assert(check_views(checks@) =~= expected);
    let status = worst_of(&checks);
    DoctorReport { status, checks }
}

/// A report is fine only where nothing failed: a configuration with an error
/// is never fine.
pub proof fn law_invalid_config_is_reported(
    config: &Config,
    names: Seq<OpsResult<()>>,
    workspaces: OpsResult<usize>,
    probe: StoreProbe,
)
    requires
        config.error(names) is Some,
    ensures
        worst(all_checks(config, names, workspaces, probe)) is Error,
{
    let checks = all_checks(config, names, workspaces, probe);
    assert(checks[0] == config_check(config, names));
}

// ---------------------------------------------------------------------------
// The store
// ---------------------------------------------------------------------------
pub open spec fn version_texts(versions: Seq<u64>) -> Seq<Seq<char>> {
    versions.map_values(|version: u64| decimal(version as nat))
}

/// Versions as they are shown.
pub open spec fn version_list(versions: Seq<u64>) -> Seq<char> {
    "["@ + join(version_texts(versions), ", "@) + "]"@
}

fn show_versions(versions: &Vec<u64>) -> (r: String)
    ensures
        r@ == version_list(versions@),
{
    let mut texts: Vec<String> = Vec::new();
    let mut i: usize = 0;
    while i < versions.len()
        invariant
            i <= versions@.len(),
            views(texts@) == version_texts(versions@).take(i as int),
        decreases versions@.len() - i,
    {
        let ghost before = texts@;
        texts.push(decimal_of(versions[i]));
        i += 1;
        assert(views(texts@) =~= views(before).push(decimal(versions@[i - 1] as nat)));
        assert(views(texts@) =~= version_texts(versions@).take(i as int));
    }
    assert(version_texts(versions@).take(i as int) =~= version_texts(versions@));
    let mut list = "[".to_owned();
    list.append(join_strings(&texts, ", ").as_str());
    list.append("]");
    list
}

fn holds(versions: &Vec<u64>, version: u64) -> (r: bool)
    ensures
        r == versions@.contains(version),
{
    let mut i: usize = 0;
    while i < versions.len()
        invariant
            i <= versions@.len(),
            forall|k: int| 0 <= k < i ==> #[trigger] versions@[k] != version,
        decreases versions@.len() - i,
    {
        if versions[i] == version {
            return true;
        }
        i += 1;
    }
    false
}

/// What is said of a database with these versions of the schema and so many
/// threads.
pub fn verify_store(versions: &Vec<u64>, threads: usize) -> (r: OpsResult<String>)
    ensures
        match r {
            Ok(detail) => versions@.contains(1) && versions@.contains(2) && detail@
                == "integrity ok; schema "@ + version_list(versions@) + "; "@ + decimal(
                threads as nat,
            ) + " thread(s)"@,
            Err(e) => !(versions@.contains(1) && versions@.contains(2)) && e@ == ErrorView::Storage(
                "sqlite schema versions "@ + version_list(versions@) + " are incomplete"@,
            ),
        },
{
    let list = show_versions(versions);
    if !holds(versions, 1) || !holds(versions, 2) {
        let mut message = "sqlite schema versions ".to_owned();
        message.append(list.as_str());
        message.append(" are incomplete");
        return Err(OpsCodexError::Storage(message));
    }
    let mut detail = "integrity ok; schema ".to_owned();
    detail.append(list.as_str());
    detail.append("; ");
    detail.append(decimal_of(threads as u64).as_str());
    detail.append(" thread(s)");
    Ok(detail)
}

/// An operation needs the database.
pub fn require_sqlite(backend: &str, operation: &str) -> (r: OpsResult<()>)
    ensures
        r is Ok <==> backend@ == "sqlite"@,
        r matches Err(e) ==> e@ == ErrorView::Protocol(
            "storage "@ + operation@ + " requires store.backend = sqlite"@,
        ),
{
    if same(backend, "sqlite") {
        return Ok(());
    }
    let mut message = "storage ".to_owned();
    message.append(operation);
    message.append(" requires store.backend = sqlite");
    Err(OpsCodexError::Protocol(message))
}

/// An operation needs the file of the database.
pub fn require_file(path: &str, exists: bool) -> (r: OpsResult<()>)
    ensures
        r is Ok <==> exists,
        r matches Err(e) ==> e@ == ErrorView::Storage(
            "sqlite file "@ + path@ + " does not exist"@,
        ),
{
    if exists {
        return Ok(());
    }
    let mut message = "sqlite file ".to_owned();
    message.append(path);
    message.append(" does not exist");
    Err(OpsCodexError::Storage(message))
}

/// What is said of the audit log: it is kept in the database alone, and there is none
/// before the file of the database.
pub fn verify_audit(backend: &str, records: &Option<Vec<AuditRecord>>) -> (r: OpsResult<String>)
    ensures
        backend@ != "sqlite"@ ==> (r matches Ok(detail) && detail@
            == "audit verify skipped for jsonl store"@),
        backend@ == "sqlite"@ ==> match *records {
            None => r matches Ok(detail) && detail@ == "no audit log yet"@,
            Some(records) => match r {
                Ok(detail) => chained(records@) && detail@ == decimal(records@.len())
                    + " audit record(s) verified"@,
                Err(e) => chain_error(records@, "genesis"@) == Some(e@),
            },
        },
{
    if !same(backend, "sqlite") {
        return Ok("audit verify skipped for jsonl store".to_owned());
    }
    match records {
        None => Ok("no audit log yet".to_owned()),
        Some(records) => match verify_audit_chain(records) {
            Ok(_) => {
                let mut detail = decimal_of(records.len() as u64);
                detail.append(" audit record(s) verified");
                Ok(detail)
            },
            Err(error) => Err(error),
        },
    }
}

/// Where a backup goes: to the file that is named, or into the directory.
pub fn backup_file(dest: &str, extension: Option<&str>) -> (r: String)
    ensures
        r@ == (match extension {
            Some(text) => if text@ == "sqlite3"@ || text@ == "db"@ {
                dest@
            } else {
                below(dest@, "state.sqlite3"@)
            },
            None => below(dest@, "state.sqlite3"@),
        }),
{
    match extension {
        Some(text) => if same(text, "sqlite3") || same(text, "db") {
            dest.to_owned()
        } else {
            join_path(dest, "state.sqlite3")
        },
        None => join_path(dest, "state.sqlite3"),
    }
}

} // verus!
