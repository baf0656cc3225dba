//! Moving logs from files into a database, and back into a file.
use vstd::prelude::*;

use crate::config::{below, join_path};
use crate::digest::sha256_text;
use crate::error::{ErrorView, OpsCodexError, OpsResult};
use crate::json::bytes_of;
use crate::json_law::valid;
use crate::json_line::law_document_is_one_line;
use crate::runtime::envelope::{log_view, EnvelopeView, EventEnvelope};
use crate::runtime::thread::ThreadId;
use crate::store::log::{encode_line, is_frame, line_of, one_line, unlines, NEWLINE};
use crate::store::sqlite::{
    count_events, event_hash, hashes_bytes, log_bytes, logs_view, store_hash, total_events,
};
use crate::text::{extension_of, has_extension, same};
use crate::time::Timestamp;
use crate::uuid_text::{read_uuid, uuid_result};

verus! {

#[derive(Clone, Copy, Debug, PartialEq, Eq, Structural)]
pub struct MigrateOptions {
    pub dry_run: bool,
    pub verify: bool,
}

impl Default for MigrateOptions {
    fn default() -> (r: Self)
        ensures
            r == (MigrateOptions { dry_run: false, verify: false }),
    {
        MigrateOptions { dry_run: false, verify: false }
    }
}

#[derive(Debug)]
pub struct MigrateReport {
    pub threads: usize,
    pub events: usize,
    pub hash: String,
    pub backup_dir: Option<String>,
}

#[derive(Debug)]
pub struct ExportReport {
    pub thread_id: ThreadId,
    pub events: usize,
    pub path: String,
}

/// What a migration does once the logs are read.
#[derive(Clone, Copy, Debug, PartialEq, Eq, Structural)]
pub enum MigrateStep {
    /// Nothing.
    Report,
    /// Hold the database against the logs.
    Verify,
    /// Take the logs into the database and put the files aside.
    Import,
}

pub fn migrate_step(options: MigrateOptions) -> (r: MigrateStep)
    ensures
        r == (if options.dry_run {
            MigrateStep::Report
        } else if options.verify {
            MigrateStep::Verify
        } else {
            MigrateStep::Import
        }),
{
    if options.dry_run {
        MigrateStep::Report
    } else if options.verify {
        MigrateStep::Verify
    } else {
        MigrateStep::Import
    }
}

/// What is reported of the logs that were read.
pub fn migration_report(imported: &Vec<Vec<EventEnvelope>>, backup_dir: Option<String>) -> (r:
    MigrateReport)
    requires
        total_events(logs_view(imported@)) <= usize::MAX,
    ensures
        r.threads == imported@.len(),
        r.events == total_events(logs_view(imported@)),
        r.hash@ == sha256_text(hashes_bytes(logs_view(imported@))),
        r.backup_dir == backup_dir,
{
    let events: usize = match count_events(imported) {
        Some(n) => n,
        None => 0,
    };
    MigrateReport { threads: imported.len(), events, hash: store_hash(imported), backup_dir }
}

/// Holds the events that a database has of a thread against its log.
pub fn verify_thread(imported: &Vec<EventEnvelope>, current: &Vec<EventEnvelope>) -> (r: OpsResult<
    (),
>)
    requires
        imported@.len() > 0,
    ensures
        match r {
            Ok(_) => sha256_text(log_bytes(log_view(current@))) == sha256_text(
                log_bytes(log_view(imported@)),
            ),
            Err(e) => {
                &&& sha256_text(log_bytes(log_view(current@))) != sha256_text(
                    log_bytes(log_view(imported@)),
                )
                &&& e@ == ErrorView::Storage(
                    "sqlite verification failed for thread "@ + imported@[0].thread_id.text(),
                )
            },
        },
{
    if same(event_hash(current).as_str(), event_hash(imported).as_str()) {
        return Ok(());
    }
    let mut message = "sqlite verification failed for thread ".to_owned();
    message.append(imported[0].thread_id.to_string().as_str());
    Err(OpsCodexError::Storage(message))
}

/// Where the files are put aside.
pub fn backup_dir(jsonl_dir: &str, now: Timestamp) -> (r: String)
    ensures
        r@ == below(jsonl_dir@, "backup-"@ + now.compact()),
{
    let mut name = "backup-".to_owned();
    name.append(now.to_compact().as_str());
    join_path(jsonl_dir, name.as_str())
}

/// The thread to export, by the text of its identifier.
pub fn exported_thread(text: &str) -> (r: OpsResult<ThreadId>)
    ensures
        match r {
            Ok(id) => uuid_result(text@) == Ok::<u128, Seq<char>>(id.value),
            Err(e) => uuid_result(text@) matches Err(error) && e@ == ErrorView::Protocol(
                "invalid thread id: "@ + error,
            ),
        },
        forall|id: ThreadId| text@ == #[trigger] id.text() ==> r == Ok::<ThreadId, OpsCodexError>(
            id,
        ),
{
    exported_id(read_uuid(text))
}

/// The thread to export; `read` is what was read of its identifier.
pub fn exported_id(read: Result<u128, String>) -> (r: OpsResult<ThreadId>)
    ensures
        match read {
            Ok(value) => r == Ok::<ThreadId, OpsCodexError>(ThreadId { value }),
            Err(error) => r matches Err(e) && e@ == ErrorView::Protocol(
                "invalid thread id: "@ + error@,
            ),
        },
{
    match read {
        Ok(value) => Ok(ThreadId { value }),
        Err(error) => {
            let mut message = "invalid thread id: ".to_owned();
            message.append(error.as_str());
            Err(OpsCodexError::Protocol(message))
        },
    }
}

/// Whether a file holds the log of a thread.
pub fn is_log_file(name: &str) -> (r: bool)
    ensures
        r == (extension_of(name@) == Some("jsonl"@)),
{
    has_extension(name, "jsonl")
}

/// The lines of a log.
pub open spec fn document_lines(log: Seq<EnvelopeView>) -> Seq<Seq<u8>> {
    log.map_values(|envelope: EnvelopeView| bytes_of(envelope.json()))
}

/// The bytes of a log.
pub fn export_log(events: &Vec<EventEnvelope>) -> (r: Vec<u8>)
    ensures
        r@ == unlines(document_lines(log_view(events@))),
{
    let ghost log = log_view(events@);
    let ghost lines = document_lines(log);
    let mut bytes: Vec<u8> = Vec::new();
    let mut i: usize = 0;
    assert(lines.take(0) =~= Seq::empty());
    while i < events.len()
        invariant
            i <= events@.len(),
            log == log_view(events@),
            lines == document_lines(log),
            bytes@ == unlines(lines.take(i as int)),
        decreases events@.len() - i,
    {
        let ghost before = bytes@;
        let mut line = encode_line(&events[i]);
        bytes.append(&mut line);
        proof {
            assert(lines.take(i + 1).drop_last() =~= lines.take(i as int));
            assert(lines.take(i + 1).last() == bytes_of(events@[i as int]@.json()));
            assert(bytes@ =~= before + line_of(events@[i as int]@));
        }
        i += 1;
    }
    assert(lines.take(i as int) =~= lines);
    bytes
}

/// A log that was written to a file is cut into its events again, one to a line.
pub proof fn law_export_is_framed(log: Seq<EnvelopeView>)
    requires
        forall|i: int| 0 <= i < log.len() ==> valid((#[trigger] log[i]).json()),
    ensures
        is_frame(unlines(document_lines(log)), document_lines(log), Seq::empty()),
{
    let lines = document_lines(log);
    assert(unlines(lines) =~= unlines(lines) + Seq::<u8>::empty());
    assert forall|i: int| 0 <= i < lines.len() implies one_line(#[trigger] lines[i]) by {
        assert(lines[i] == bytes_of(log[i].json()));
        law_document_is_one_line(log[i].json());
        if lines[i].contains(NEWLINE) {
            let k = choose|k: int| 0 <= k < lines[i].len() && lines[i][k] == NEWLINE;
            assert(lines[i][k] >= 0x20);
        }
    }
}

} // verus!
