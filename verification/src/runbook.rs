//! Runbooks: what to do about an incident, written down.
use vstd::prelude::*;
use vstd::utf8::encode_utf8;

use crate::digest::{sha256_hex, sha256_text};
use crate::error::{ErrorView, OpsCodexError, OpsResult};
use crate::front_matter::{close_head, closed, open_head, opened, skip_start};
use crate::order::{is_order, key_views, positions, sorted_order, SortKey};
use crate::text::{
    chars_of, contains, contains_str, decimal, decimal_of, extension_of, has_char, has_extension,
    join, join_strings, lower, lower_str, same, trim, trim_start, trim_str, views,
};

verus! {

#[derive(Debug)]
pub struct RunbookMeta {
    pub id: String,
    pub title: String,
    pub services: Vec<String>,
    pub signals: Vec<String>,
    pub tags: Vec<String>,
    pub version: u32,
    pub hash: String,
}

/// What the head of a runbook says.
pub struct MetaView {
    pub id: Seq<char>,
    pub title: Seq<char>,
    pub services: Seq<Seq<char>>,
    pub signals: Seq<Seq<char>>,
    pub tags: Seq<Seq<char>>,
    pub version: u32,
    pub hash: Seq<char>,
}

impl RunbookMeta {
    pub open spec fn view(&self) -> MetaView {
        MetaView {
            id: self.id@,
            title: self.title@,
            services: views(self.services@),
            signals: views(self.signals@),
            tags: views(self.tags@),
            version: self.version,
            hash: self.hash@,
        }
    }
}

impl Clone for RunbookMeta {
    fn clone(&self) -> (r: Self)
        ensures
            r@ == self@,
    {
        RunbookMeta {
            id: self.id.clone(),
            title: self.title.clone(),
            services: self.services.clone(),
            signals: self.signals.clone(),
            tags: self.tags.clone(),
            version: self.version,
            hash: self.hash.clone(),
        }
    }
}

#[derive(Debug)]
pub struct Runbook {
    pub meta: RunbookMeta,
    pub body: String,
}

// ---------------------------------------------------------------------------
// Reading
// ---------------------------------------------------------------------------
/// The settings of a runbook, as they are written.
#[derive(Debug)]
pub struct RunbookFront {
    pub id: String,
    pub title: String,
    pub services: Vec<String>,
    pub signals: Vec<String>,
    pub tags: Vec<String>,
    pub version: u32,
}

/// The settings of a runbook and its text, or why it has none.
pub open spec fn runbook_parts(source: Seq<char>) -> Result<(Seq<char>, Seq<char>), ErrorView> {
    match opened(trim_start(source)) {
        None => Err(ErrorView::Protocol("runbook is missing YAML front matter"@)),
        Some(rest) => match closed(rest) {
            None => Err(ErrorView::Protocol("runbook front matter is not terminated"@)),
            Some((front, body)) => Ok((trim(front), trim(body))),
        },
    }
}

/// Cuts a runbook into its settings and its text.
pub fn split_runbook(source: &str) -> (r: OpsResult<(String, String)>)
    ensures
        match r {
            Ok(parts) => runbook_parts(source@) == Ok::<(Seq<char>, Seq<char>), ErrorView>(
                (parts.0@, parts.1@),
            ),
            Err(e) => runbook_parts(source@) == Err::<(Seq<char>, Seq<char>), ErrorView>(e@),
        },
{
    let chars = chars_of(source);
    let start = skip_start(&chars);
    let from = match open_head(&chars, start) {
        Some(from) => from,
        None => {
            return Err(
                OpsCodexError::Protocol("runbook is missing YAML front matter".to_owned()),
            );
        },
    };
    match close_head(&chars, from) {
        Some((front, body)) => Ok((trim_str(front.as_str()), trim_str(body.as_str()))),
        None => Err(OpsCodexError::Protocol("runbook front matter is not terminated".to_owned())),
    }
}

/// What is wrong with a runbook from whose settings `front` was read.
pub open spec fn runbook_error(
    source: Seq<char>,
    front: Result<RunbookFront, String>,
) -> Option<ErrorView> {
    match runbook_parts(source) {
        Err(e) => Some(e),
        Ok(_) => match front {
            Err(e) => Some(ErrorView::Protocol("invalid runbook front matter: "@ + e@)),
            Ok(front) => if trim(front.id@).len() == 0 || trim(front.title@).len() == 0 {
                Some(ErrorView::Protocol("runbook id and title are required"@))
            } else {
                None
            },
        },
    }
}

/// The runbook is the one that the source and its settings describe.
pub open spec fn is_runbook(runbook: Runbook, source: Seq<char>, front: RunbookFront) -> bool {
    &&& runbook.meta@ == (MetaView {
        id: front.id@,
        title: front.title@,
        services: views(front.services@),
        signals: views(front.signals@),
        tags: views(front.tags@),
        version: if front.version == 0 {
            1
        } else {
            front.version
        },
        hash: sha256_text(encode_utf8(source)),
    })
    &&& runbook_parts(source) matches Ok(parts) && runbook.body@ == parts.1
}

/// Reads a runbook. `front` is what was read from its settings.
pub fn parse_runbook(source: &str, front: Result<RunbookFront, String>) -> (r: OpsResult<Runbook>)
    ensures
        match r {
            Ok(runbook) => runbook_error(source@, front) is None && (front matches Ok(front)
                && is_runbook(runbook, source@, front)),
            Err(e) => runbook_error(source@, front) == Some(e@),
        },
{
    let (_settings, body) = match split_runbook(source) {
        Ok(parts) => parts,
        Err(e) => return Err(e),
    };
    let front = match front {
        Ok(front) => front,
        Err(error) => {
            let mut message = "invalid runbook front matter: ".to_owned();
            message.append(error.as_str());
            return Err(OpsCodexError::Protocol(message));
        },
    };
    if trim_str(front.id.as_str()).as_str().is_empty() || trim_str(
        front.title.as_str(),
    ).as_str().is_empty() {
        return Err(OpsCodexError::Protocol("runbook id and title are required".to_owned()));
    }
    let version = if front.version == 0 {
        1
    } else {
        front.version
    };
    Ok(
        Runbook {
            meta: RunbookMeta {
                id: front.id,
                title: front.title,
                services: front.services,
                signals: front.signals,
                tags: front.tags,
                version,
                hash: sha256_hex(source.as_bytes()),
            },
            body,
        },
    )
}

// ---------------------------------------------------------------------------
// The catalog
// ---------------------------------------------------------------------------
#[derive(Debug)]
pub struct RunbookCatalog {
    runbooks: Vec<Runbook>,
}

impl Default for RunbookCatalog {
    fn default() -> (r: Self)
        ensures
            r@.len() == 0,
            r.well_formed(),
    {
        RunbookCatalog { runbooks: Vec::new() }
    }
}

/// Two runbooks have the same name and version.
pub open spec fn same_edition(a: Runbook, b: Runbook) -> bool {
    a.meta.id@ == b.meta.id@ && a.meta.version == b.meta.version
}

/// Some runbook has the name and the version of another.
pub open spec fn has_edition(runbooks: Seq<Runbook>, runbook: Runbook) -> bool {
    exists|i: int| 0 <= i < runbooks.len() && same_edition(#[trigger] runbooks[i], runbook)
}

/// The refusal of a runbook whose name and version are taken.
pub open spec fn duplicate(runbook: Runbook) -> ErrorView {
    ErrorView::Protocol(
        "duplicate runbook "@ + runbook.meta.id@ + "@"@ + decimal(runbook.meta.version as nat),
    )
}

/// A file of a directory, and what came of reading a runbook from it.
#[derive(Debug)]
pub struct RunbookFile {
    pub name: String,
    pub runbook: OpsResult<Runbook>,
}

/// The runbooks of the first `n` files, or what is wrong with the first bad one. Only
/// Markdown files count.
pub open spec fn runbooks_in(files: Seq<RunbookFile>, n: int) -> Result<Seq<Runbook>, ErrorView>
    decreases n,
{
    if n <= 0 {
        Ok(Seq::empty())
    } else {
        match runbooks_in(files, n - 1) {
            Err(e) => Err(e),
            Ok(runbooks) => if extension_of(files[n - 1].name@) != Some("md"@) {
                Ok(runbooks)
            } else {
                match files[n - 1].runbook {
                    Err(e) => Err(e@),
                    Ok(runbook) => if has_edition(runbooks, runbook) {
                        Err(duplicate(runbook))
                    } else {
                        Ok(runbooks.push(runbook))
                    },
                }
            },
        }
    }
}

proof fn lemma_bad_file_decides(files: Seq<RunbookFile>, m: int, n: int)
    requires
        m <= n,
        runbooks_in(files, m) is Err,
    ensures
        runbooks_in(files, n) == runbooks_in(files, m),
    decreases n - m,
{
    if m < n {
        lemma_bad_file_decides(files, m, n - 1);
    }
}

/// The runbook serves the service, or none was asked for.
pub open spec fn serves(runbook: Runbook, service: Option<Seq<char>>) -> bool {
    match service {
        None => true,
        Some(service) => names_service(views(runbook.meta.services@), service),
    }
}

/// A list names a service, whatever the case of its letters.
pub open spec fn names_service(services: Seq<Seq<char>>, service: Seq<char>) -> bool {
    exists|i: int| 0 <= i < services.len() && lower(#[trigger] services[i]) == lower(service)
}

/// The text in which a runbook is searched.
pub open spec fn haystack(meta: MetaView) -> Seq<char> {
    lower(
        meta.id + " "@ + meta.title + " "@ + join(meta.tags, " "@) + " "@ + join(
            meta.signals,
            " "@,
        ),
    )
}

/// The runbook is found.
pub open spec fn is_found(runbook: Runbook, query: Seq<char>, service: Option<Seq<char>>) -> bool {
    serves(runbook, service) && (lower(query).len() == 0 || contains(
        haystack(runbook.meta@),
        lower(query),
    ))
}

/// How many signals of a runbook hold the text.
pub open spec fn signal_count(signals: Seq<Seq<char>>, needle: Seq<char>) -> nat
    decreases signals.len(),
{
    if signals.len() == 0 {
        0
    } else {
        signal_count(signals.drop_last(), needle) + (if contains(lower(signals.last()), needle) {
            1nat
        } else {
            0nat
        })
    }
}

/// Where the runbooks stand that are found among the first `n`.
pub open spec fn found_at(
    runbooks: Seq<Runbook>,
    query: Seq<char>,
    service: Option<Seq<char>>,
    n: int,
) -> Seq<int>
    decreases n,
{
    if n <= 0 {
        Seq::empty()
    } else {
        let before = found_at(runbooks, query, service, n - 1);
        if is_found(runbooks[n - 1], query, service) {
            before.push(n - 1)
        } else {
            before
        }
    }
}

/// What found runbooks are ordered by: those whose signals hold the text more
/// often come first, then by name.
pub open spec fn found_keys(runbooks: Seq<Runbook>, found: Seq<int>, needle: Seq<char>) -> Seq<
    (usize, Seq<char>),
> {
    found.map_values(
        |i: int|
            (
                signal_count(views(runbooks[i].meta.signals@), needle) as usize,
                runbooks[i].meta.id@,
            ),
    )
}

/// The heads are those of the runbooks that are found, in order.
pub open spec fn is_search(
    metas: Seq<RunbookMeta>,
    runbooks: Seq<Runbook>,
    query: Seq<char>,
    service: Option<Seq<char>>,
) -> bool {
    let found = found_at(runbooks, query, service, runbooks.len() as int);
    exists|order: Seq<int>|
        {
            &&& #[trigger] is_order(found_keys(runbooks, found, lower(query)), order)
            &&& metas.len() == order.len()
            &&& forall|k: int|
                0 <= k < metas.len() ==> (#[trigger] metas[k])@ == runbooks[found[order[k]]].meta@
        }
}

/// The name leads out of the catalog.
pub open spec fn is_path(id: Seq<char>) -> bool {
    contains(id, ".."@) || id.contains('/') || id.contains('\\')
}

/// The runbook is one of those that are asked for.
pub open spec fn is_asked(runbook: Runbook, id: Seq<char>, version: Option<u32>) -> bool {
    runbook.meta.id@ == id && (version matches Some(version) ==> runbook.meta.version == version)
}

/// The runbook at `i` is the one to read: the latest that is asked for.
pub open spec fn is_latest(
    runbooks: Seq<Runbook>,
    id: Seq<char>,
    version: Option<u32>,
    i: int,
) -> bool {
    &&& 0 <= i < runbooks.len()
    &&& is_asked(runbooks[i], id, version)
    &&& forall|k: int|
        0 <= k < runbooks.len() && is_asked(#[trigger] runbooks[k], id, version)
            ==> runbooks[k].meta.version < runbooks[i].meta.version || (runbooks[k].meta.version
            == runbooks[i].meta.version && k <= i)
}

pub fn is_service_named(services: &Vec<String>, service: &str) -> (r: bool)
    ensures
        r == names_service(views(services@), service@),
{
    let wanted = lower_str(service);
    let ghost seen = views(services@);
    let mut i: usize = 0;
    while i < services.len()
        invariant
            i <= services@.len(),
            seen == views(services@),
            wanted@ == lower(service@),
            forall|k: int| 0 <= k < i ==> lower(#[trigger] seen[k]) != lower(service@),
        decreases services@.len() - i,
    {
        assert(seen[i as int] == services@[i as int]@);
        if same(lower_str(services[i].as_str()).as_str(), wanted.as_str()) {
            return true;
        }
        i += 1;
    }
    false
}

fn is_runbook_found(runbook: &Runbook, query: &str, service: Option<&str>) -> (r: bool)
    ensures
        r == is_found(*runbook, query@, crate::json::str_view(service)),
{
    if let Some(service) = service {
        if !is_service_named(&runbook.meta.services, service) {
            return false;
        }
    }
    let needle = lower_str(query);
    if needle.as_str().is_empty() {
        return true;
    }
    let mut hay = runbook.meta.id.clone();
    hay.append(" ");
    hay.append(runbook.meta.title.as_str());
    hay.append(" ");
    hay.append(join_strings(&runbook.meta.tags, " ").as_str());
    hay.append(" ");
    hay.append(join_strings(&runbook.meta.signals, " ").as_str());
    contains_str(lower_str(hay.as_str()).as_str(), needle.as_str())
}

fn count_signals(signals: &Vec<String>, needle: &str) -> (r: usize)
    ensures
        r == signal_count(views(signals@), needle@),
        signal_count(views(signals@), needle@) <= usize::MAX,
{
    let ghost seen = views(signals@);
    let mut count: usize = 0;
    let mut i: usize = 0;
    while i < signals.len()
        invariant
            i <= signals@.len(),
            seen == views(signals@),
            count <= i,
            count == signal_count(seen.take(i as int), needle@),
        decreases signals@.len() - i,
    {
        assert(seen.take(i + 1).drop_last() =~= seen.take(i as int));
        assert(seen.take(i + 1).last() == signals@[i as int]@);
        if contains_str(lower_str(signals[i].as_str()).as_str(), needle) {
            count += 1;
        }
        i += 1;
    }
    assert(seen.take(i as int) =~= seen);
    count
}

impl RunbookCatalog {
    pub closed spec fn view(&self) -> Seq<Runbook> {
        self.runbooks@
    }

    /// No name and version occurs twice.
    pub open spec fn well_formed(&self) -> bool {
        forall|i: int, j: int|
            0 <= i < j < self@.len() ==> !same_edition(#[trigger] self@[i], #[trigger] self@[j])
    }

    /// The runbooks of a directory; there are none where there is no directory.
    pub fn load(directory: Option<Vec<RunbookFile>>) -> (r: OpsResult<RunbookCatalog>)
        ensures
            match directory {
                None => r matches Ok(catalog) && catalog.well_formed() && catalog@.len() == 0,
                Some(files) => match r {
                    Ok(catalog) => catalog.well_formed() && runbooks_in(
                        files@,
                        files@.len() as int,
                    ) == Ok::<Seq<Runbook>, ErrorView>(catalog@),
                    Err(e) => runbooks_in(files@, files@.len() as int) == Err::<
                        Seq<Runbook>,
                        ErrorView,
                    >(e@),
                },
            },
    {
        let mut catalog = RunbookCatalog::default();
        let files = match directory {
            Some(files) => files,
            None => {
                return Ok(catalog);
            },
        };
        let ghost all = files@;
        let n: usize = files.len();
        let mut rest = files;
        let mut i: usize = 0;
        assert(catalog@ =~= Seq::empty());
        assert(all.skip(0) =~= all);
        while i < n
            invariant
                i <= n,
                n == all.len(),
                directory == Some(files),
                all == files@,
                rest@ == all.skip(i as int),
                catalog.well_formed(),
                runbooks_in(all, i as int) == Ok::<Seq<Runbook>, ErrorView>(catalog@),
            decreases n - i,
        {
            let file = rest.remove(0);
            assert(rest@ =~= all.skip(i + 1));
            if has_extension(file.name.as_str(), "md") {
                let refused = match file.runbook {
                    Ok(runbook) => catalog.insert(runbook),
                    Err(e) => Err(e),
                };
                if let Err(e) = refused {
                    proof {
                        lemma_bad_file_decides(all, i + 1, n as int);
                    }
                    return Err(e);
                }
            }
            i += 1;
        }
        Ok(catalog)
    }

    pub fn insert(&mut self, runbook: Runbook) -> (r: OpsResult<()>)
        requires
            old(self).well_formed(),
        ensures
            final(self).well_formed(),
            match r {
                Ok(_) => !has_edition(old(self)@, runbook) && final(self)@ == old(self)@.push(
                    runbook,
                ),
                Err(e) => has_edition(old(self)@, runbook) && final(self)@ == old(self)@ && e@
                    == duplicate(runbook),
            },
    {
        let mut i: usize = 0;
        while i < self.runbooks.len()
            invariant
                i <= self.runbooks@.len(),
                self@ == old(self)@,
                self@ == self.runbooks@,
                self.well_formed(),
                forall|k: int| 0 <= k < i ==> !same_edition(#[trigger] self@[k], runbook),
            decreases self.runbooks@.len() - i,
        {
            if same(self.runbooks[i].meta.id.as_str(), runbook.meta.id.as_str())
                && self.runbooks[i].meta.version == runbook.meta.version {
                let mut message = "duplicate runbook ".to_owned();
                message.append(runbook.meta.id.as_str());
                message.append("@");
                message.append(decimal_of(runbook.meta.version as u64).as_str());
                assert(same_edition(self@[i as int], runbook));
                return Err(OpsCodexError::Protocol(message));
            }
            i += 1;
        }
        self.runbooks.push(runbook);
        Ok(())
    }

    pub fn search(&self, query: &str, service: Option<&str>) -> (r: Vec<RunbookMeta>)
        ensures
            is_search(r@, self@, query@, crate::json::str_view(service)),
    {
        let ghost asked = crate::json::str_view(service);
        let needle = lower_str(query);
        let mut found: Vec<usize> = Vec::new();
        let mut keys: Vec<SortKey> = Vec::new();
        let mut i: usize = 0;
        assert(positions(found@) =~= found_at(self@, query@, asked, 0));
        assert(key_views(keys@) =~= found_keys(
            self@,
            found_at(self@, query@, asked, 0),
            lower(query@),
        ));
        while i < self.runbooks.len()
            invariant
                i <= self.runbooks@.len(),
                self@ == self.runbooks@,
                asked == crate::json::str_view(service),
                needle@ == lower(query@),
                positions(found@) == found_at(self@, query@, asked, i as int),
                key_views(keys@) == found_keys(
                    self@,
                    found_at(self@, query@, asked, i as int),
                    lower(query@),
                ),
                forall|k: int| 0 <= k < found@.len() ==> #[trigger] found@[k] < i,
                found@.len() == keys@.len(),
            decreases self.runbooks@.len() - i,
        {
            let runbook = &self.runbooks[i];
            let ghost before = found_at(self@, query@, asked, i as int);
            if is_runbook_found(runbook, query, service) {
                let score = count_signals(&runbook.meta.signals, needle.as_str());
                let ghost seen = keys@;
                let ghost places = found@;
                keys.push(SortKey { score, id: runbook.meta.id.clone() });
                found.push(i);
                proof {
                    assert(positions(found@) =~= positions(places).push(i as int));
                    assert(key_views(keys@) =~= key_views(seen).push((score, runbook.meta.id@)));
                    assert(found_keys(self@, before.push(i as int), lower(query@)) =~= found_keys(
                        self@,
                        before,
                        lower(query@),
                    ).push((score, runbook.meta.id@)));
                }
            }
            i += 1;
        }
        let order = sorted_order(&keys);
        let ghost places = positions(order@);
        let mut metas: Vec<RunbookMeta> = Vec::new();
        let mut k: usize = 0;
        while k < order.len()
            invariant
                k <= order@.len(),
                self@ == self.runbooks@,
                places == positions(order@),
                is_order(key_views(keys@), places),
                keys@.len() == found@.len(),
                metas@.len() == k,
                forall|j: int| 0 <= j < found@.len() ==> #[trigger] found@[j] < self.runbooks@.len(),
                forall|j: int|
                    0 <= j < k ==> (#[trigger] metas@[j])@ == self@[positions(
                        found@,
                    )[places[j]]].meta@,
            decreases order@.len() - k,
        {
            assert(places[k as int] == order@[k as int]);
            let at = found[order[k]];
            metas.push(self.runbooks[at].meta.clone());
            assert(positions(found@)[places[k as int]] == at);
            k += 1;
        }
        proof {
            let all = found_at(self@, query@, asked, self@.len() as int);
            assert(is_order(found_keys(self@, all, lower(query@)), places));
        }
        metas
    }

    pub fn read(&self, id: &str, version: Option<u32>) -> (r: OpsResult<&Runbook>)
        ensures
            match r {
                Ok(runbook) => !is_path(id@) && exists|i: int|
                    is_latest(self@, id@, version, i) && *runbook == #[trigger] self@[i],
                Err(e) => if is_path(id@) {
                    e@ == ErrorView::Policy("runbook id cannot contain path segments"@)
                } else {
                    e@ == ErrorView::NotFound("runbook "@ + id@) && forall|k: int|
                        0 <= k < self@.len() ==> !is_asked(#[trigger] self@[k], id@, version)
                },
            },
    {
        if contains_str(id, "..") || has_char(id, '/') || has_char(id, '\\') {
            return Err(
                OpsCodexError::Policy("runbook id cannot contain path segments".to_owned()),
            );
        }
        let mut best: Option<usize> = None;
        let mut i: usize = 0;
        while i < self.runbooks.len()
            invariant
                i <= self.runbooks@.len(),
                self@ == self.runbooks@,
                match best {
                    Some(b) => is_latest(self@.take(i as int), id@, version, b as int),
                    None => forall|k: int|
                        0 <= k < i ==> !is_asked(#[trigger] self@[k], id@, version),
                },
            decreases self.runbooks@.len() - i,
        {
            let runbook = &self.runbooks[i];
            let asked = same(runbook.meta.id.as_str(), id) && (match version {
                Some(version) => runbook.meta.version == version,
                None => true,
            });
            assert(asked == is_asked(self@[i as int], id@, version));
            let ghost shorter = self@.take(i as int);
            let ghost longer = self@.take(i + 1);
            assert(longer[i as int] == self@[i as int]);
            if asked {
                let better = match best {
                    Some(b) => {
                        assert(shorter[b as int] == self@[b as int]);
                        runbook.meta.version >= self.runbooks[b].meta.version
                    },
                    None => true,
                };
                if better {
                    best = Some(i);
                }
            }
            proof {
                assert forall|k: int| 0 <= k < i implies longer[k] == shorter[k] by {}
                if let Some(b) = best {
                    assert forall|k: int|
                        0 <= k < longer.len() && is_asked(
                            #[trigger] longer[k],
                            id@,
                            version,
                        ) implies longer[k].meta.version < longer[b as int].meta.version || (
                    longer[k].meta.version == longer[b as int].meta.version && k <= b) by {
                        if k < i {
                            assert(longer[k] == shorter[k]);
                            assert(shorter[k] == self@[k]);
                        }
                    }
                }
            }
            i += 1;
        }
        assert(self@.take(i as int) =~= self@);
        match best {
            Some(b) => Ok(&self.runbooks[b]),
            None => {
                let mut message = "runbook ".to_owned();
                message.append(id);
                Err(OpsCodexError::NotFound(message))
            },
        }
    }
}

/// In a catalog the latest edition of a runbook is one runbook.
pub proof fn law_latest_is_unique(
    catalog: RunbookCatalog,
    id: Seq<char>,
    version: Option<u32>,
    i: int,
    j: int,
)
    requires
        is_latest(catalog@, id, version, i),
        is_latest(catalog@, id, version, j),
    ensures
        i == j,
{
    assert(is_asked(catalog@[i], id, version));
    assert(is_asked(catalog@[j], id, version));
}

} // verus!
