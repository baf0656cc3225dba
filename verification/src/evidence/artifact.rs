//! Content-addressed artifacts, kept apart by workspace.
use vstd::hash_map::StringHashMap;
use vstd::prelude::*;

use crate::digest::{hex_text, lemma_hex_len, sha256, sha256_hex, sha256_text};
use crate::error::{ErrorView, OpsCodexError, OpsResult};
use crate::json::hex_digit;
use crate::text::{char_is_hex_digit, chars_of, is_hex_digit, substring};

verus! {

/// Artifacts in memory, and the most that is read of one at a time.
pub struct ArtifactStore {
    entries: StringHashMap<Vec<u8>>,
    max_bytes: usize,
}

/// The key of an artifact in a workspace.
pub open spec fn scoped(workspace_id: Seq<char>, sha256: Seq<char>) -> Seq<char> {
    workspace_id + "/"@ + sha256
}

pub fn scoped_key(workspace_id: &str, sha256: &str) -> (r: String)
    ensures
        r@ == scoped(workspace_id@, sha256@),
{
    let mut r = workspace_id.to_owned();
    r.append("/");
    r.append(sha256);
    r
}

/// Sixty-four hexadecimal digits.
pub open spec fn sha256_id(value: Seq<char>) -> bool {
    value.len() == 64 && forall|i: int| 0 <= i < value.len() ==> is_hex_digit(#[trigger] value[i])
}

pub fn is_sha256(value: &str) -> (r: bool)
    ensures
        r == sha256_id(value@),
{
    let chars = chars_of(value);
    if chars.len() != 64 {
        return false;
    }
    let mut i: usize = 0;
    while i < chars.len()
        invariant
            i <= chars@.len(),
            chars@ == value@,
            forall|j: int| 0 <= j < i ==> is_hex_digit(#[trigger] chars@[j]),
        decreases chars@.len() - i,
    {
        if !char_is_hex_digit(chars[i]) {
            assert(!is_hex_digit(value@[i as int]));
            return false;
        }
        i += 1;
    }
    true
}

/// The directories and the name under which an artifact is kept on disk: its
/// workspace, the first two digits of its hash, and the hash.
pub open spec fn path_parts(workspace_id: Seq<char>, sha256: Seq<char>) -> (
    Seq<char>,
    Seq<char>,
    Seq<char>,
) {
    (workspace_id, sha256.take(2), sha256)
}

/// Where a valid artifact is kept on disk.
pub fn artifact_path(workspace_id: &str, sha256: &str) -> (r: (String, String, String))
    requires
        sha256_id(sha256@),
    ensures
        (r.0@, r.1@, r.2@) == path_parts(workspace_id@, sha256@),
{
    let chars = chars_of(sha256);
    let prefix = substring(&chars, 0, 2);
    assert(prefix@ =~= sha256@.take(2));
    (workspace_id.to_owned(), prefix, sha256.to_owned())
}

/// How many bytes of an artifact are read: what is asked for, within what the
/// store allows, and at least one.
pub open spec fn read_limit(asked: usize, allowed: usize) -> usize {
    let limit = if asked <= allowed {
        asked
    } else {
        allowed
    };
    if limit == 0 {
        1
    } else {
        limit
    }
}

/// The bytes that a reader gets.
pub open spec fn readable(bytes: Seq<u8>, limit: usize) -> Seq<u8> {
    if bytes.len() <= limit {
        bytes
    } else {
        bytes.take(limit as int)
    }
}

/// Cuts the content of an artifact to what a reader gets.
pub fn read_prefix(bytes: &Vec<u8>, asked: usize, allowed: usize) -> (r: Vec<u8>)
    ensures
        r@ == readable(bytes@, read_limit(asked, allowed)),
{
    let limit: usize = if asked <= allowed {
        asked
    } else {
        allowed
    };
    let limit: usize = if limit == 0 {
        1
    } else {
        limit
    };
    let end: usize = if bytes.len() <= limit {
        bytes.len()
    } else {
        limit
    };
    let mut out: Vec<u8> = Vec::new();
    let mut i: usize = 0;
    while i < end
        invariant
            i <= end <= bytes@.len(),
            out@ == bytes@.take(i as int),
        decreases end - i,
    {
        out.push(bytes[i]);
        i += 1;
        assert(out@ =~= bytes@.take(i as int));
    }
    assert(bytes@.take(bytes@.len() as int) =~= bytes@);
    out
}

proof fn lemma_hex_digits(bytes: Seq<u8>)
    ensures
        forall|i: int| 0 <= i < hex_text(bytes).len() ==> is_hex_digit(#[trigger] hex_text(bytes)[i]),
    decreases bytes.len(),
{
    if bytes.len() > 0 {
        lemma_hex_digits(bytes.drop_last());
        lemma_hex_len(bytes.drop_last());
        let before = hex_text(bytes.drop_last());
        let b = bytes.last() as int;
        assert(is_hex_digit(hex_digit(b / 16)));
        assert(is_hex_digit(hex_digit(b % 16)));
        let all = hex_text(bytes);
        assert forall|i: int| 0 <= i < all.len() implies is_hex_digit(#[trigger] all[i]) by {
            if i < before.len() {
                assert(all[i] == before[i]);
            }
        }
    }
}

impl ArtifactStore {
    /// The artifacts by scoped key.
    pub closed spec fn view(&self) -> Map<Seq<char>, Seq<u8>> {
        self.entries@.map_values(|bytes: Vec<u8>| bytes@)
    }

    /// The most that is read of one artifact.
    pub closed spec fn allowed(&self) -> usize {
        self.max_bytes
    }

    pub fn memory() -> (r: Self)
        ensures
            r@ == Map::<Seq<char>, Seq<u8>>::empty(),
            r.allowed() == 1024 * 1024,
    {
        let r = ArtifactStore { entries: StringHashMap::new(), max_bytes: 1024 * 1024 };
        assert(r@ =~= Map::<Seq<char>, Seq<u8>>::empty());
        r
    }

    pub fn with_max_bytes(self, max_bytes: usize) -> (r: Self)
        ensures
            r@ == self@,
            r.allowed() == (if max_bytes == 0 {
                1
            } else {
                max_bytes
            }),
    {
        let mut r = self;
        r.max_bytes = if max_bytes == 0 {
            1
        } else {
            max_bytes
        };
        r
    }

    pub fn put(&mut self, bytes: &[u8]) -> (r: String)
        ensures
            r@ == sha256_text(bytes@),
            sha256_id(r@),
            final(self)@ == old(self)@.insert(scoped("default"@, r@), bytes@),
            final(self).allowed() == old(self).allowed(),
    {
        self.put_in("default", bytes)
    }

    /// Keeps `bytes` in a workspace under their hash.
    pub fn put_in(&mut self, workspace_id: &str, bytes: &[u8]) -> (r: String)
        ensures
            r@ == sha256_text(bytes@),
            sha256_id(r@),
            final(self)@ == old(self)@.insert(scoped(workspace_id@, r@), bytes@),
            final(self).allowed() == old(self).allowed(),
    {
        let digest = sha256_hex(bytes);
        proof {
            lemma_hex_digits(sha256(bytes@));
        }
        let key = scoped_key(workspace_id, digest.as_str());
        self.entries.insert(key, vstd::slice::slice_to_vec(bytes));
        assert(self@ =~= old(self)@.insert(scoped(workspace_id@, digest@), bytes@));
        digest
    }

    pub fn get(&self, sha256: &str, max_bytes: usize) -> (r: OpsResult<Vec<u8>>)
        ensures
            read_result(self@, "default"@, sha256@, read_limit(max_bytes, self.allowed()), r),
    {
        self.get_in("default", sha256, max_bytes)
    }

    /// Reads the beginning of an artifact of a workspace.
    pub fn get_in(&self, workspace_id: &str, sha256: &str, max_bytes: usize) -> (r: OpsResult<
        Vec<u8>,
    >)
        ensures
            read_result(self@, workspace_id@, sha256@, read_limit(max_bytes, self.allowed()), r),
    {
        if !is_sha256(sha256) {
            return Err(OpsCodexError::Protocol("invalid artifact id".to_owned()));
        }
        let key = scoped_key(workspace_id, sha256);
        if let Some(bytes) = self.entries.get(key.as_str()) {
            return Ok(read_prefix(bytes, max_bytes, self.max_bytes));
        }
        let mut message = "artifact ".to_owned();
        message.append(sha256);
        Err(OpsCodexError::NotFound(message))
    }
}

/// What reading an artifact gives.
pub open spec fn read_result(
    store: Map<Seq<char>, Seq<u8>>,
    workspace_id: Seq<char>,
    sha256: Seq<char>,
    limit: usize,
    r: OpsResult<Vec<u8>>,
) -> bool {
    let key = scoped(workspace_id, sha256);
    match r {
        Ok(bytes) => {
            &&& sha256_id(sha256)
            &&& store.contains_key(key)
            &&& bytes@ == readable(store[key], limit)
        },
        Err(e) => if !sha256_id(sha256) {
            e@ == ErrorView::Protocol("invalid artifact id"@)
        } else {
            !store.contains_key(key) && e@ == ErrorView::NotFound("artifact "@ + sha256)
        },
    }
}

/// Reading what was just put gives the beginning of it back.
pub proof fn law_put_then_get(
    before: Map<Seq<char>, Seq<u8>>,
    workspace_id: Seq<char>,
    id: Seq<char>,
    bytes: Seq<u8>,
    limit: usize,
    r: OpsResult<Vec<u8>>,
)
    requires
        sha256_id(id),
        read_result(before.insert(scoped(workspace_id, id), bytes), workspace_id, id, limit, r),
    ensures
        r matches Ok(read) && read@ == readable(bytes, limit),
{
}

/// Putting an artifact into one workspace changes nothing that another one
/// reads.
pub proof fn law_workspaces_are_apart(
    before: Map<Seq<char>, Seq<u8>>,
    workspace_id: Seq<char>,
    id: Seq<char>,
    bytes: Seq<u8>,
    other: Seq<char>,
    asked: Seq<char>,
    limit: usize,
    r: OpsResult<Vec<u8>>,
)
    requires
        workspace_id != other,
        sha256_id(id),
        read_result(before.insert(scoped(workspace_id, id), bytes), other, asked, limit, r),
    ensures
        read_result(before, other, asked, limit, r),
{
    if sha256_id(asked) {
        let a = scoped(workspace_id, id);
        let b = scoped(other, asked);
        reveal_strlit("/");
        if a == b {
            assert(workspace_id =~= a.take(a.len() - 65));
            assert(other =~= b.take(b.len() - 65));
        }
    }
}

} // verus!
