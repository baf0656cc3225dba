//! What the library reads off a URL.
use vstd::prelude::*;

use crate::json::string_view;

verus! {

/// The text of the URL that a text names, and its scheme, user name, whether it
/// has a password, host and path; or what is wrong with the text.
pub uninterp spec fn url_parts(text: Seq<char>) -> Result<
    (Seq<char>, Seq<char>, Seq<char>, bool, Option<Seq<char>>, Seq<char>),
    Seq<char>,
>;

/// What the library reads off a URL.
#[derive(Debug)]
pub struct UrlParts {
    pub text: String,
    pub scheme: String,
    pub username: String,
    pub has_password: bool,
    pub host: Option<String>,
    pub path: String,
}

/// What the parts of a URL are.
pub struct UrlView {
    pub text: Seq<char>,
    pub scheme: Seq<char>,
    pub username: Seq<char>,
    pub has_password: bool,
    pub host: Option<Seq<char>>,
    pub path: Seq<char>,
}

impl UrlParts {
    pub open spec fn view(&self) -> UrlView {
        UrlView {
            text: self.text@,
            scheme: self.scheme@,
            username: self.username@,
            has_password: self.has_password,
            host: string_view(self.host),
            path: self.path@,
        }
    }
}

/// The URL that a text names, or what is wrong with the text.
pub open spec fn url_of(text: Seq<char>) -> Result<UrlView, Seq<char>> {
    match url_parts(text) {
        Ok(parts) => Ok(
            UrlView {
                text: parts.0,
                scheme: parts.1,
                username: parts.2,
                has_password: parts.3,
                host: parts.4,
                path: parts.5,
            },
        ),
        Err(e) => Err(e),
    }
}

/// `url::Url::parse`, and what its result says of itself: `as_str`, `scheme`,
/// `username`, `password`, `host_str` and `path`. All of it depends on the text
/// alone.
#[verifier::external_body]
fn read_url(text: &str) -> (r: Result<UrlParts, String>)
    ensures
        match r {
            Ok(url) => url_parts(text@) == Ok::<
                (Seq<char>, Seq<char>, Seq<char>, bool, Option<Seq<char>>, Seq<char>),
                Seq<char>,
            >((url@.text, url@.scheme, url@.username, url@.has_password, url@.host, url@.path)),
            Err(e) => url_parts(text@) == Err::<
                (Seq<char>, Seq<char>, Seq<char>, bool, Option<Seq<char>>, Seq<char>),
                Seq<char>,
            >(e@),
        },
{
    match url::Url::parse(text) {
        Ok(url) => Ok(
            UrlParts {
                text: url.as_str().to_owned(),
                scheme: url.scheme().to_owned(),
                username: url.username().to_owned(),
                has_password: url.password().is_some(),
                host: url.host_str().map(str::to_owned),
                path: url.path().to_owned(),
            },
        ),
        Err(error) => Err(error.to_string()),
    }
}

/// The longest text of a URL, and the longest path, with which a URL is changed.
pub const MAX_URL_CHARS: usize = 0x100_0000;

/// The parts of the URL that a text names, once its path is another.
pub uninterp spec fn parts_with_path(text: Seq<char>, path: Seq<char>) -> Option<
    (Seq<char>, Seq<char>, Seq<char>, bool, Option<Seq<char>>, Seq<char>),
>;

/// The URL that a text names, once its path is another.
pub open spec fn url_with_path(text: Seq<char>, path: Seq<char>) -> Option<UrlView> {
    match parts_with_path(text, path) {
        Some(parts) => Some(
            UrlView {
                text: parts.0,
                scheme: parts.1,
                username: parts.2,
                has_password: parts.3,
                host: parts.4,
                path: parts.5,
            },
        ),
        None => None,
    }
}

/// `url::Url::set_path` on the URL that a text names, and what the result says of
/// itself. All of it depends on the text and the path alone; there is a result where
/// the text names a URL. A URL of more bytes than a `u32` counts would make the crate
/// panic, so long texts are left out.
#[verifier::external_body]
pub(crate) fn set_path(text: &str, path: &str) -> (r: Option<UrlParts>)
    requires
        text@.len() <= MAX_URL_CHARS,
        path@.len() <= MAX_URL_CHARS,
    ensures
        match r {
            Some(url) => parts_with_path(text@, path@) == Some(
                (url@.text, url@.scheme, url@.username, url@.has_password, url@.host, url@.path),
            ),
            None => parts_with_path(text@, path@) is None,
        },
        r is Some <==> url_parts(text@) is Ok,
{
    let mut url = url::Url::parse(text).ok()?;
    url.set_path(path);
    Some(
        UrlParts {
            text: url.as_str().to_owned(),
            scheme: url.scheme().to_owned(),
            username: url.username().to_owned(),
            has_password: url.password().is_some(),
            host: url.host_str().map(str::to_owned),
            path: url.path().to_owned(),
        },
    )
}

/// The text of the URL that a reference names at a base, or what is wrong.
pub uninterp spec fn joined_url(base: Seq<char>, reference: Seq<char>) -> Result<
    Seq<char>,
    Seq<char>,
>;

/// `url::Url::join` on the URL that a base names: the text of the result, or of the
/// error, depends on the base and the reference alone.
#[verifier::external_body]
pub(crate) fn join_url(base: &str, reference: &str) -> (r: Result<String, String>)
    ensures
        match r {
            Ok(url) => joined_url(base@, reference@) == Ok::<Seq<char>, Seq<char>>(url@),
            Err(e) => joined_url(base@, reference@) == Err::<Seq<char>, Seq<char>>(e@),
        },
{
    match url::Url::parse(base).and_then(|base| base.join(reference)) {
        Ok(url) => Ok(url.as_str().to_owned()),
        Err(error) => Err(error.to_string()),
    }
}

/// Reads a URL.
pub fn parse_url(text: &str) -> (r: Result<UrlParts, String>)
    ensures
        match r {
            Ok(url) => url_of(text@) == Ok::<UrlView, Seq<char>>(url@),
            Err(e) => url_of(text@) == Err::<UrlView, Seq<char>>(e@),
        },
{
    read_url(text)
}

/// The names by which a URL names this machine.
pub open spec fn loopback_name(host: Seq<char>) -> bool {
    host == "127.0.0.1"@ || host == "localhost"@ || host == "::1"@
}

pub fn is_loopback_name(host: &str) -> (r: bool)
    ensures
        r == loopback_name(host@),
{
    crate::text::same(host, "127.0.0.1") || crate::text::same(host, "localhost")
        || crate::text::same(host, "::1")
}

/// The host of a URL, or nothing.
pub open spec fn host_or_empty(url: UrlView) -> Seq<char> {
    match url.host {
        Some(host) => host,
        None => Seq::empty(),
    }
}

impl UrlParts {
    pub fn host_name(&self) -> (r: &str)
        ensures
            r@ == host_or_empty(self@),
    {
        match &self.host {
            Some(host) => host.as_str(),
            None => {
                proof {
                    reveal_strlit("");
                    assert(""@ =~= Seq::<char>::empty());
                }
                ""
            },
        }
    }
}

} // verus!
