//! URLs and header values, as the HTTP crates read them.
use vstd::prelude::*;

verus! {

/// The parts of an absolute URL that has a host.
pub struct UrlParts {
    /// The scheme, without its colon.
    pub scheme: String,
    /// The user name, percent-encoded; empty where there is none.
    pub username: String,
    /// The password, percent-encoded.
    pub password: Option<String>,
    /// The host.
    pub host: String,
    /// The port, where it is not the scheme's own.
    pub port: Option<u16>,
    /// The path, percent-encoded.
    pub path: String,
    /// The query, percent-encoded and without its question mark.
    pub query: Option<String>,
}

/// The parts of a URL, as contracts speak of them.
pub ghost struct UrlView {
    pub scheme: Seq<char>,
    pub username: Seq<char>,
    pub password: Option<Seq<char>>,
    pub host: Seq<char>,
    pub port: Option<u16>,
    pub path: Seq<char>,
    pub query: Option<Seq<char>>,
}

impl View for UrlParts {
    type V = UrlView;

    open spec fn view(&self) -> UrlView {
        UrlView {
            scheme: self.scheme@,
            username: self.username@,
            password: match self.password {
                Some(text) => Some(text@),
                None => None,
            },
            host: self.host@,
            port: self.port,
            path: self.path@,
            query: match self.query {
                Some(text) => Some(text@),
                None => None,
            },
        }
    }
}

/// How `ureq` reads a request URL: its parts, or nothing where it is no URL with a host.
pub uninterp spec fn request_url_parts(text: Seq<char>) -> Option<UrlView>;

/// How `reqwest::Url` reads a URL: its scheme and its host, or nothing where it is no URL.
pub uninterp spec fn url_origin(text: Seq<char>) -> Option<(Seq<char>, Option<Seq<char>>)>;

/// `ureq::get(..).request_url()` reads a URL without sending anything.
#[verifier::external_body]
pub(crate) fn read_request_url(text: &str) -> (r: Option<UrlParts>)
    ensures
        match request_url_parts(text@) {
            Some(view) => r matches Some(parts) && parts@ == view,
            None => r is None,
        },
{
    let parsed = ureq::get(text).request_url().ok()?;
    let url = parsed.as_url();
    Some(UrlParts {
        scheme: url.scheme().to_string(),
        username: url.username().to_string(),
        password: url.password().map(str::to_string),
        host: url.host_str()?.to_string(),
        port: url.port(),
        path: url.path().to_string(),
        query: url.query().map(str::to_string),
    })
}

/// `reqwest::Url::parse` reads a URL; its scheme and host are kept.
#[verifier::external_body]
pub(crate) fn read_url_origin(text: &str) -> (r: Option<(String, Option<String>)>)
    ensures
        match url_origin(text@) {
            Some((scheme, Some(host))) => r matches Some((s, Some(h))) && s@ == scheme && h@ == host,
            Some((scheme, None)) => r matches Some((s, None)) && s@ == scheme,
            None => r is None,
        },
{
    let url = reqwest::Url::parse(text).ok()?;
    Some((url.scheme().to_string(), url.host_str().map(str::to_string)))
}

/// Whether a header value may hold this text: a tab, or no control character of ASCII.
pub open spec fn header_text(text: Seq<char>) -> bool {
    forall|i: int|
        0 <= i < text.len() ==> #[trigger] text[i] as u32 == 9 || (text[i] as u32 >= 32
            && text[i] as u32 != 127)
}

/// `reqwest::header::HeaderValue::from_str` accepts every byte from 32 on but 127, and the tab.
#[verifier::external_body]
pub(crate) fn is_header_text(text: &str) -> (r: bool)
    ensures
        r == header_text(text@),
{
    reqwest::header::HeaderValue::from_str(text).is_ok()
}

} // verus!
