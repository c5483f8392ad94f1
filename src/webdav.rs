//! The WebDAV transport: where each request goes, what it carries, and what its reply
//! status means. Sending the requests is left to the caller.

use vstd::prelude::*;
use crate::listing::{listing_entries, entries_view, parse_listing, ListingEntry};
use crate::model::{WebDavConfig, WebDavConfigView};
use crate::text::{
    chars_of, decimal, decimal_text, push_text, string_of, strip_trailing_slashes, trailing_slash_cut,
    trim_text, trimmed,
};
use crate::urlcodec::{percent_encoded, url_encode};

verus! {

/// `t` with a slash put in front and at the end where it has none there.
pub open spec fn with_slashes(t: Seq<char>) -> Seq<char> {
    let a = if t.len() > 0 && t[0] == '/' {
        t
    } else {
        seq!['/'] + t
    };
    if a.last() == '/' {
        a
    } else {
        a.push('/')
    }
}

/// A remote directory in the form every URL is built from: trimmed, and beginning and
/// ending with a slash.
pub open spec fn normalized_path(p: Seq<char>) -> Seq<char> {
    with_slashes(trimmed(p))
}

/// Normalises a remote directory: trims it and makes it begin and end with `/`.
pub fn normalize_remote_path(path: &str) -> (r: String)
    ensures
        r@ == normalized_path(path@),
        r@.len() > 0 && r@[0] == '/' && r@.last() == '/',
{
    let t = chars_of(trim_text(path));
    let mut out: Vec<char> = Vec::new();
    if !(t.len() > 0 && t[0] == '/') {
        out.push('/');
    }
    let mut rest = t;
    out.append(&mut rest);
    if !(out.len() > 0 && out[out.len() - 1] == '/') {
        out.push('/');
    }
    proof {
        let tv = trimmed(path@);
        if tv.len() > 0 && tv[0] == '/' {
        } else {
            assert(out@.take(1) =~= seq!['/']);
        }
    }
    string_of(out.as_slice())
}

/// The server URL of an endpoint without its trailing slashes.
pub open spec fn base_url(u: Seq<char>) -> Seq<char> {
    strip_trailing_slashes(u)
}

/// The URL of the endpoint's directory.
pub open spec fn collection_url(c: WebDavConfigView) -> Seq<char> {
    base_url(c.url) + normalized_path(c.remote_path)
}

/// The URL of a file in the endpoint's directory; the name is percent-encoded.
pub open spec fn file_url(c: WebDavConfigView, name: Seq<char>) -> Seq<char> {
    collection_url(c) + percent_encoded(name)
}

/// The URL that creates the endpoint's directory: its collection URL without the trailing slash.
pub open spec fn mkcol_url(c: WebDavConfigView) -> Seq<char> {
    base_url(c.url) + strip_trailing_slashes(normalized_path(c.remote_path))
}

/// The endpoint for the sub-directory `segment` of `c`'s directory.
pub open spec fn child_view(c: WebDavConfigView, segment: Seq<char>) -> WebDavConfigView {
    WebDavConfigView { remote_path: normalized_path(c.remote_path) + segment + seq!['/'], ..c }
}

fn base_url_chars(url: &str) -> (r: Vec<char>)
    ensures
        r@ == base_url(url@),
{
    let u = chars_of(url);
    let end = trailing_slash_cut(u.as_slice());
    let mut out: Vec<char> = Vec::new();
    let mut i: usize = 0;
    while i < end
        invariant
            end <= u@.len(),
            i <= end,
            out@ == u@.take(i as int),
        decreases end - i,
    {
        out.push(u[i]);
        i = i + 1;
        proof {
            assert(out@ =~= u@.take(i as int));
        }
    }
    out
}

/// The URL of the endpoint's directory.
pub fn collection_url_of(c: &WebDavConfig) -> (r: String)
    ensures
        r@ == collection_url(c@),
{
    let mut out = base_url_chars(c.url.as_str());
    let p = normalize_remote_path(c.remote_path.as_str());
    push_text(&mut out, p.as_str());
    string_of(out.as_slice())
}

/// The URL of the file `name` in the endpoint's directory.
pub fn file_url_of(c: &WebDavConfig, name: &str) -> (r: String)
    ensures
        r@ == file_url(c@, name@),
{
    let mut out = chars_of(collection_url_of(c).as_str());
    let enc = url_encode(name);
    push_text(&mut out, enc.as_str());
    string_of(out.as_slice())
}

/// The URL that creates the endpoint's directory.
pub fn mkcol_url_of(c: &WebDavConfig) -> (r: String)
    ensures
        r@ == mkcol_url(c@),
{
    let mut out = base_url_chars(c.url.as_str());
    let p = chars_of(normalize_remote_path(c.remote_path.as_str()).as_str());
    let end = trailing_slash_cut(p.as_slice());
    let mut i: usize = 0;
    let ghost start = out@;
    while i < end
        invariant
            end <= p@.len(),
            i <= end,
            out@ == start + p@.take(i as int),
        decreases end - i,
    {
        out.push(p[i]);
        i = i + 1;
        proof {
            assert(out@ =~= start + p@.take(i as int));
        }
    }
    string_of(out.as_slice())
}

/// The endpoint for the sub-directory `segment`: same server and credentials, the
/// directory normalised with `segment` and a slash appended.
pub fn child_config(c: &WebDavConfig, segment: &str) -> (r: WebDavConfig)
    ensures
        r@ == child_view(c@, segment@),
{
    let mut p = chars_of(normalize_remote_path(c.remote_path.as_str()).as_str());
    push_text(&mut p, segment);
    p.push('/');
    proof {
        assert(p@ =~= normalized_path(c.remote_path@) + segment@ + seq!['/']);
    }
    WebDavConfig {
        url: c.url.clone(),
        username: c.username.clone(),
        password: c.password.clone(),
        remote_path: string_of(p.as_slice()),
    }
}

/// The four requests the transport makes.
#[derive(PartialEq, Eq, Structural, Clone, Copy, Debug)]
pub enum DavMethod {
    Put,
    Get,
    Propfind,
    Mkcol,
}

/// One request, ready to send with HTTP Basic credentials.
pub struct DavRequest {
    pub method: DavMethod,
    pub url: String,
    pub username: String,
    pub password: String,
    pub headers: Vec<(String, String)>,
    pub body: String,
}

/// The request carries the endpoint's credentials.
pub open spec fn carries_credentials(r: DavRequest, c: WebDavConfigView) -> bool {
    r.username@ == c.username && r.password@ == c.password
}

fn header(name: &str, value: &str) -> (r: (String, String))
    ensures
        r.0@ == name@,
        r.1@ == value@,
{
    (name.to_owned(), value.to_owned())
}

/// A `PUT` of `content` as the file `filename` of the endpoint's directory.
pub fn upload_request(c: &WebDavConfig, filename: &str, content: &str) -> (r: DavRequest)
    ensures
        r.method == DavMethod::Put,
        r.url@ == file_url(c@, filename@),
        r.body@ == content@,
        r.headers@.len() == 1,
        r.headers@[0].0@ == "Content-Type"@,
        r.headers@[0].1@ == "application/json; charset=utf-8"@,
        carries_credentials(r, c@),
{
    DavRequest {
        method: DavMethod::Put,
        url: file_url_of(c, filename),
        username: c.username.clone(),
        password: c.password.clone(),
        headers: vec![header("Content-Type", "application/json; charset=utf-8")],
        body: content.to_owned(),
    }
}

/// A `GET` of the file `filename` of the endpoint's directory.
pub fn download_request(c: &WebDavConfig, filename: &str) -> (r: DavRequest)
    ensures
        r.method == DavMethod::Get,
        r.url@ == file_url(c@, filename@),
        r.body@.len() == 0,
        r.headers@.len() == 1,
        r.headers@[0].0@ == "Accept"@,
        r.headers@[0].1@ == "*/*"@,
        carries_credentials(r, c@),
{
    DavRequest {
        method: DavMethod::Get,
        url: file_url_of(c, filename),
        username: c.username.clone(),
        password: c.password.clone(),
        headers: vec![header("Accept", "*/*")],
        body: String::new(),
    }
}

/// The body of a listing: the properties asked of each child.
pub open spec fn propfind_body() -> Seq<char> {
    "<?xml version=\"1.0\" encoding=\"utf-8\"?><propfind xmlns=\"DAV:\"><prop><displayname/><resourcetype/><getcontentlength/></prop></propfind>"@
}

/// A `PROPFIND` of the endpoint's directory with the header `Depth: <depth>`.
pub fn list_request(c: &WebDavConfig, depth: u8) -> (r: DavRequest)
    ensures
        r.method == DavMethod::Propfind,
        r.url@ == collection_url(c@),
        r.headers@.len() == 3,
        r.headers@[0].0@ == "Depth"@,
        r.headers@[0].1@ == decimal(depth as nat),
        r.headers@[1].0@ == "Content-Type"@,
        r.headers@[1].1@ == "application/xml; charset=utf-8"@,
        r.headers@[2].0@ == "Accept"@,
        r.headers@[2].1@ == "*/*"@,
        r.body@ == propfind_body(),
        carries_credentials(r, c@),
{
    let depth_header = ("Depth".to_owned(), string_of(decimal_text(depth as u64).as_slice()));
    DavRequest {
        method: DavMethod::Propfind,
        url: collection_url_of(c),
        username: c.username.clone(),
        password: c.password.clone(),
        headers: vec![
            depth_header,
            header("Content-Type", "application/xml; charset=utf-8"),
            header("Accept", "*/*"),
        ],
        body: "<?xml version=\"1.0\" encoding=\"utf-8\"?><propfind xmlns=\"DAV:\"><prop><displayname/><resourcetype/><getcontentlength/></prop></propfind>".to_owned(),
    }
}

/// A `MKCOL` of the endpoint's directory.
pub fn mkcol_request(c: &WebDavConfig) -> (r: DavRequest)
    ensures
        r.method == DavMethod::Mkcol,
        r.url@ == mkcol_url(c@),
        r.body@.len() == 0,
        carries_credentials(r, c@),
{
    DavRequest {
        method: DavMethod::Mkcol,
        url: mkcol_url_of(c),
        username: c.username.clone(),
        password: c.password.clone(),
        headers: Vec::new(),
        body: String::new(),
    }
}

/// Why a request failed.
pub enum DavError {
    /// The request did not get a reply: the connection failed or timed out.
    Transport(String),
    /// The reply had a status that the request does not accept.
    Status(u16),
}

/// A 2xx status.
pub open spec fn is_success(status: u16) -> bool {
    200 <= status < 300
}

/// The statuses with which an upload succeeds.
pub open spec fn upload_accepts(status: u16) -> bool {
    is_success(status) || status == 201
}

/// The statuses with which a listing succeeds: 2xx and 207 (Multi-Status).
pub open spec fn list_accepts(status: u16) -> bool {
    is_success(status) || status == 207
}

/// The statuses with which creating a directory succeeds: 201 (created), 405 (it exists
/// already), 301 (a redirect, taken as existing) and any 2xx.
pub open spec fn mkcol_accepts(status: u16) -> bool {
    status == 201 || status == 405 || status == 301 || is_success(status)
}

/// What an upload's reply status means.
pub fn upload_outcome(status: u16) -> (r: Result<(), DavError>)
    ensures
        r is Ok <==> upload_accepts(status),
        r matches Err(e) ==> e == DavError::Status(status),
{
    if (200 <= status && status < 300) || status == 201 {
        Ok(())
    } else {
        Err(DavError::Status(status))
    }
}

/// What a download's reply means: its body, if the status is 2xx.
pub fn download_outcome(status: u16, body: String) -> (r: Result<String, DavError>)
    ensures
        r is Ok <==> is_success(status),
        r matches Ok(t) ==> t@ == body@,
        r matches Err(e) ==> e == DavError::Status(status),
{
    if 200 <= status && status < 300 {
        Ok(body)
    } else {
        Err(DavError::Status(status))
    }
}

/// What a listing's reply means: the entries its body names, if the status is 2xx or 207.
pub fn list_outcome(status: u16, body: &str) -> (r: Result<Vec<ListingEntry>, DavError>)
    ensures
        r is Ok <==> list_accepts(status),
        r matches Ok(es) ==> entries_view(es@) == listing_entries(body@),
        r matches Err(e) ==> e == DavError::Status(status),
{
    if (200 <= status && status < 300) || status == 207 {
        Ok(parse_listing(body))
    } else {
        Err(DavError::Status(status))
    }
}

/// What the reply to creating a directory means.
pub fn mkcol_outcome(status: u16) -> (r: Result<(), DavError>)
    ensures
        r is Ok <==> mkcol_accepts(status),
        r matches Err(e) ==> e == DavError::Status(status),
{
    if status == 201 || status == 405 || status == 301 || (200 <= status && status < 300) {
        Ok(())
    } else {
        Err(DavError::Status(status))
    }
}

/// Creating a directory that a first call created or found (201, 405, 301 or 2xx) and then
/// creating it again succeeds both times: whatever a server that keeps the directory answers
/// the second call (405, 301 or 2xx), the outcome is a success.
pub proof fn lemma_mkcol_repeatable(first: u16, second: u16)
    requires
        first == 201 || is_success(first),
        second == 405 || second == 301 || is_success(second),
    ensures
        mkcol_accepts(first),
        mkcol_accepts(second),
{
}

/// The text of an error: the transport's own message, or `HTTP` and the status.
pub open spec fn dav_error_text(e: DavError) -> Seq<char> {
    match e {
        DavError::Transport(m) => m@,
        DavError::Status(s) => seq!['H', 'T', 'T', 'P', ' '] + decimal(s as nat),
    }
}

impl DavError {
    /// The text of the error.
    pub fn text(&self) -> (r: String)
        ensures
            r@ == dav_error_text(*self),
    {
        match self {
            DavError::Transport(m) => m.clone(),
            DavError::Status(s) => {
                let mut out: Vec<char> = vec!['H', 'T', 'T', 'P', ' '];
                let mut d = decimal_text(*s as u64);
                out.append(&mut d);
                string_of(out.as_slice())
            },
        }
    }
}

/// What a connection test does after its `PROPFIND` with depth 0 got a reply.
pub enum ProbeStep {
    /// The test is over, with this report.
    Finished(Result<String, String>),
    /// The directory is missing: create it, then report with `created_report`.
    CreateCollection,
}

/// The report of a connection test whose probe got the status `status`: 2xx and 207 mean
/// connected, 404 means the directory has to be created, 401 means the credentials are
/// wrong, anything else is a failure that names the status.
pub open spec fn probe_step(status: u16, r: ProbeStep) -> bool {
    if list_accepts(status) {
        r matches ProbeStep::Finished(Ok(m)) && m@ == "连接成功"@
    } else if status == 404 {
        r is CreateCollection
    } else if status == 401 {
        r matches ProbeStep::Finished(Err(m)) && m@ == "认证失败：请检查用户名和应用密码"@
    } else {
        r matches ProbeStep::Finished(Err(m)) && m@ == "连接失败: HTTP "@ + decimal(status as nat)
    }
}

/// What a connection test does after its probe got the status `status`.
pub fn probe_reply(status: u16) -> (r: ProbeStep)
    ensures
        probe_step(status, r),
{
    if (200 <= status && status < 300) || status == 207 {
        ProbeStep::Finished(Ok("连接成功".to_owned()))
    } else if status == 404 {
        ProbeStep::CreateCollection
    } else if status == 401 {
        ProbeStep::Finished(Err("认证失败：请检查用户名和应用密码".to_owned()))
    } else {
        let mut out = chars_of("连接失败: HTTP ");
        let mut d = decimal_text(status as u64);
        out.append(&mut d);
        ProbeStep::Finished(Err(string_of(out.as_slice())))
    }
}

/// The report of a connection test that had to create the directory.
pub fn created_report(created: Result<(), DavError>) -> (r: Result<String, String>)
    ensures
        created is Ok ==> (r matches Ok(m) && m@ == "连接成功，已创建远程目录"@),
        created matches Err(e) ==> (r matches Err(m) && m@ == "创建目录失败: "@ + dav_error_text(e)),
{
    match created {
        Ok(()) => Ok("连接成功，已创建远程目录".to_owned()),
        Err(e) => {
            let mut out = chars_of("创建目录失败: ");
            push_text(&mut out, e.text().as_str());
            Err(string_of(out.as_slice()))
        },
    }
}

} // verus!
