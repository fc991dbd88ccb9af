//! The static side of the HTTP/3 endpoint: which file a request path names, what
//! a request is answered with, and what the page learns of the transport.

use vstd::prelude::*;
use vstd::string::*;
use vstd::utf8::*;

use crate::base64::{base64_encode, encoded};
use crate::bytes::{byte_views, pieces, pieces_not_empty, same_bytes, split_bytes};
use crate::daemon::{sha256, sha256_digest};
use crate::pem::{
    all_read, item_views, key_view, pem_certificates, pem_key, read_certificates, read_key, take_all,
    whole, KeyView, PrivateKey,
};
use crate::text::{decimal_nat, push_decimal, push_text, texts};

verus! {

/// The most streams of one connection at once.
pub const MAX_CONCURRENT_BIDI_STREAMS: u32 = 64;

/// The most unidirectional streams of one connection at once.
pub const MAX_CONCURRENT_UNI_STREAMS: u32 = 32;

/// How long a connection may be silent.
pub const MAX_IDLE_TIMEOUT_MS: u32 = 60_000;

/// How often the server shows that it is alive. It fits twice into the limit of
/// a peer that still enforces half a minute, so that one lost ping does not end
/// the connection.
pub const KEEP_ALIVE_INTERVAL_MS: u64 = 10_000;

/// The largest certificate chain.
pub const MAX_CERTIFICATE_CHAIN_BYTES: u64 = 1_048_576;

/// The largest private key.
pub const MAX_PRIVATE_KEY_BYTES: u64 = 65_536;

/// The most certificates of a chain.
pub const MAX_CERTIFICATES: usize = 8;

/// The largest file that is served.
pub const MAX_STATIC_FILE_BYTES: u64 = 16_777_216;

/// The longest request path.
pub const MAX_REQUEST_PATH_BYTES: usize = 1024;

/// How clients trust the endpoint's certificate.
#[derive(Debug, Clone, Copy, PartialEq, Eq, Structural)]
pub enum WebTransportCertificateMode {
    /// By its hash: a certificate of the daemon's own, for development.
    DevelopmentHashPin,
    /// By its issuer.
    WebPki,
}

impl WebTransportCertificateMode {
    /// The mode's name as pages learn it.
    pub open spec fn wire_name(self) -> Seq<char> {
        match self {
            WebTransportCertificateMode::DevelopmentHashPin => "hash-pin"@,
            WebTransportCertificateMode::WebPki => "webpki"@,
        }
    }

    /// The mode's name as pages learn it.
    pub fn as_wire_name(self) -> (r: &'static str)
        ensures
            r@ == self.wire_name(),
    {
        match self {
            WebTransportCertificateMode::DevelopmentHashPin => "hash-pin",
            WebTransportCertificateMode::WebPki => "webpki",
        }
    }
}

/// The two bytes of the parent directory.
pub open spec fn dot_dot() -> Seq<u8> {
    seq![46u8, 46u8]
}

/// The byte of the directory itself.
pub open spec fn dot() -> Seq<u8> {
    seq![46u8]
}

/// Whether a relative path stays below where it starts: it does not start at the
/// root or with a dot, and never climbs.
pub open spec fn stays_below(rel: Seq<u8>) -> bool {
    &&& rel.len() > 0
    &&& rel[0] != 47
    &&& pieces(rel, 47)[0] != dot()
    &&& forall|i: int| 0 <= i < pieces(rel, 47).len() ==> #[trigger] pieces(rel, 47)[i] != dot_dot()
}

/// A path below a directory.
pub open spec fn joined(root: Seq<u8>, rel: Seq<u8>) -> Seq<u8> {
    if root.len() == 0 || root.last() == 47 {
        root + rel
    } else {
        root + seq![47u8] + rel
    }
}

/// The part of a request path that names a file: what follows the first slash,
/// or the index where nothing does.
pub open spec fn requested(path: Seq<u8>) -> Seq<u8> {
    if path.len() == 1 {
        encode_utf8("index.html"@)
    } else {
        path.skip(1)
    }
}

/// Whether a request path may name a file at all: it is not too long, starts
/// with a slash, and holds neither a percent sign nor a backslash.
pub open spec fn plain_path(path: Seq<u8>) -> bool {
    &&& 0 < path.len() <= MAX_REQUEST_PATH_BYTES
    &&& path[0] == 47
    &&& !path.contains(37)
    &&& !path.contains(92)
}

/// The file that a request path names below a directory.
pub open spec fn static_path(root: Seq<u8>, path: Seq<u8>) -> Option<Seq<u8>> {
    if plain_path(path) && stays_below(requested(path)) {
        Some(joined(root, requested(path)))
    } else {
        None
    }
}

fn has_byte(b: &[u8], wanted: u8) -> (r: bool)
    ensures
        r == b@.contains(wanted),
{
    let mut i: usize = 0;
    while i < b.len()
        invariant
            i <= b.len(),
            forall|k: int| 0 <= k < i ==> b@[k] != wanted,
        decreases b.len() - i,
    {
        if b[i] == wanted {
            assert(b@[i as int] == wanted);
            return true;
        }
        i = i + 1;
    }
    false
}

fn is_dots(part: &Vec<u8>, n: usize) -> (r: bool)
    requires
        n == 1 || n == 2,
    ensures
        r == (part@ == if n == 1 {
            dot()
        } else {
            dot_dot()
        }),
{
    let r: bool = if n == 1 {
        part.len() == 1 && part[0] == 46
    } else {
        part.len() == 2 && part[0] == 46 && part[1] == 46
    };
    proof {
        if r {
            assert(part@ =~= if n == 1 {
                dot()
            } else {
                dot_dot()
            });
        } else {
            assert(dot().len() == 1 && dot()[0] == 46);
            assert(dot_dot().len() == 2 && dot_dot()[0] == 46 && dot_dot()[1] == 46);
        }
    }
    r
}

/// Whether a relative path stays below where it starts.
fn is_below(rel: &[u8]) -> (r: bool)
    ensures
        r == stays_below(rel@),
{
    if rel.len() == 0 || rel[0] == 47 {
        return false;
    }
    let parts: Vec<Vec<u8>> = split_bytes(rel, 47);
    let ghost views = pieces(rel@, 47);
    proof {
        pieces_not_empty(rel@, 47);
        assert(parts@.len() == views.len());
        assert(forall|k: int| 0 <= k < parts@.len() ==> views[k] == (#[trigger] parts@[k])@);
    }
    assert(views[0] == parts@[0]@);
    if is_dots(&parts[0], 1) {
        return false;
    }
    let mut i: usize = 0;
    while i < parts.len()
        invariant
            i <= parts.len(),
            views.len() == parts@.len(),
            views == pieces(rel@, 47),
            forall|k: int| 0 <= k < parts@.len() ==> views[k] == (#[trigger] parts@[k])@,
            forall|k: int| 0 <= k < i ==> #[trigger] views[k] != dot_dot(),
        decreases parts.len() - i,
    {
        assert(views[i as int] == parts@[i as int]@);
        if is_dots(&parts[i], 2) {
            return false;
        }
        i = i + 1;
    }
    true
}

/// The file strictly below a directory that a request path names. Paths are
/// taken literally; one that could lead elsewhere names nothing.
pub fn resolve_static_path(root: &str, path: &str) -> (r: Option<Vec<u8>>)
    ensures
        r is Some <==> static_path(root.spec_bytes(), path.spec_bytes()) is Some,
        r matches Some(file) ==> static_path(root.spec_bytes(), path.spec_bytes()) == Some(file@),
{
    let raw: &[u8] = path.as_bytes();
    if raw.len() == 0 || raw.len() > MAX_REQUEST_PATH_BYTES || has_byte(raw, 37) || has_byte(
        raw,
        92,
    ) || raw[0] != 47 {
        return None;
    }
    let rel: Vec<u8> = if raw.len() == 1 {
        crate::bytes::copy_bytes("index.html".as_bytes())
    } else {
        crate::bytes::copy_range(raw, 1, raw.len())
    };
    proof {
        if raw.len() > 1 {
            assert(raw@.subrange(1, raw@.len() as int) =~= raw@.skip(1));
        }
        assert(rel@ == requested(raw@));
    }
    if !is_below(rel.as_slice()) {
        return None;
    }
    let base: &[u8] = root.as_bytes();
    let mut out: Vec<u8> = crate::bytes::copy_bytes(base);
    if base.len() > 0 && base[base.len() - 1] != 47 {
        out.push(47);
        assert(out@ =~= base@ + seq![47u8]);
    }
    crate::bytes::append_bytes(&mut out, rel.as_slice());
    assert(out@ =~= joined(base@, rel@));
    Some(out)
}

/// Whatever a request path is, the file that it names lies below the directory:
/// what follows the directory never climbs.
pub proof fn static_paths_stay_inside(root: Seq<u8>, path: Seq<u8>)
    requires
        static_path(root, path) is Some,
    ensures
        root.is_prefix_of(static_path(root, path)->0),
        ({
            let rest = static_path(root, path)->0.skip(root.len() as int);
            let below = if root.len() == 0 || root.last() == 47 {
                rest
            } else {
                rest.skip(1)
            };
            stays_below(below)
        }),
{
    let file = static_path(root, path)->0;
    let rel = requested(path);
    if root.len() == 0 || root.last() == 47 {
        assert(file.skip(root.len() as int) =~= rel);
    } else {
        assert(file.skip(root.len() as int).skip(1) =~= rel);
    }
}

/// The last named part of a path.
pub open spec fn file_name(parts: Seq<Seq<u8>>) -> Option<Seq<u8>>
    decreases parts.len(),
{
    if parts.len() == 0 {
        None
    } else if parts.last().len() == 0 || parts.last() == dot() {
        file_name(parts.drop_last())
    } else if parts.last() == dot_dot() {
        None
    } else {
        Some(parts.last())
    }
}

/// The last full stop of a name.
pub open spec fn last_dot(name: Seq<u8>) -> int
    decreases name.len(),
{
    if name.len() == 0 {
        -1
    } else if name.last() == 46 {
        name.len() - 1
    } else {
        last_dot(name.drop_last())
    }
}

/// What follows the last full stop of a path's name, where one does not start
/// the name.
pub open spec fn extension(path: Seq<u8>) -> Option<Seq<u8>> {
    match file_name(pieces(path, 47)) {
        None => None,
        Some(name) => if last_dot(name) > 0 {
            Some(name.skip(last_dot(name) + 1))
        } else {
            None
        },
    }
}

/// The content type of an extension.
pub open spec fn type_of(extension: Option<Seq<u8>>) -> Seq<char> {
    match extension {
        None => "application/octet-stream"@,
        Some(e) => if e == encode_utf8("html"@) {
            "text/html; charset=utf-8"@
        } else if e == encode_utf8("js"@) {
            "text/javascript"@
        } else if e == encode_utf8("css"@) {
            "text/css"@
        } else if e == encode_utf8("json"@) || e == encode_utf8("map"@) {
            "application/json"@
        } else if e == encode_utf8("wasm"@) {
            "application/wasm"@
        } else if e == encode_utf8("svg"@) {
            "image/svg+xml"@
        } else if e == encode_utf8("png"@) {
            "image/png"@
        } else if e == encode_utf8("ico"@) {
            "image/x-icon"@
        } else if e == encode_utf8("woff2"@) {
            "font/woff2"@
        } else if e == encode_utf8("txt"@) {
            "text/plain; charset=utf-8"@
        } else {
            "application/octet-stream"@
        },
    }
}

/// What follows the last full stop of a path's name.
fn extension_of(path: &[u8]) -> (r: Option<Vec<u8>>)
    ensures
        r is Some <==> extension(path@) is Some,
        r matches Some(e) ==> extension(path@) == Some(e@),
{
    let parts: Vec<Vec<u8>> = split_bytes(path, 47);
    let ghost views = pieces(path@, 47);
    assert(byte_views(parts@) == views);
    let mut n: usize = parts.len();
    assert(views.take(n as int) =~= views);
    while n > 0
        invariant
            n <= parts.len(),
            byte_views(parts@) == views,
            file_name(views) == file_name(views.take(n as int)),
            views == pieces(path@, 47),
        decreases n,
    {
        let part: &Vec<u8> = &parts[n - 1];
        assert(views[n - 1] == part@);
        assert(views.take(n as int).last() == part@);
        assert(views.take(n as int).drop_last() =~= views.take(n - 1));
        if part.len() == 0 || is_dots(part, 1) {
            n = n - 1;
        } else if is_dots(part, 2) {
            return None;
        } else {
            let mut k: usize = part.len();
            let ghost name = part@;
            assert(name.take(k as int) =~= name);
            while k > 0
                invariant
                    k <= part@.len(),
                    name == part@,
                    last_dot(name) == last_dot(name.take(k as int)),
                    extension(path@) == (if last_dot(name) > 0 {
                        Some(name.skip(last_dot(name) + 1))
                    } else {
                        None::<Seq<u8>>
                    }),
                decreases k,
            {
                assert(name.take(k as int).last() == name[k - 1]);
                assert(name.take(k as int).drop_last() =~= name.take(k - 1));
                if part[k - 1] == 46 {
                    if k == 1 {
                        return None;
                    }
                    let e: Vec<u8> = crate::bytes::copy_range(part.as_slice(), k, part.len());
                    assert(e@ =~= name.skip(k as int));
                    return Some(e);
                }
                k = k - 1;
            }
            return None;
        }
    }
    None
}

/// The content type of a file, by its extension.
pub fn content_type_for(path: &[u8]) -> (r: &'static str)
    ensures
        r@ == type_of(extension(path@)),
{
    let e: Vec<u8> = match extension_of(path) {
        Some(e) => e,
        None => {
            return "application/octet-stream";
        },
    };
    let e: &[u8] = e.as_slice();
    if same_bytes(e, "html".as_bytes()) {
        "text/html; charset=utf-8"
    } else if same_bytes(e, "js".as_bytes()) {
        "text/javascript"
    } else if same_bytes(e, "css".as_bytes()) {
        "text/css"
    } else if same_bytes(e, "json".as_bytes()) || same_bytes(e, "map".as_bytes()) {
        "application/json"
    } else if same_bytes(e, "wasm".as_bytes()) {
        "application/wasm"
    } else if same_bytes(e, "svg".as_bytes()) {
        "image/svg+xml"
    } else if same_bytes(e, "png".as_bytes()) {
        "image/png"
    } else if same_bytes(e, "ico".as_bytes()) {
        "image/x-icon"
    } else if same_bytes(e, "woff2".as_bytes()) {
        "font/woff2"
    } else if same_bytes(e, "txt".as_bytes()) {
        "text/plain; charset=utf-8"
    } else {
        "application/octet-stream"
    }
}

/// What pages learn of the transport.
#[derive(Debug, Clone, PartialEq, Eq)]
pub struct WebTransportInfo {
    pub port: u16,
    pub cert_hash_base64: String,
    pub mode: WebTransportCertificateMode,
}

/// What pages learn of the transport, given the certificate that the endpoint shows:
/// its SHA-256 hash, by which they can trust it.
pub fn transport_info(port: u16, certificate: &[u8], mode: WebTransportCertificateMode) -> (r:
    WebTransportInfo)
    ensures
        r.port == port,
        r.cert_hash_base64@ == encoded(sha256(certificate@), false, true),
        r.mode == mode,
{
    let hash: [u8; 32] = sha256_digest(certificate);
    WebTransportInfo { port, cert_hash_base64: base64_encode(hash.as_slice()), mode }
}

/// What pages learn of the transport, as JSON.
pub open spec fn info_text(info: WebTransportInfo, password_auth: bool) -> Seq<char> {
    "{\"port\":"@ + decimal_nat(info.port as nat) + ",\"certHashBase64\":\""@
        + info.cert_hash_base64@ + "\",\"certificateMode\":\""@ + info.mode.wire_name()
        + "\",\"passwordAuth\":"@ + (if password_auth {
        "true"@
    } else {
        "false"@
    }) + "}"@
}

/// What pages learn of the transport, as JSON.
pub fn info_json(info: &WebTransportInfo, password_auth: bool) -> (r: String)
    ensures
        r@ == info_text(*info, password_auth),
{
    let mut out: String = String::new();
    push_text(&mut out, "{\"port\":");
    push_decimal(&mut out, info.port as u64);
    push_text(&mut out, ",\"certHashBase64\":\"");
    push_text(&mut out, info.cert_hash_base64.as_str());
    push_text(&mut out, "\",\"certificateMode\":\"");
    push_text(&mut out, info.mode.as_wire_name());
    push_text(&mut out, "\",\"passwordAuth\":");
    push_text(
        &mut out,
        if password_auth {
            "true"
        } else {
            "false"
        },
    );
    push_text(&mut out, "}");
    assert(out@ =~= info_text(*info, password_auth));
    out
}

/// The method of a request.
#[derive(Debug, Clone, Copy, PartialEq, Eq, Structural)]
pub enum Method {
    Get,
    Head,
    Other,
}

/// The status of a response.
#[derive(Debug, Clone, Copy, PartialEq, Eq, Structural)]
pub enum Status {
    Success,
    NotFound,
    MethodNotAllowed,
}

/// A response. Its length and that it must not be cached go with it; its body is
/// sent only where the request asks for it.
#[derive(Debug, Clone, PartialEq, Eq)]
pub struct Response {
    pub status: Status,
    pub content_type: &'static str,
    pub body: Vec<u8>,
    pub send_body: bool,
}

/// What a request leads to.
#[derive(Debug, Clone, PartialEq, Eq)]
pub enum RequestStep {
    /// Respond at once.
    Respond(Response),
    /// Look at a file; then [`file_looked_up`].
    LookUp { file: Vec<u8> },
}

/// Whether a response is as given; its body is sent to a reader that is not
/// empty-handed.
pub open spec fn is_response(
    r: Response,
    method: Method,
    status: Status,
    content_type: Seq<char>,
    body: Seq<u8>,
) -> bool {
    &&& r.status == status
    &&& r.content_type@ == content_type
    &&& r.body@ == body
    &&& r.send_body == (method is Get && body.len() > 0)
}

/// Whether a response is a plain text.
pub open spec fn is_plain(r: Response, method: Method, status: Status, text: Seq<char>) -> bool {
    is_response(r, method, status, "text/plain; charset=utf-8"@, encode_utf8(text))
}

/// What a request leads to.
pub open spec fn request_outcome(
    method: Method,
    path: Seq<u8>,
    info: Option<WebTransportInfo>,
    password_auth: bool,
    web_root: Option<Seq<u8>>,
    step: RequestStep,
) -> bool {
    if method is Other {
        step matches RequestStep::Respond(r) && is_plain(
            r,
            method,
            Status::MethodNotAllowed,
            "method not allowed"@,
        )
    } else if path == encode_utf8("/webtransport-info"@) {
        match info {
            Some(i) => step matches RequestStep::Respond(r) && is_response(
                r,
                method,
                Status::Success,
                "application/json"@,
                encode_utf8(info_text(i, password_auth)),
            ),
            None => step matches RequestStep::Respond(r) && is_plain(
                r,
                method,
                Status::NotFound,
                "webtransport disabled"@,
            ),
        }
    } else {
        match web_root {
            Some(root) => match static_path(root, path) {
                Some(file) => step matches RequestStep::LookUp { file: f } && f@ == file,
                None => step matches RequestStep::Respond(r) && is_plain(
                    r,
                    method,
                    Status::NotFound,
                    "not found"@,
                ),
            },
            None => step matches RequestStep::Respond(r) && is_plain(
                r,
                method,
                Status::NotFound,
                "not found"@,
            ),
        }
    }
}

fn respond(method: Method, status: Status, content_type: &'static str, body: Vec<u8>) -> (r: Response)
    ensures
        is_response(r, method, status, content_type@, body@),
{
    let send_body: bool = match method {
        Method::Get => body.len() > 0,
        _ => false,
    };
    Response { status, content_type, body, send_body }
}

fn plain(method: Method, status: Status, text: &str) -> (r: Response)
    ensures
        is_plain(r, method, status, text@),
{
    respond(
        method,
        status,
        "text/plain; charset=utf-8",
        crate::bytes::copy_bytes(text.as_bytes()),
    )
}

/// What a request leads to. Only reading is allowed.
pub fn serve_h3_request(
    method: Method,
    path: &str,
    info: Option<&WebTransportInfo>,
    password_auth: bool,
    web_root: Option<&str>,
) -> (step: RequestStep)
    ensures
        request_outcome(
            method,
            path.spec_bytes(),
            match info {
                Some(i) => Some(*i),
                None => None,
            },
            password_auth,
            match web_root {
                Some(root) => Some(root.spec_bytes()),
                None => None,
            },
            step,
        ),
{
    if let Method::Other = method {
        return RequestStep::Respond(plain(method, Status::MethodNotAllowed, "method not allowed"));
    }
    if same_bytes(path.as_bytes(), "/webtransport-info".as_bytes()) {
        return match info {
            Some(i) => {
                let text: String = info_json(i, password_auth);
                RequestStep::Respond(
                    respond(
                        method,
                        Status::Success,
                        "application/json",
                        crate::bytes::copy_bytes(text.as_str().as_bytes()),
                    ),
                )
            },
            None => RequestStep::Respond(plain(method, Status::NotFound, "webtransport disabled")),
        };
    }
    match web_root {
        None => RequestStep::Respond(plain(method, Status::NotFound, "not found")),
        Some(root) => match resolve_static_path(root, path) {
            Some(file) => RequestStep::LookUp { file },
            None => RequestStep::Respond(plain(method, Status::NotFound, "not found")),
        },
    }
}

/// Whether a file is served, given whether it is one and how long it is; `None`
/// where there is nothing. What is not served is answered as not found.
pub fn file_looked_up(method: Method, found: Option<(bool, u64)>) -> (r: Result<(), Response>)
    ensures
        r is Ok <==> (found matches Some((is_file, len)) && is_file && len
            <= MAX_STATIC_FILE_BYTES),
        r matches Err(e) ==> is_plain(e, method, Status::NotFound, "not found"@),
{
    match found {
        Some((is_file, len)) => {
            if is_file && len <= MAX_STATIC_FILE_BYTES {
                return Ok(());
            }
        },
        None => {},
    }
    Err(plain(method, Status::NotFound, "not found"))
}

/// The response that carries a file.
pub fn file_read(method: Method, file: &[u8], content: Vec<u8>) -> (r: Response)
    ensures
        is_response(r, method, Status::Success, type_of(extension(file@)), content@),
{
    respond(method, Status::Success, content_type_for(file), content)
}

/// The page that waits for the browser to come over QUIC, up to the port.
pub const INTERSTITIAL_HEAD: &'static str = r#"<!doctype html>
<html lang="en">
<head>
<meta charset="utf-8">
<meta name="viewport" content="width=device-width, initial-scale=1">
<title>Holdfast — connecting over QUIC</title>
<style>
  body { margin: 0; font: 16px/1.5 system-ui, sans-serif; background: #0d1117;
         color: #c9d1d9; display: grid; place-items: center; min-height: 100vh; }
  main { max-width: 34rem; padding: 2rem; text-align: center; }
  h1 { font-size: 1.3rem; letter-spacing: .04em; }
  .spin { display: inline-block; width: 1rem; height: 1rem; margin-right: .5rem;
          border: 2px solid #58a6ff; border-top-color: transparent; border-radius: 50%;
          animation: r 1s linear infinite; vertical-align: -.15rem; }
  @keyframes r { to { transform: rotate(360deg); } }
  a { color: #58a6ff; }
  #hint { color: #8b949e; }
</style>
</head>
<body>
<main>
<h1>Holdfast</h1>
<p id="status"><span class="spin"></span>Loading over QUIC (HTTP/3)&hellip;</p>
<p id="hint" hidden>This server is QUIC-only: the terminal is served over
HTTP/3 on UDP port "#;

/// The page that waits for the browser to come over QUIC, after the port.
pub const INTERSTITIAL_TAIL: &'static str = r#", and this page loaded over TCP, which usually
means UDP is blocked between you and the server. There is no TCP fallback —
allow UDP/QUIC to this host and reload.</p>
<script>
(function () {
  var nav = performance.getEntriesByType('navigation')[0];
  if (nav && nav.nextHopProtocol === 'h3') {
    // Served over HTTP/3 the daemon returns the app, never this page; seeing
    // it means an intermediary cached it — a hard reload fetches the app.
    location.reload();
    return;
  }
  var tries = Number(sessionStorage.getItem('hf-h3-tries') || '0');
  if (tries < 8) {
    sessionStorage.setItem('hf-h3-tries', String(tries + 1));
    setTimeout(function () { location.reload(); }, 1500);
  } else {
    sessionStorage.removeItem('hf-h3-tries');
    document.getElementById('status').textContent =
      'QUIC (HTTP/3) is required, but this page could only load over TCP.';
    document.getElementById('hint').hidden = false;
  }
})();
</script>
</main>
</body>
</html>
"#;

/// The page that waits for the browser to come over QUIC. It names the port
/// there, where one is served.
pub fn interstitial(port: Option<u16>) -> (r: String)
    ensures
        r@ == INTERSTITIAL_HEAD@ + (match port {
            Some(p) => decimal_nat(p as nat),
            None => Seq::empty(),
        }) + INTERSTITIAL_TAIL@,
{
    let mut out: String = INTERSTITIAL_HEAD.to_owned();
    match port {
        Some(p) => {
            push_decimal(&mut out, p as u64);
        },
        None => {},
    }
    push_text(&mut out, INTERSTITIAL_TAIL);
    assert(out@ =~= INTERSTITIAL_HEAD@ + (match port {
        Some(p) => decimal_nat(p as nat),
        None => Seq::empty(),
    }) + INTERSTITIAL_TAIL@);
    out
}

/// What a request over QUIC is.
#[derive(Debug, Clone, Copy, PartialEq, Eq, Structural)]
pub enum QuicRequest {
    /// It starts a session.
    Session,
    /// It would, but its origin may not: it is forbidden.
    Forbidden,
    /// It asks for a page.
    Page,
}

/// What a request over QUIC is, given whether it connects for WebTransport and
/// whether its origin may.
pub fn quic_request(connects: bool, for_webtransport: bool, origin_allowed: bool) -> (r: QuicRequest)
    ensures
        r == (if !(connects && for_webtransport) {
            QuicRequest::Page
        } else if origin_allowed {
            QuicRequest::Session
        } else {
            QuicRequest::Forbidden
        }),
{
    if !(connects && for_webtransport) {
        QuicRequest::Page
    } else if origin_allowed {
        QuicRequest::Session
    } else {
        QuicRequest::Forbidden
    }
}

/// Why a file of the server's identity is refused.
#[derive(Debug, Clone, Copy, PartialEq, Eq, Structural)]
pub enum IdentityFault {
    /// The file is too large.
    TooLarge,
    /// The file must be mode 0600 or stricter.
    Exposed,
    /// The chain holds no certificate.
    NoCertificate,
    /// The chain holds too many.
    TooManyCertificates,
    /// The chain is malformed.
    MalformedChain,
    /// There is no private key, or it is malformed.
    MalformedKey,
}

/// Checks a file of the server's identity: its size, and that nobody but its
/// owner can read or write it where it is private.
pub fn check_identity_file(len: u64, maximum: u64, private: bool, mode: u32) -> (r: Result<
    (),
    IdentityFault,
>)
    ensures
        r == (if len > maximum {
            Err::<(), IdentityFault>(IdentityFault::TooLarge)
        } else if private && mode % 64 != 0 {
            Err(IdentityFault::Exposed)
        } else {
            Ok(())
        }),
{
    if len > maximum {
        return Err(IdentityFault::TooLarge);
    }
    if private && mode % 64 != 0 {
        return Err(IdentityFault::Exposed);
    }
    Ok(())
}

/// The identity that the server shows, and the hash by which its certificate can be
/// trusted.
pub struct ConfiguredTls {
    pub certificates: Vec<Vec<u8>>,
    pub private_key: PrivateKey,
    pub hash: [u8; 32],
}

/// What the files of the server's identity are worth: the chain must hold some
/// certificates, but not too many, and there must be a key.
pub open spec fn identity_checked(chain: Seq<Option<Seq<u8>>>, key: Option<KeyView>) -> Result<
    (Seq<Seq<u8>>, KeyView),
    IdentityFault,
> {
    if !all_read(chain) {
        Err(IdentityFault::MalformedChain)
    } else if chain.len() == 0 {
        Err(IdentityFault::NoCertificate)
    } else if chain.len() > MAX_CERTIFICATES {
        Err(IdentityFault::TooManyCertificates)
    } else {
        match key {
            None => Err(IdentityFault::MalformedKey),
            Some(key) => Ok((whole(chain), key)),
        }
    }
}

/// Whether an identity is what a check came to, with the hash of its first
/// certificate.
pub open spec fn identity_is(
    checked: Result<(Seq<Seq<u8>>, KeyView), IdentityFault>,
    r: Result<ConfiguredTls, IdentityFault>,
) -> bool {
    match checked {
        Err(fault) => r matches Err(e) && e == fault,
        Ok((certificates, key)) => {
            &&& r matches Ok(tls)
            &&& byte_views(tls.certificates@) == certificates
            &&& tls.private_key@ == key
            &&& tls.hash@ == sha256(certificates[0])
        },
    }
}

/// Checks what the files of the server's identity hold.
pub fn check_identity(chain: Vec<Option<Vec<u8>>>, key: Option<PrivateKey>) -> (r: Result<
    ConfiguredTls,
    IdentityFault,
>)
    ensures
        identity_is(identity_checked(item_views(chain@), key_view(key)), r),
{
    let certificates: Vec<Vec<u8>> = match take_all(chain) {
        Some(list) => list,
        None => {
            return Err(IdentityFault::MalformedChain);
        },
    };
    if certificates.len() == 0 {
        return Err(IdentityFault::NoCertificate);
    }
    if certificates.len() > MAX_CERTIFICATES {
        return Err(IdentityFault::TooManyCertificates);
    }
    let hash: [u8; 32] = sha256_digest(certificates[0].as_slice());
    assert(byte_views(certificates@)[0] == certificates@[0]@);
    match key {
        Some(private_key) => Ok(ConfiguredTls { certificates, private_key, hash }),
        None => Err(IdentityFault::MalformedKey),
    }
}

/// Reads the server's identity from what its files hold.
pub fn load_configured_tls(certificate_pem: &[u8], private_key_pem: &[u8]) -> (r: Result<
    ConfiguredTls,
    IdentityFault,
>)
    ensures
        identity_is(
            identity_checked(pem_certificates(certificate_pem@), pem_key(private_key_pem@)),
            r,
        ),
{
    check_identity(read_certificates(certificate_pem), read_key(private_key_pem))
}

/// The earliest and the latest second that a date can show, since 1970.
pub const EARLIEST_DATE_S: i64 = -377_705_116_800;

pub const LATEST_DATE_S: i64 = 253_402_300_799;

/// How long before now a certificate for development is valid, for clocks that are
/// slow.
pub const DEVELOPMENT_SLACK_S: i64 = 3_600;

/// How long from now on a certificate for development is valid.
pub const DEVELOPMENT_VALIDITY_S: i64 = 1_123_200;

/// The longest that a certificate may be valid which is trusted by its hash.
pub const HASH_PIN_CEILING_S: i64 = 1_209_600;

/// A certificate for development, which the server makes for itself.
#[derive(Debug, Clone, PartialEq, Eq)]
pub struct DevelopmentCertificate {
    pub names: Vec<String>,
    pub not_before_s: i64,
    pub not_after_s: i64,
}

/// What a certificate for development says, made at a time in seconds since 1970.
pub fn development_certificate(now_s: i64) -> (r: DevelopmentCertificate)
    requires
        EARLIEST_DATE_S + DEVELOPMENT_SLACK_S <= now_s <= LATEST_DATE_S - DEVELOPMENT_VALIDITY_S,
    ensures
        texts(r.names@) == seq!["localhost"@, "127.0.0.1"@, "::1"@],
        r.not_before_s == now_s - DEVELOPMENT_SLACK_S,
        r.not_after_s == now_s + DEVELOPMENT_VALIDITY_S,
        r.not_after_s - r.not_before_s < HASH_PIN_CEILING_S,
{
    let mut names: Vec<String> = Vec::new();
    names.push("localhost".to_owned());
    names.push("127.0.0.1".to_owned());
    names.push("::1".to_owned());
    assert(texts(names@) =~= seq!["localhost"@, "127.0.0.1"@, "::1"@]);
    DevelopmentCertificate {
        names,
        not_before_s: now_s - DEVELOPMENT_SLACK_S,
        not_after_s: now_s + DEVELOPMENT_VALIDITY_S,
    }
}

/// The server shows that it is alive twice before the limit of a peer that still
/// enforces half a minute, and twice before its own.
pub proof fn one_lost_ping_is_survived(peer_idle_ms: u64)
    requires
        peer_idle_ms >= 30_000,
    ensures
        2 * KEEP_ALIVE_INTERVAL_MS < peer_idle_ms,
        2 * KEEP_ALIVE_INTERVAL_MS < MAX_IDLE_TIMEOUT_MS,
{
}

} // verus!
