//! Laws of the pages that are served, and of the identity that serves them.

use vstd::prelude::*;
use vstd::string::*;
use vstd::utf8::*;

use crate::base64::encoded;
use crate::bytes::pieces;
use crate::daemon::sha256;
use crate::pem::PrivateKey;
use crate::text::{decimal_nat, texts};
use crate::web::{
    check_identity, check_identity_file, content_type_for, development_certificate, file_looked_up,
    file_read, info_json, interstitial, load_configured_tls, quic_request, resolve_static_path, serve_h3_request,
    transport_info, ConfiguredTls, DevelopmentCertificate, IdentityFault, Method, QuicRequest,
    RequestStep, Response, Status, WebTransportCertificateMode, WebTransportInfo,
};

verus! {

/// Each stretch of a path between slashes is one of its parts: the last one where it
/// ends the path, an earlier one where it does not.
proof fn stretches_are_parts(b: Seq<u8>, i: int, j: int) -> (k: int)
    requires
        0 <= i <= j <= b.len(),
        i == 0 || b[i - 1] == 47,
        j == b.len() || b[j] == 47,
        forall|n: int| i <= n < j ==> #[trigger] b[n] != 47,
    ensures
        0 <= k < pieces(b, 47).len(),
        pieces(b, 47)[k] == b.subrange(i, j),
        j == b.len() ==> k == pieces(b, 47).len() - 1,
        j < b.len() ==> k < pieces(b, 47).len() - 1,
    decreases b.len(),
{
    crate::bytes::pieces_not_empty(b, 47);
    if b.len() == 0 {
        assert(b.subrange(i, j) =~= Seq::empty());
        0
    } else {
        let a = b.drop_last();
        crate::bytes::pieces_not_empty(a, 47);
        if j == b.len() {
            if i == j {
                assert(b.last() == 47);
                assert(b.subrange(i, j) =~= Seq::empty());
                pieces(b, 47).len() - 1
            } else {
                assert(b[b.len() - 1] != 47);
                let k = stretches_are_parts(a, i, j - 1);
                assert(a.subrange(i, j - 1).push(b.last()) =~= b.subrange(i, j));
                pieces(b, 47).len() - 1
            }
        } else {
            let k = stretches_are_parts(a, i, j);
            assert(a.subrange(i, j) =~= b.subrange(i, j));
            k
        }
    }
}

/// The name of a path's last part, where it is neither empty nor made of dots.
proof fn names_end_paths(path: Seq<u8>, i: int)
    requires
        0 <= i < path.len(),
        i == 0 || path[i - 1] == 47,
        forall|n: int| i <= n < path.len() ==> #[trigger] path[n] != 47,
        path.subrange(i, path.len() as int) != seq![46u8],
        path.subrange(i, path.len() as int) != seq![46u8, 46u8],
    ensures
        crate::web::file_name(pieces(path, 47)) == Some(path.subrange(i, path.len() as int)),
{
    let k = stretches_are_parts(path, i, path.len() as int);
}

proof fn last_dots_are_last(name: Seq<u8>, at: int)
    requires
        0 <= at < name.len(),
        name[at] == 46,
        forall|n: int| at < n < name.len() ==> #[trigger] name[n] != 46,
    ensures
        crate::web::last_dot(name) == at,
    decreases name.len(),
{
    if at < name.len() - 1 {
        assert(name[name.len() - 1] != 46);
        last_dots_are_last(name.drop_last(), at);
    }
}

/// Whether some bytes hold a stretch between slashes that is two dots.
pub open spec fn climbs(rel: Seq<u8>) -> bool {
    exists|i: int|
        0 <= i < rel.len() - 1 && #[trigger] rel[i] == 46 && rel[i + 1] == 46 && (i == 0 || rel[i
            - 1] == 47) && (i + 2 == rel.len() || rel[i + 2] == 47)
}

/// Whatever a request names, the file lies below the served directory: what follows it is
/// the request's path without its slash, which never climbs.
pub proof fn files_stay_below_the_root(root: &str, path: &str, r: Option<Vec<u8>>)
    requires
        call_ensures(resolve_static_path, (root, path), r),
    ensures
        r matches Some(file) ==> {
            let p = path.spec_bytes();
            let base = root.spec_bytes();
            let rel = if p.len() == 1 {
                encode_utf8("index.html"@)
            } else {
                p.skip(1)
            };
            &&& 0 < p.len() <= 1_024
            &&& p[0] == 47
            &&& !p.contains(37)
            &&& !p.contains(92)
            &&& !climbs(rel)
            &&& rel.len() > 0 && rel[0] != 47
            &&& base.len() > 0 && base.last() != 47 ==> file@ == base + seq![47u8] + rel
            &&& base.len() == 0 || base.last() == 47 ==> file@ == base + rel
        },
{
    if r is Some {
        let p = path.spec_bytes();
        let rel = crate::web::requested(p);
        if climbs(rel) {
            let i = choose|i: int|
                0 <= i < rel.len() - 1 && #[trigger] rel[i] == 46 && rel[i + 1] == 46 && (i == 0
                    || rel[i - 1] == 47) && (i + 2 == rel.len() || rel[i + 2] == 47);
            let k = stretches_are_parts(rel, i, i + 2);
            assert(rel.subrange(i, i + 2) =~= seq![46u8, 46u8]);
            assert(pieces(rel, 47)[k] == crate::web::dot_dot());
            assert(false);
        }
    }
}

/// A short path of plain names, each with a slash before it, names its file.
pub proof fn plain_paths_name_files(root: &str, path: &str, r: Option<Vec<u8>>)
    requires
        call_ensures(resolve_static_path, (root, path), r),
        1 < path.spec_bytes().len() <= 1_024,
        path.spec_bytes()[0] == 47,
        path.spec_bytes()[1] != 47,
        forall|i: int|
            0 <= i < path.spec_bytes().len() ==> (#[trigger] path.spec_bytes()[i]) != 37
                && path.spec_bytes()[i] != 92 && path.spec_bytes()[i] != 46,
    ensures
        r is Some,
{
    let rel = path.spec_bytes().skip(1);
    assert forall|i: int| 0 <= i < rel.len() implies #[trigger] rel[i] != 46 by {
        assert(rel[i] == path.spec_bytes()[i + 1]);
    }
    no_dots_in_parts(rel);
    crate::bytes::pieces_not_empty(rel, 47);
}

proof fn no_dots_in_parts(b: Seq<u8>)
    requires
        forall|i: int| 0 <= i < b.len() ==> #[trigger] b[i] != 46,
    ensures
        forall|k: int, n: int|
            0 <= k < pieces(b, 47).len() && 0 <= n < pieces(b, 47)[k].len() ==> #[trigger] pieces(
                b,
                47,
            )[k][n] != 46,
        forall|k: int|
            0 <= k < pieces(b, 47).len() ==> #[trigger] pieces(b, 47)[k] != seq![46u8]
                && pieces(b, 47)[k] != seq![46u8, 46u8],
    decreases b.len(),
{
    if b.len() > 0 {
        let before = pieces(b.drop_last(), 47);
        no_dots_in_parts(b.drop_last());
        crate::bytes::pieces_not_empty(b.drop_last(), 47);
        assert(b[b.len() - 1] != 46);
        assert forall|k: int, n: int|
            0 <= k < pieces(b, 47).len()
                && 0 <= n < pieces(b, 47)[k].len() implies #[trigger] pieces(
            b,
            47,
        )[k][n] != 46 by {
            if k < before.len() - 1 || b.last() == 47 && k < before.len() {
                assert(pieces(b, 47)[k] == before[k]);
                assert(before[k][n] != 46);
            } else if b.last() != 47 {
                assert(pieces(b, 47)[k] == before.last().push(b.last()));
                if n < before.last().len() {
                    assert(before[before.len() - 1][n] != 46);
                }
            }
        }
    }
    assert forall|k: int| 0 <= k < pieces(b, 47).len() implies #[trigger] pieces(b, 47)[k]
        != seq![46u8] && pieces(b, 47)[k] != seq![46u8, 46u8] by {
        let part = pieces(b, 47)[k];
        if b.len() == 0 {
            assert(part.len() == 0);
        } else if part == seq![46u8] || part == seq![46u8, 46u8] {
            assert(part[0] == 46);
            assert(pieces(b, 47)[k][0] != 46);
        }
    }
}

proof fn same_bytes_same_text(a: Seq<char>, b: Seq<char>)
    requires
        encode_utf8(a) == encode_utf8(b),
    ensures
        a == b,
{
    encode_utf8_decode_utf8(a);
    encode_utf8_decode_utf8(b);
}

/// The content type that a text after a file's last full stop stands for.
pub open spec fn stands_for(ext: Seq<char>, kind: Seq<char>) -> bool {
    &&& ext == "html"@ ==> kind == "text/html; charset=utf-8"@
    &&& ext == "js"@ ==> kind == "text/javascript"@
    &&& ext == "css"@ ==> kind == "text/css"@
    &&& ext == "json"@ ==> kind == "application/json"@
    &&& ext == "map"@ ==> kind == "application/json"@
    &&& ext == "wasm"@ ==> kind == "application/wasm"@
    &&& ext == "svg"@ ==> kind == "image/svg+xml"@
    &&& ext == "png"@ ==> kind == "image/png"@
    &&& ext == "ico"@ ==> kind == "image/x-icon"@
    &&& ext == "woff2"@ ==> kind == "font/woff2"@
    &&& ext == "txt"@ ==> kind == "text/plain; charset=utf-8"@
    &&& ext == "exe"@ ==> kind == "application/octet-stream"@
}

proof fn extensions_differ()
    ensures
        forall|a: Seq<char>, b: Seq<char>| #[trigger] encode_utf8(a) == #[trigger] encode_utf8(b)
            ==> a == b,
        "html"@.len() == 4 && "html"@[0] == 'h',
        "js"@.len() == 2,
        "css"@.len() == 3 && "css"@[0] == 'c',
        "json"@.len() == 4 && "json"@[0] == 'j',
        "map"@.len() == 3 && "map"@[0] == 'm',
        "wasm"@.len() == 4 && "wasm"@[0] == 'w',
        "svg"@.len() == 3 && "svg"@[0] == 's',
        "png"@.len() == 3 && "png"@[0] == 'p',
        "ico"@.len() == 3 && "ico"@[0] == 'i',
        "woff2"@.len() == 5,
        "txt"@.len() == 3 && "txt"@[0] == 't',
        "exe"@.len() == 3 && "exe"@[0] == 'e',
{
    assert forall|a: Seq<char>, b: Seq<char>| #[trigger] encode_utf8(a) == #[trigger] encode_utf8(
        b,
    ) implies a == b by {
        same_bytes_same_text(a, b);
    }
    reveal_strlit("html");
    reveal_strlit("js");
    reveal_strlit("css");
    reveal_strlit("json");
    reveal_strlit("map");
    reveal_strlit("wasm");
    reveal_strlit("svg");
    reveal_strlit("png");
    reveal_strlit("ico");
    reveal_strlit("woff2");
    reveal_strlit("txt");
    reveal_strlit("exe");
}

/// A file's content type goes by what follows the last full stop of its name.
pub proof fn content_types_go_by_extension(
    path: &[u8],
    r: &'static str,
    dir: Seq<u8>,
    stem: Seq<u8>,
    ext: Seq<char>,
)
    requires
        call_ensures(content_type_for, (path,), r),
        path@ == dir + stem + seq![46u8] + encode_utf8(ext),
        dir.len() == 0 || dir.last() == 47,
        stem.len() > 0,
        forall|i: int| 0 <= i < stem.len() ==> #[trigger] stem[i] != 47,
        encode_utf8(ext).len() > 0,
        forall|i: int|
            0 <= i < encode_utf8(ext).len() ==> (#[trigger] encode_utf8(ext)[i]) != 47
                && encode_utf8(ext)[i] != 46,
    ensures
        stands_for(ext, r@),
{
    let tail = encode_utf8(ext);
    let name = stem + seq![46u8] + tail;
    let i = dir.len() as int;
    let n = path@.len() as int;
    assert(path@.subrange(i, n) =~= name);
    assert forall|k: int| i <= k < n implies #[trigger] path@[k] != 47 by {
        assert(path@[k] == name[k - i]);
        if k - i < stem.len() {
            assert(name[k - i] == stem[k - i]);
        } else if k - i > stem.len() {
            assert(name[k - i] == tail[k - i - stem.len() - 1]);
        }
    }
    assert(name.len() > 2);
    names_end_paths(path@, i);
    assert forall|k: int| stem.len() < k < name.len() implies #[trigger] name[k] != 46 by {
        assert(name[k] == tail[k - stem.len() - 1]);
    }
    last_dots_are_last(name, stem.len() as int);
    assert(name.skip((stem.len() + 1) as int) =~= tail);
    extensions_differ();
}

/// A name without a full stop, or with one at its start alone, has no extension.
pub proof fn other_files_are_bytes(path: &[u8], r: &'static str)
    requires
        call_ensures(content_type_for, (path,), r),
        path@.len() > 0,
        forall|i: int| 0 <= i < path@.len() ==> #[trigger] path@[i] != 47,
        forall|i: int| 0 < i < path@.len() ==> #[trigger] path@[i] != 46,
    ensures
        r@ == "application/octet-stream"@,
{
    let n = path@.len() as int;
    assert(path@.subrange(0, n) =~= path@);
    let k = stretches_are_parts(path@, 0, n);
    no_late_dots(path@);
    if path@ != seq![46u8] {
        assert(path@ != seq![46u8, 46u8]) by {
            if path@ == seq![46u8, 46u8] {
                assert(path@[1] == 46);
            }
        }
        names_end_paths(path@, 0);
    } else {
        one_part(path@);
        assert(pieces(path@, 47).drop_last() =~= Seq::empty());
        assert(crate::web::file_name(pieces(path@, 47)) is None) by {
            reveal_with_fuel(crate::web::file_name, 2);
        }
    }
}

proof fn one_part(b: Seq<u8>)
    requires
        forall|i: int| 0 <= i < b.len() ==> #[trigger] b[i] != 47,
    ensures
        pieces(b, 47).len() == 1,
    decreases b.len(),
{
    if b.len() > 0 {
        assert(b[b.len() - 1] != 47);
        one_part(b.drop_last());
    }
}

proof fn no_late_dots(name: Seq<u8>)
    requires
        forall|i: int| 0 < i < name.len() ==> #[trigger] name[i] != 46,
    ensures
        crate::web::last_dot(name) <= 0,
    decreases name.len(),
{
    if name.len() > 1 {
        assert(name[name.len() - 1] != 46);
        no_late_dots(name.drop_last());
    } else if name.len() == 1 {
        no_late_dots(name.drop_last());
    }
}

/// Whether a response is one, and sends its body where that was asked for and there is
/// one.
pub open spec fn answers(
    r: Response,
    method: Method,
    status: Status,
    content_type: Seq<char>,
    body: Seq<u8>,
) -> bool {
    &&& r.status == status
    &&& r.content_type@ == content_type
    &&& r.body@ == body
    &&& r.send_body <==> method is Get && body.len() > 0
}

/// Only reading is allowed; the page's information is at its path, everything else is a
/// file, and what is no file is not found.
pub proof fn requests_are_answered(
    method: Method,
    path: &str,
    info: Option<&WebTransportInfo>,
    password_auth: bool,
    root: Option<&str>,
    step: RequestStep,
    named: Option<Vec<u8>>,
    said: String,
)
    requires
        call_ensures(serve_h3_request, (method, path, info, password_auth, root), step),
        root is Some ==> call_ensures(resolve_static_path, (root->0, path), named),
        root is None ==> named is None,
        info is Some ==> call_ensures(info_json, (info->0, password_auth), said),
    ensures
        ({
            let plain = "text/plain; charset=utf-8"@;
            let asks_info = path.spec_bytes() == encode_utf8("/webtransport-info"@);
            &&& method is Other ==> (step matches RequestStep::Respond(r) && answers(
                r,
                method,
                Status::MethodNotAllowed,
                plain,
                encode_utf8("method not allowed"@),
            ))
            &&& !(method is Other) && asks_info && info is Some ==> (
            step matches RequestStep::Respond(r) && answers(
                r,
                method,
                Status::Success,
                "application/json"@,
                encode_utf8(said@),
            ))
            &&& !(method is Other) && asks_info && info is None ==> (
            step matches RequestStep::Respond(r) && answers(
                r,
                method,
                Status::NotFound,
                plain,
                encode_utf8("webtransport disabled"@),
            ))
            &&& !(method is Other) && !asks_info && named is Some ==> (
            step matches RequestStep::LookUp { file } && file@ == named->0@)
            &&& !(method is Other) && !asks_info && named is None ==> (
            step matches RequestStep::Respond(r) && answers(
                r,
                method,
                Status::NotFound,
                plain,
                encode_utf8("not found"@),
            ))
        }),
{
}

/// A file of up to sixteen mebibytes is served with its content; what is no file, or is
/// larger, is not found.
pub proof fn files_are_served_whole(
    method: Method,
    found: Option<(bool, u64)>,
    looked: Result<(), Response>,
    file: &[u8],
    content: Vec<u8>,
    r: Response,
    kind: &'static str,
)
    requires
        call_ensures(file_looked_up, (method, found), looked),
        call_ensures(file_read, (method, file, content), r),
        call_ensures(content_type_for, (file,), kind),
    ensures
        looked is Ok <==> (found matches Some((is_file, len)) && is_file && len <= 16_777_216),
        looked matches Err(e) ==> answers(
            e,
            method,
            Status::NotFound,
            "text/plain; charset=utf-8"@,
            encode_utf8("not found"@),
        ),
        answers(r, method, Status::Success, kind@, content@),
{
}

/// Pages learn the port, the hash of the certificate that is shown, how it is trusted,
/// and whether passwords are taken.
pub proof fn pages_learn_of_the_transport(
    port: u16,
    certificate: &[u8],
    mode: WebTransportCertificateMode,
    info: WebTransportInfo,
    password_auth: bool,
    r: String,
)
    requires
        call_ensures(transport_info, (port, certificate, mode), info),
        call_ensures(info_json, (&info, password_auth), r),
    ensures
        info.port == port,
        info.mode == mode,
        info.cert_hash_base64@ == encoded(sha256(certificate@), false, true),
        r@ == "{\"port\":"@ + decimal_nat(port as nat) + ",\"certHashBase64\":\""@ + encoded(
            sha256(certificate@),
            false,
            true,
        ) + "\",\"certificateMode\":\""@ + (if mode is WebPki {
            "webpki"@
        } else {
            "hash-pin"@
        }) + "\",\"passwordAuth\":"@ + (if password_auth {
            "true"@
        } else {
            "false"@
        }) + "}"@,
{
}

/// Over QUIC only a connection for WebTransport from an origin that may starts a session.
pub proof fn sessions_need_their_origin(
    connects: bool,
    for_webtransport: bool,
    allowed: bool,
    r: QuicRequest,
)
    requires
        call_ensures(quic_request, (connects, for_webtransport, allowed), r),
    ensures
        r == QuicRequest::Session <==> connects && for_webtransport && allowed,
        r == QuicRequest::Forbidden <==> connects && for_webtransport && !allowed,
        r == QuicRequest::Page <==> !connects || !for_webtransport,
{
}

/// The page that waits names the port where there is one; two ports give two pages that
/// differ only there.
pub proof fn waiting_pages_name_the_port(port: u16, r: String, none: String)
    requires
        call_ensures(interstitial, (Some(port),), r),
        call_ensures(interstitial, (None::<u16>,), none),
    ensures
        r@.len() == none@.len() + decimal_nat(port as nat).len(),
        exists|at: int|
            0 <= at <= none@.len() && r@ == #[trigger] none@.take(at) + decimal_nat(port as nat)
                + none@.skip(at),
{
    let head = crate::web::INTERSTITIAL_HEAD@;
    let tail = crate::web::INTERSTITIAL_TAIL@;
    let at = head.len() as int;
    assert(none@ =~= head + tail);
    assert(none@.take(at) =~= head);
    assert(none@.skip(at) =~= tail);
    assert(r@ =~= none@.take(at) + decimal_nat(port as nat) + none@.skip(at));
}

/// A file of the server's identity is refused where it is too large, and a private one
/// where others than its owner can get at it.
pub proof fn identity_files_are_bounded_and_private(
    len: u64,
    maximum: u64,
    private: bool,
    mode: u32,
    r: Result<(), IdentityFault>,
)
    requires
        call_ensures(check_identity_file, (len, maximum, private, mode), r),
    ensures
        len > maximum ==> r == Err::<(), IdentityFault>(IdentityFault::TooLarge),
        len <= maximum && private && mode % 64 != 0 ==> r == Err::<(), IdentityFault>(
            IdentityFault::Exposed,
        ),
        len <= maximum && (!private || mode % 64 == 0) ==> r is Ok,
{
}

/// An identity is one to eight certificates that were all read, and a key; it is trusted
/// by the hash of its first certificate.
pub proof fn identities_are_checked(
    chain: Vec<Option<Vec<u8>>>,
    key: Option<PrivateKey>,
    r: Result<ConfiguredTls, IdentityFault>,
    i: int,
)
    requires
        call_ensures(check_identity, (chain, key), r),
        0 <= i < chain@.len() || chain@.len() == 0,
    ensures
        chain@.len() == 0 ==> (r matches Err(e) && e == IdentityFault::NoCertificate),
        chain@.len() > 0 && chain@[i] is None ==> (r matches Err(e) && e
            == IdentityFault::MalformedChain),
        chain@.len() > 8 && (forall|k: int|
            0 <= k < chain@.len() ==> (#[trigger] chain@[k]) is Some) ==> (r matches Err(e) && e
            == IdentityFault::TooManyCertificates),
        0 < chain@.len() <= 8 && (forall|k: int|
            0 <= k < chain@.len() ==> (#[trigger] chain@[k]) is Some) && key is None ==> (
        r matches Err(e) && e == IdentityFault::MalformedKey),
        0 < chain@.len() <= 8 && (forall|k: int|
            0 <= k < chain@.len() ==> (#[trigger] chain@[k]) is Some) && key is Some ==> r is Ok,
        r matches Ok(tls) ==> {
            &&& key is Some
            &&& 0 < chain@.len() <= 8
            &&& tls.certificates@.len() == chain@.len()
            &&& chain@[i] is Some
            &&& tls.certificates@[i]@ == chain@[i]->0@
            &&& tls.private_key.format == key->0.format
            &&& tls.private_key.der@ == key->0.der@
            &&& tls.hash@ == sha256(chain@[0]->0@)
        },
{
    let items = crate::pem::item_views(chain@);
    assert(items.len() == chain@.len());
    assert forall|k: int| 0 <= k < chain@.len() implies (#[trigger] items[k] is Some
        <==> chain@[k] is Some) by {}
    assert(forall|k: int| 0 <= k < items.len() ==> items[k] == crate::pem::item_view(chain@[k]));
    if forall|k: int| 0 <= k < chain@.len() ==> (#[trigger] chain@[k]) is Some {
        assert(crate::pem::all_read(items));
    }
    if r is Ok {
        let views = crate::bytes::byte_views(r->Ok_0.certificates@);
        let all = crate::pem::whole(items);
        assert(views == all);
        assert(views.len() == r->Ok_0.certificates@.len());
        assert(views[i] == r->Ok_0.certificates@[i]@);
        assert(all[i] == items[i]->0);
        assert(all[0] == items[0]->0);
        assert(items[0] is Some && items[i] is Some);
    }
}

/// A certificate for development is for this machine alone, valid from an hour before to
/// thirteen days after it was made.
pub proof fn development_certificates_are_short(now_s: i64, r: DevelopmentCertificate)
    requires
        call_ensures(development_certificate, (now_s,), r),
    ensures
        r.names@.len() == 3,
        r.names@[0]@ == "localhost"@,
        r.names@[1]@ == "127.0.0.1"@,
        r.names@[2]@ == "::1"@,
        r.not_before_s == now_s - 3_600,
        r.not_after_s == now_s + 13 * 86_400,
{
    let names = texts(r.names@);
    assert(names.len() == 3);
    assert(names[0] == r.names@[0]@);
    assert(names[1] == r.names@[1]@);
    assert(names[2] == r.names@[2]@);
}

/// The files of an identity are worth what they hold: one to eight certificates, and a
/// key.
pub proof fn identities_are_loaded_from_their_files(
    chain_pem: &[u8],
    key_pem: &[u8],
    r: Result<ConfiguredTls, IdentityFault>,
    mode: WebTransportCertificateMode,
    name: &'static str,
    i: int,
)
    requires
        call_ensures(load_configured_tls, (chain_pem, key_pem), r),
        call_ensures(WebTransportCertificateMode::as_wire_name, (mode,), name),
    ensures
        ({
            let chain = crate::pem::pem_certificates(chain_pem@);
            let key = crate::pem::pem_key(key_pem@);
            &&& chain.len() == 0 ==> (r matches Err(e) && e == IdentityFault::NoCertificate)
            &&& 0 <= i < chain.len() && chain[i] is None ==> (r matches Err(e) && e
                == IdentityFault::MalformedChain)
            &&& chain.len() > 8 ==> r is Err
            &&& key is None ==> r is Err
            &&& r matches Ok(tls) ==> {
                &&& 0 < chain.len() <= 8
                &&& tls.certificates@.len() == chain.len()
                &&& 0 <= i < chain.len() ==> Some(tls.certificates@[i]@) == chain[i]
                &&& Some(tls.private_key@) == key
                &&& tls.hash@ == sha256(tls.certificates@[0]@)
            }
        }),
        mode == WebTransportCertificateMode::WebPki ==> name@ == "webpki"@,
        mode == WebTransportCertificateMode::DevelopmentHashPin ==> name@ == "hash-pin"@,
{
    let chain = crate::pem::pem_certificates(chain_pem@);
    match r {
        Ok(tls) => {
            let views = crate::bytes::byte_views(tls.certificates@);
            let all = crate::pem::whole(chain);
            assert(views == all);
            assert(views.len() == tls.certificates@.len());
            assert(views[0] == tls.certificates@[0]@);
            if 0 <= i < chain.len() {
                assert(views[i] == tls.certificates@[i]@);
                assert(all[i] == chain[i]->0);
                assert(chain[i] is Some);
            }
        },
        Err(_) => {},
    }
}

} // verus!
