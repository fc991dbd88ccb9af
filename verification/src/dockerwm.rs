//! Handing a link to a desktop application that runs on this machine. The
//! application leaves a short-lived file that says where it listens and with which
//! token; a link is handed over by one HTTP request.

use vstd::prelude::*;
use vstd::string::*;
use vstd::utf8::*;

use crate::bytes::{
    append_bytes, copy_bytes, copy_range, pieces, pieces_not_empty, same_bytes, split_bytes,
};
use crate::hex::{all_hex, is_all_hex};
use crate::json::{
    json_object, number_field, number_held, object_read, raw_views, read_object, text_field,
    text_held, write_object, JsonValue, JsonView, RawField,
};
use crate::text::{decimal_nat, push_decimal, push_text, same, utf8_text};

verus! {

/// The largest file that is read.
pub const DESCRIPTOR_BYTES_MAX: u64 = 4096;

/// The longest response that is read.
pub const RESPONSE_BYTES_MAX: usize = 4096;

/// The longest link.
pub const URL_BYTES_MAX: usize = 2048;

/// How long the token is, in hexadecimal digits.
pub const TOKEN_HEX_BYTES: usize = 64;

/// How long connecting may take.
pub const CONNECT_TIMEOUT_MS: u64 = 350;

/// How long reading or writing may take.
pub const IO_TIMEOUT_MS: u64 = 2_000;

/// Why a link is not handed over.
#[derive(Debug, Clone, PartialEq, Eq)]
pub enum HandoffError {
    UrlTooLong,
    /// Only web links are handed over.
    UrlScheme,
    /// The file is too large, or none.
    NotABoundedFile,
    /// Others than its owner can use the file.
    PermissionsTooBroad,
    /// The file cannot be read as what it should be.
    Unreadable,
    /// What the file says is out of bounds.
    Invalid,
    ResponseTooLarge,
    /// The application said no.
    Rejected { status: String },
}

/// A byte of a letter, in lower case.
pub open spec fn lower(b: u8) -> u8 {
    if 65 <= b <= 90 {
        (b + 32) as u8
    } else {
        b
    }
}

/// Whether some bytes start with others, whatever the case of their letters.
pub open spec fn starts_with_any_case(b: Seq<u8>, start: Seq<u8>) -> bool {
    start.len() <= b.len() && forall|i: int|
        0 <= i < start.len() ==> lower(#[trigger] b[i]) == start[i]
}

/// What is wrong with a link.
pub open spec fn url_fault(url: Seq<u8>) -> Option<HandoffError> {
    if url.len() > URL_BYTES_MAX {
        Some(HandoffError::UrlTooLong)
    } else if !starts_with_any_case(url, encode_utf8("https://"@)) && !starts_with_any_case(
        url,
        encode_utf8("http://"@),
    ) {
        Some(HandoffError::UrlScheme)
    } else {
        None
    }
}

fn starts_any_case(b: &[u8], start: &[u8]) -> (r: bool)
    ensures
        r == starts_with_any_case(b@, start@),
{
    if b.len() < start.len() {
        return false;
    }
    let mut i: usize = 0;
    while i < start.len()
        invariant
            i <= start.len() <= b.len(),
            forall|k: int| 0 <= k < i ==> lower(#[trigger] b@[k]) == start@[k],
        decreases start.len() - i,
    {
        let c: u8 = if 65 <= b[i] && b[i] <= 90 {
            b[i] + 32
        } else {
            b[i]
        };
        if c != start[i] {
            assert(lower(b@[i as int]) != start@[i as int]);
            return false;
        }
        i = i + 1;
    }
    true
}

/// Checks a link: it is not too long, and it is one of the web.
pub fn checked_url(url: &str) -> (r: Result<(), HandoffError>)
    ensures
        r is Ok <==> url_fault(url.spec_bytes()) is None,
        r matches Err(e) ==> url_fault(url.spec_bytes()) == Some(e),
{
    let raw: &[u8] = url.as_bytes();
    if raw.len() > URL_BYTES_MAX {
        return Err(HandoffError::UrlTooLong);
    }
    if !starts_any_case(raw, "https://".as_bytes()) && !starts_any_case(raw, "http://".as_bytes()) {
        return Err(HandoffError::UrlScheme);
    }
    Ok(())
}

/// Checks the file before it is read: its kind, its size and who can use it.
pub fn check_descriptor_file(is_file: bool, len: u64, mode: Option<u32>) -> (r: Result<
    (),
    HandoffError,
>)
    ensures
        r == (if !is_file || len > DESCRIPTOR_BYTES_MAX {
            Err::<(), HandoffError>(HandoffError::NotABoundedFile)
        } else if mode matches Some(m) && m % 64 != 0 {
            Err(HandoffError::PermissionsTooBroad)
        } else {
            Ok(())
        }),
{
    if !is_file || len > DESCRIPTOR_BYTES_MAX {
        return Err(HandoffError::NotABoundedFile);
    }
    match mode {
        Some(m) => {
            if m % 64 != 0 {
                return Err(HandoffError::PermissionsTooBroad);
            }
        },
        None => {},
    }
    Ok(())
}

/// Where the application listens, and with which token.
#[derive(Debug, Clone, PartialEq, Eq)]
pub struct Descriptor {
    pub port: u16,
    pub token: String,
}

/// The fields that a file must hold.
pub struct DescriptorFields {
    pub version: int,
    pub address: Seq<char>,
    pub port: int,
    pub token: Seq<char>,
    pub pid: int,
}

/// A number within bounds that stands under a key.
pub open spec fn number_within(fields: Seq<RawField>, key: Seq<char>, max: int) -> Option<int> {
    match number_held(fields, key) {
        Some(n) => if 0 <= n <= max {
            Some(n as int)
        } else {
            None
        },
        None => None,
    }
}

/// The fields that an array in a file holds, all of them in order.
pub uninterp spec fn fields_in_array(text: Seq<u8>) -> Option<DescriptorFields>;

/// Wraps `serde_json::from_slice` into a tuple: the fields that an array holds, all
/// of them in order and nothing else. What they are is a function of the text.
#[verifier::external_body]
fn array_fields(text: &[u8]) -> (r: Option<(u8, String, u16, String, u32)>)
    ensures
        r is Some <==> fields_in_array(text@) is Some,
        r matches Some((version, address, port, token, pid)) ==> fields_in_array(text@) == Some(
            DescriptorFields {
                version: version as int,
                address: address@,
                port: port as int,
                token: token@,
                pid: pid as int,
            },
        ),
{
    serde_json::from_slice(text).ok()
}

/// The fields that a file holds, where it holds all of them, as an array or as an
/// object.
pub open spec fn descriptor_fields(text: Seq<u8>) -> Option<DescriptorFields> {
    match fields_in_array(text) {
        Some(fields) => Some(fields),
        None => match object_read(text) {
            Some(fields) => fields_in_object(fields),
            None => None,
        },
    }
}

/// The fields that an object in a file holds, each of them once. Others do not matter.
pub open spec fn fields_in_object(fields: Seq<RawField>) -> Option<DescriptorFields> {
    match (
        number_within(fields, "version"@, 255),
        text_held(fields, "address"@),
        number_within(fields, "port"@, 65_535),
        text_held(fields, "token"@),
        number_within(fields, "pid"@, 4_294_967_295),
    ) {
        (Some(version), Some(address), Some(port), Some(token), Some(pid)) => Some(
            DescriptorFields { version, address, port, token, pid },
        ),
        _ => None,
    }
}

/// Whether the fields of a file are within bounds.
pub open spec fn fields_fit(f: DescriptorFields) -> bool {
    &&& f.version == 1
    &&& f.address == "127.0.0.1"@
    &&& f.port != 0
    &&& encode_utf8(f.token).len() == TOKEN_HEX_BYTES
    &&& all_hex(encode_utf8(f.token))
}

fn find_number(fields: &Vec<(String, Vec<u8>)>, key: &str, max: i64) -> (r: Option<i64>)
    ensures
        r is Some <==> number_within(raw_views(fields@), key@, max as int) is Some,
        r matches Some(n) ==> number_within(raw_views(fields@), key@, max as int) == Some(n as int)
            && 0 <= n <= max,
{
    match number_field(fields, key) {
        Some(n) => if 0 <= n && n <= max {
            Some(n)
        } else {
            None
        },
        None => None,
    }
}

/// Checks what a file says.
pub fn check_descriptor(version: i64, address: &str, port: i64, token: String, pid: i64) -> (r: Result<
    Descriptor,
    HandoffError,
>)
    requires
        0 <= port <= 65_535,
    ensures
        r is Ok <==> fields_fit(
            DescriptorFields {
                version: version as int,
                address: address@,
                port: port as int,
                token: token@,
                pid: pid as int,
            },
        ),
        r matches Ok(d) ==> d.port == port && d.token == token,
        r matches Err(e) ==> e == HandoffError::Invalid,
{
    if version != 1 || !same(address, "127.0.0.1") || port == 0 {
        return Err(HandoffError::Invalid);
    }
    let raw: &[u8] = token.as_str().as_bytes();
    if raw.len() != TOKEN_HEX_BYTES || !is_all_hex(raw) {
        return Err(HandoffError::Invalid);
    }
    Ok(Descriptor { port: port as u16, token })
}

/// Where the application listens, from what its file says.
pub fn parse_descriptor(raw: &[u8]) -> (r: Result<Descriptor, HandoffError>)
    ensures
        match descriptor_fields(raw@) {
            None => r == Err::<Descriptor, HandoffError>(HandoffError::Unreadable),
            Some(f) => if fields_fit(f) {
                r matches Ok(d) && d.port == f.port && d.token@ == f.token
            } else {
                r == Err::<Descriptor, HandoffError>(HandoffError::Invalid)
            },
        },
{
    if let Some((version, address, port, token, pid)) = array_fields(raw) {
        return check_descriptor(version as i64, address.as_str(), port as i64, token, pid as i64);
    }
    let fields: Vec<(String, Vec<u8>)> = match read_object(raw) {
        Some(fields) => fields,
        None => {
            return Err(HandoffError::Unreadable);
        },
    };
    let version: Option<i64> = find_number(&fields, "version", 255);
    let address: Option<String> = text_field(&fields, "address");
    let port: Option<i64> = find_number(&fields, "port", 65_535);
    let token: Option<String> = text_field(&fields, "token");
    let pid: Option<i64> = find_number(&fields, "pid", 4_294_967_295);
    match (version, address, port, token, pid) {
        (Some(version), Some(address), Some(port), Some(token), Some(pid)) => {
            check_descriptor(version, address.as_str(), port, token, pid)
        },
        _ => Err(HandoffError::Unreadable),
    }
}

/// The body of the request: the link as JSON.
pub open spec fn body_text(url: Seq<char>) -> Seq<char> {
    json_object(seq![("url"@, JsonView::Text(url))])
}

/// The head of the request.
pub open spec fn head_text(port: u16, token: Seq<char>, body_len: nat) -> Seq<char> {
    "POST /v1/open HTTP/1.1\r\nHost: 127.0.0.1:"@ + decimal_nat(port as nat)
        + "\r\nAuthorization: Bearer "@ + token
        + "\r\nContent-Type: application/json\r\nContent-Length: "@ + decimal_nat(body_len)
        + "\r\nConnection: close\r\n\r\n"@
}

/// The request that hands over a link.
pub open spec fn request_bytes(descriptor: Descriptor, url: Seq<char>) -> Seq<u8> {
    let body = encode_utf8(body_text(url));
    encode_utf8(head_text(descriptor.port, descriptor.token@, body.len())) + body
}

/// The request that hands over a link.
pub fn handoff_request(descriptor: &Descriptor, url: &str) -> (r: Vec<u8>)
    ensures
        r@ == request_bytes(*descriptor, url@),
{
    let mut fields: Vec<(String, JsonValue)> = Vec::new();
    fields.push(("url".to_owned(), JsonValue::Text(url.to_owned())));
    assert(crate::json::fields_view(fields@) =~= seq![("url"@, JsonView::Text(url@))]);
    let body: String = write_object(&fields);
    let body: &[u8] = body.as_str().as_bytes();
    let mut head: String = "POST /v1/open HTTP/1.1\r\nHost: 127.0.0.1:".to_owned();
    push_decimal(&mut head, descriptor.port as u64);
    push_text(&mut head, "\r\nAuthorization: Bearer ");
    push_text(&mut head, descriptor.token.as_str());
    push_text(&mut head, "\r\nContent-Type: application/json\r\nContent-Length: ");
    push_decimal(&mut head, body.len() as u64);
    push_text(&mut head, "\r\nConnection: close\r\n\r\n");
    assert(head@ =~= head_text(descriptor.port, descriptor.token@, body@.len()));
    let mut out: Vec<u8> = copy_bytes(head.as_str().as_bytes());
    append_bytes(&mut out, body);
    out
}

/// What handing over a link comes to.
#[derive(Debug, Clone, PartialEq, Eq)]
pub enum Handoff {
    /// The application does not run.
    NotRunning,
    /// Send a request to a port of this machine; an application that cannot be
    /// reached does not run.
    Send { port: u16, request: Vec<u8> },
}

/// What handing over a link comes to, given what the application's file says, if
/// there is one.
pub fn open_in_running_desktop(url: &str, descriptor: Option<&[u8]>) -> (r: Result<
    Handoff,
    HandoffError,
>)
    ensures
        match url_fault(url.spec_bytes()) {
            Some(fault) => r == Err::<Handoff, HandoffError>(fault),
            None => match descriptor {
                None => r == Ok::<Handoff, HandoffError>(Handoff::NotRunning),
                Some(raw) => match descriptor_fields(raw@) {
                    None => r == Err::<Handoff, HandoffError>(HandoffError::Unreadable),
                    Some(f) => if fields_fit(f) {
                        r matches Ok(Handoff::Send { port, request }) && port == f.port && exists|
                            d: Descriptor,
                        |
                            d.port == f.port && d.token@ == f.token && request@
                                == #[trigger] request_bytes(d, url@)
                    } else {
                        r == Err::<Handoff, HandoffError>(HandoffError::Invalid)
                    },
                },
            },
        },
{
    checked_url(url)?;
    match descriptor {
        None => Ok(Handoff::NotRunning),
        Some(raw) => match parse_descriptor(raw) {
            Ok(d) => {
                let request: Vec<u8> = handoff_request(&d, url);
                Ok(Handoff::Send { port: d.port, request })
            },
            Err(e) => Err(e),
        },
    }
}

/// Takes another piece of the response, unless it gets too long.
pub fn read_response(response: &mut Vec<u8>, chunk: &[u8]) -> (r: Result<(), HandoffError>)
    requires
        old(response)@.len() <= RESPONSE_BYTES_MAX,
    ensures
        final(response)@.len() <= RESPONSE_BYTES_MAX,
        r is Ok <==> old(response)@.len() + chunk@.len() <= RESPONSE_BYTES_MAX,
        r is Ok ==> final(response)@ == old(response)@ + chunk@,
        r matches Err(e) ==> e == HandoffError::ResponseTooLarge && final(response)@ == old(
            response,
        )@,
{
    if chunk.len() > RESPONSE_BYTES_MAX - response.len() {
        return Err(HandoffError::ResponseTooLarge);
    }
    append_bytes(response, chunk);
    Ok(())
}

/// The first line of a response; nothing where it is no text.
pub open spec fn status_line(response: Seq<u8>) -> Seq<u8> {
    let line = pieces(response, 10)[0];
    if valid_utf8(line) {
        line
    } else {
        Seq::empty()
    }
}

/// Whether the first line of a response says that the link was taken.
pub open spec fn is_accepted(status: Seq<u8>) -> bool {
    encode_utf8("HTTP/1.1 200 "@).is_prefix_of(status) || encode_utf8(
        "HTTP/1.0 200 "@,
    ).is_prefix_of(status)
}

/// A line without the carriage returns at its end.
pub open spec fn without_returns(line: Seq<u8>) -> Seq<u8>
    decreases line.len(),
{
    if line.len() > 0 && line.last() == 13 {
        without_returns(line.drop_last())
    } else {
        line
    }
}

fn has_prefix(b: &[u8], start: &[u8]) -> (r: bool)
    ensures
        r == start@.is_prefix_of(b@),
{
    if b.len() < start.len() {
        return false;
    }
    let head: Vec<u8> = copy_range(b, 0, start.len());
    let r: bool = same_bytes(head.as_slice(), start);
    proof {
        assert(head@ =~= b@.subrange(0, start@.len() as int));
        if r {
            assert forall|i: int| 0 <= i < start@.len() implies b@[i] == start@[i] by {
                assert(head@[i] == b@[i]);
            }
        }
    }
    r
}

/// Judges a response: whether the link was taken, or with which status it was
/// not.
pub fn judge_response(response: &[u8]) -> (r: Result<(), HandoffError>)
    ensures
        r is Ok <==> is_accepted(status_line(response@)),
        r matches Err(e) ==> (e matches HandoffError::Rejected { status } && encode_utf8(status@)
            == without_returns(status_line(response@))),
{
    let lines: Vec<Vec<u8>> = split_bytes(response, 10);
    proof {
        pieces_not_empty(response@, 10);
        assert(crate::bytes::byte_views(lines@)[0] == lines@[0]@);
    }
    let line: &Vec<u8> = &lines[0];
    assert(line@ == pieces(response@, 10)[0]);
    if utf8_text(line.as_slice()).is_none() {
        proof {
            let empty = Seq::<u8>::empty();
            literal_sizes();
            assert(status_line(response@) == empty);
            assert(without_returns(empty) == empty);
        }
        let status: String = String::new();
        assert(encode_utf8(status@) =~= Seq::<u8>::empty()) by {
            assert(status@ =~= Seq::<char>::empty());
        }
        return Err(HandoffError::Rejected { status });
    }
    assert(status_line(response@) == line@);
    if has_prefix(line.as_slice(), "HTTP/1.1 200 ".as_bytes()) || has_prefix(
        line.as_slice(),
        "HTTP/1.0 200 ".as_bytes(),
    ) {
        return Ok(());
    }
    let mut n: usize = line.len();
    assert(line@.take(n as int) =~= line@);
    while n > 0 && line[n - 1] == 13
        invariant
            n <= line@.len(),
            valid_utf8(line@),
            valid_utf8(line@.take(n as int)),
            without_returns(line@) == without_returns(line@.take(n as int)),
        decreases n,
    {
        proof {
            let part = line@.take(n as int);
            assert(part.last() == 13);
            assert(part.drop_last() =~= line@.take(n - 1));
            ends_in_ascii(part);
        }
        n = n - 1;
    }
    let kept: Vec<u8> = copy_range(line.as_slice(), 0, n);
    assert(kept@ =~= line@.take(n as int));
    proof {
        if n > 0 {
            assert(kept@.last() == line@[n - 1]);
        }
        decode_utf8_encode_utf8(kept@);
    }
    match utf8_text(kept.as_slice()) {
        Some(status) => Err(HandoffError::Rejected { status }),
        None => Err(HandoffError::Rejected { status: String::new() }),
    }
}

/// The two lines that accept are not empty.
proof fn literal_sizes()
    ensures
        encode_utf8("HTTP/1.1 200 "@).len() > 0,
        encode_utf8("HTTP/1.0 200 "@).len() > 0,
{
    reveal_strlit("HTTP/1.1 200 ");
    reveal_strlit("HTTP/1.0 200 ");
    assert(is_ascii_chars("HTTP/1.1 200 "@));
    assert(is_ascii_chars("HTTP/1.0 200 "@));
    is_ascii_chars_encode_utf8("HTTP/1.1 200 "@);
    is_ascii_chars_encode_utf8("HTTP/1.0 200 "@);
}

/// Text that ends in an ASCII byte is still text without it.
proof fn ends_in_ascii(b: Seq<u8>)
    requires
        valid_utf8(b),
        b.len() > 0,
        b.last() < 128,
    ensures
        valid_utf8(b.drop_last()),
{
    let n = b.len() - 1;
    is_char_boundary_iff_is_leading_byte(b, n as int);
    valid_utf8_split(b, n as int);
    assert(b.subrange(0, n as int) =~= b.drop_last());
}

} // verus!
