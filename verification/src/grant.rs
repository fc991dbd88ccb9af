//! Connection grants: signed claims that a verifier checks without asking their
//! issuer.
//!
//! A grant is the URL-safe base64 of its claims as a JSON object, a full stop,
//! and the URL-safe base64 of the ed25519 signature over that JSON.

use ed25519_dalek::{Signer, SigningKey, Verifier, VerifyingKey};
use vstd::prelude::*;
use vstd::string::*;
use vstd::utf8::*;

use crate::base64::{encoded, encoded_has_no_dot, encoded_injective, url_safe_bytes, url_safe_text};
use crate::chance::random_32;
use crate::json::{
    distinct_keys, distinct_keys_hold, fields_view, json_object, list_field, list_held, number_field,
    number_held, object_read, raw_fields, read_object, text_field, text_held, write_object,
    written_for, JsonValue, JsonView, RawField,
};
use crate::text::{
    among, contains, copy_list, same, split_first, split_once, splits_at_first, texts, utf8_text,
};

verus! {

/// How far a verifier's clock may be behind its issuer's, in milliseconds.
pub const CLOCK_SKEW_MS: i64 = 60_000;

/// Why a grant is refused.
#[derive(Debug, Clone, PartialEq, Eq)]
pub enum GrantError {
    /// The token, its base64, its signature's length or its JSON is malformed.
    Malformed,
    /// The signature does not match the claims.
    BadSignature,
    /// The grant is for another audience.
    WrongAudience { found: String, expected: String },
    /// The grant's time has run out.
    Expired { expires_at_ms: i64, now_ms: i64 },
    /// The grant was issued in the future.
    NotYetValid { issued_at_ms: i64, now_ms: i64 },
}

/// What a [`GrantError`] says.
pub enum GrantErrorView {
    Malformed,
    BadSignature,
    WrongAudience { found: Seq<char>, expected: Seq<char> },
    Expired { expires_at_ms: i64, now_ms: i64 },
    NotYetValid { issued_at_ms: i64, now_ms: i64 },
}

impl View for GrantError {
    type V = GrantErrorView;

    open spec fn view(&self) -> GrantErrorView {
        match self {
            GrantError::Malformed => GrantErrorView::Malformed,
            GrantError::BadSignature => GrantErrorView::BadSignature,
            GrantError::WrongAudience { found, expected } => GrantErrorView::WrongAudience {
                found: found@,
                expected: expected@,
            },
            GrantError::Expired { expires_at_ms, now_ms } => GrantErrorView::Expired {
                expires_at_ms: *expires_at_ms,
                now_ms: *now_ms,
            },
            GrantError::NotYetValid { issued_at_ms, now_ms } => GrantErrorView::NotYetValid {
                issued_at_ms: *issued_at_ms,
                now_ms: *now_ms,
            },
        }
    }
}

/// What a grant says. The field names are the JSON keys.
#[derive(Debug, Clone, PartialEq, Eq)]
pub struct GrantClaims {
    /// The authenticated user.
    pub sub: String,
    /// The gateway or daemon that the grant is bound to.
    pub aud: String,
    /// The servers that may be used; empty stands for the issuer's own.
    pub servers: Vec<String>,
    /// The operations that are allowed; empty stands for all.
    pub ops: Vec<String>,
    /// When the grant was issued, in milliseconds since the epoch.
    pub iat_ms: i64,
    /// When the grant runs out, in milliseconds since the epoch.
    pub exp_ms: i64,
    /// The grant's own identifier.
    pub jti: String,
}

/// What [`GrantClaims`] hold.
pub struct ClaimsView {
    pub sub: Seq<char>,
    pub aud: Seq<char>,
    pub servers: Seq<Seq<char>>,
    pub ops: Seq<Seq<char>>,
    pub iat_ms: i64,
    pub exp_ms: i64,
    pub jti: Seq<char>,
}

impl View for GrantClaims {
    type V = ClaimsView;

    open spec fn view(&self) -> ClaimsView {
        ClaimsView {
            sub: self.sub@,
            aud: self.aud@,
            servers: texts(self.servers@),
            ops: texts(self.ops@),
            iat_ms: self.iat_ms,
            exp_ms: self.exp_ms,
            jti: self.jti@,
        }
    }
}

impl ClaimsView {
    /// Whether the claims allow an operation: they name it, or name none.
    pub open spec fn permits(self, op: Seq<char>) -> bool {
        self.ops.len() == 0 || self.ops.contains(op)
    }
}

/// A list of texts holds a text as its views do.
pub proof fn among_is_contains(list: Seq<String>, needle: Seq<char>)
    ensures
        among(list, needle) == texts(list).contains(needle),
{
    if among(list, needle) {
        let i = choose|i: int| 0 <= i < list.len() && (#[trigger] list[i])@ == needle;
        assert(texts(list)[i] == needle);
    }
    if texts(list).contains(needle) {
        let i = choose|i: int| 0 <= i < texts(list).len() && texts(list)[i] == needle;
        assert(list[i]@ == needle);
    }
}

impl GrantClaims {
    /// Whether the claims allow an operation.
    pub fn permits(&self, op: &str) -> (r: bool)
        ensures
            r == self@.permits(op@),
    {
        proof {
            among_is_contains(self.ops@, op@);
        }
        self.ops.len() == 0 || contains(&self.ops, op)
    }
}

/// The ed25519 public key that belongs to a secret key.
pub uninterp spec fn ed25519_public(secret: Seq<u8>) -> Seq<u8>;

/// Whether thirty-two bytes are the encoding of an ed25519 public key.
pub uninterp spec fn ed25519_is_key(public: Seq<u8>) -> bool;

/// The ed25519 signature of a message under a secret key.
pub uninterp spec fn ed25519_signature(secret: Seq<u8>, message: Seq<u8>) -> Seq<u8>;

/// Whether ed25519 accepts a signature of a message under a public key.
pub uninterp spec fn ed25519_accepts(
    public: Seq<u8>,
    message: Seq<u8>,
    signature: Seq<u8>,
) -> bool;

/// Wraps `SigningKey::from_bytes` and `SigningKey::verifying_key`: the public
/// key of a secret one, which is the encoding of a key.
#[verifier::external_body]
fn public_key(secret: &[u8; 32]) -> (r: [u8; 32])
    ensures
        r@ == ed25519_public(secret@),
        ed25519_is_key(r@),
{
    SigningKey::from_bytes(secret).verifying_key().to_bytes()
}

/// Wraps `VerifyingKey::from_bytes`: whether the bytes encode a key.
#[verifier::external_body]
fn is_key(public: &[u8; 32]) -> (r: bool)
    ensures
        r == ed25519_is_key(public@),
{
    VerifyingKey::from_bytes(public).is_ok()
}

/// Wraps `Signer::sign` of a `SigningKey`: a signature of sixty-four bytes,
/// always the same for the same key and message.
#[verifier::external_body]
fn sign(secret: &[u8; 32], message: &[u8]) -> (r: [u8; 64])
    ensures
        r@ == ed25519_signature(secret@, message@),
{
    SigningKey::from_bytes(secret).sign(message).to_bytes()
}

/// Wraps `Verifier::verify` of a `VerifyingKey`: whether the signature is
/// accepted, as every signature is that the matching secret key made.
#[verifier::external_body]
fn accepts(public: &[u8; 32], message: &[u8], signature: &[u8; 64]) -> (r: bool)
    ensures
        r == ed25519_accepts(public@, message@, signature@),
        forall|secret: Seq<u8>|
            secret.len() == 32 && public@ == #[trigger] ed25519_public(secret) && signature@
                == ed25519_signature(secret, message@) ==> r,
{
    let signature = ed25519_dalek::Signature::from_bytes(signature);
    VerifyingKey::from_bytes(public).is_ok_and(|key| key.verify(message, &signature).is_ok())
}

/// The fields of claims, in the order in which they are written.
pub open spec fn claims_fields(c: ClaimsView) -> Seq<(Seq<char>, JsonView)> {
    seq![
        ("sub"@, JsonView::Text(c.sub)),
        ("aud"@, JsonView::Text(c.aud)),
        ("servers"@, JsonView::List(c.servers)),
        ("ops"@, JsonView::List(c.ops)),
        ("iat_ms"@, JsonView::Number(c.iat_ms)),
        ("exp_ms"@, JsonView::Number(c.exp_ms)),
        ("jti"@, JsonView::Text(c.jti)),
    ]
}

/// The bytes that are signed for claims.
pub open spec fn claims_payload(c: ClaimsView) -> Seq<u8> {
    encode_utf8(json_object(claims_fields(c)))
}

/// The token that carries a payload and its signature.
pub open spec fn token(payload: Seq<u8>, signature: Seq<u8>) -> Seq<char> {
    encoded(payload, true, false) + seq!['.'] + encoded(signature, true, false)
}

/// The grant that the holder of a secret key issues for claims.
pub open spec fn issued(secret: Seq<u8>, c: ClaimsView) -> Seq<char> {
    token(claims_payload(c), ed25519_signature(secret, claims_payload(c)))
}

/// Proves that no two of the claims' keys are the same.
proof fn keys_are_distinct(c: ClaimsView)
    ensures
        distinct_keys(claims_fields(c)),
{
    reveal_strlit("sub");
    reveal_strlit("aud");
    reveal_strlit("servers");
    reveal_strlit("ops");
    reveal_strlit("iat_ms");
    reveal_strlit("exp_ms");
    reveal_strlit("jti");
    assert("sub"@[0] != "aud"@[0]);
    assert("sub"@.len() != "servers"@.len());
    assert("sub"@[0] != "ops"@[0]);
    assert("sub"@[0] != "jti"@[0]);
    assert("aud"@[0] != "ops"@[0]);
    assert("aud"@[0] != "jti"@[0]);
    assert("ops"@[0] != "jti"@[0]);
    assert("iat_ms"@[0] != "exp_ms"@[0]);
}

/// The claims that an array in a payload spells, which holds all of them in order.
pub uninterp spec fn claims_in_array(payload: Seq<u8>) -> Option<ClaimsView>;

/// Wraps `serde_json::from_slice` into a tuple: the claims that an array spells,
/// which holds all of them in order and nothing else. What they are is a function of
/// the payload. An object is no array.
#[verifier::external_body]
fn array_claims(payload: &[u8]) -> (r: Option<GrantClaims>)
    ensures
        r is Some <==> claims_in_array(payload@) is Some,
        r matches Some(c) ==> claims_in_array(payload@) == Some(c@),
        forall|fields: Seq<(Seq<char>, JsonView)>|
            payload@ == encode_utf8(#[trigger] json_object(fields)) ==> r is None,
{
    let (sub, aud, servers, ops, iat_ms, exp_ms, jti) = serde_json::from_slice(payload).ok()?;
    Some(GrantClaims { sub, aud, servers, ops, iat_ms, exp_ms, jti })
}

/// The claims that a payload spells: as an array, or as an object.
pub open spec fn claims_read(payload: Seq<u8>) -> Option<ClaimsView> {
    match claims_in_array(payload) {
        Some(claims) => Some(claims),
        None => match object_read(payload) {
            Some(fields) => claims_in_fields(fields),
            None => None,
        },
    }
}

/// The claims that the fields of an object spell. There are none where a field is
/// missing, of the wrong type or there twice; the two lists may be missing, and are
/// then empty. Other fields do not matter.
pub open spec fn claims_in_fields(fields: Seq<RawField>) -> Option<ClaimsView> {
    match (
        text_held(fields, "sub"@),
        text_held(fields, "aud"@),
        list_held(fields, "servers"@),
        list_held(fields, "ops"@),
        number_held(fields, "iat_ms"@),
        number_held(fields, "exp_ms"@),
        text_held(fields, "jti"@),
    ) {
        (
            Some(sub),
            Some(aud),
            Some(servers),
            Some(ops),
            Some(iat_ms),
            Some(exp_ms),
            Some(jti),
        ) => Some(ClaimsView { sub, aud, servers, ops, iat_ms, exp_ms, jti }),
        _ => None,
    }
}

/// Reads the claims that a payload spells. What was written for claims reads as
/// those claims.
fn read_claims(payload: &[u8]) -> (r: Option<GrantClaims>)
    ensures
        r matches Some(c) ==> claims_read(payload@) == Some(c@),
        r is None ==> claims_read(payload@) is None,
        forall|c: ClaimsView| payload@ == #[trigger] claims_payload(c) ==> claims_read(payload@) == Some(c),
{
    let listed: Option<GrantClaims> = array_claims(payload);
    let fields: Option<Vec<(String, Vec<u8>)>> = read_object(payload);
    assert forall|c: ClaimsView| payload@ == #[trigger] claims_payload(c) implies listed is None
        && object_read(payload@) == Some(raw_fields(claims_fields(c))) by {
        assert(payload@ == encode_utf8(json_object(claims_fields(c))));
        assert(written_for(payload@, claims_fields(c)));
    }
    if listed.is_some() {
        return listed;
    }
    let fields: Vec<(String, Vec<u8>)> = match fields {
        Some(fields) => fields,
        None => {
            return None;
        },
    };
    let sub: Option<String> = text_field(&fields, "sub");
    let aud: Option<String> = text_field(&fields, "aud");
    let servers: Option<Vec<String>> = list_field(&fields, "servers");
    let ops: Option<Vec<String>> = list_field(&fields, "ops");
    let iat_ms: Option<i64> = number_field(&fields, "iat_ms");
    let exp_ms: Option<i64> = number_field(&fields, "exp_ms");
    let jti: Option<String> = text_field(&fields, "jti");
    assert forall|c: ClaimsView| payload@ == #[trigger] claims_payload(c) implies claims_read(payload@) == Some(c) by {
        let written = claims_fields(c);
        keys_are_distinct(c);
        distinct_keys_hold(written, 0);
        distinct_keys_hold(written, 1);
        distinct_keys_hold(written, 2);
        distinct_keys_hold(written, 3);
        distinct_keys_hold(written, 4);
        distinct_keys_hold(written, 5);
        distinct_keys_hold(written, 6);
    }
    match (sub, aud, servers, ops, iat_ms, exp_ms, jti) {
        (Some(sub), Some(aud), Some(servers), Some(ops), Some(iat_ms), Some(exp_ms), Some(jti)) => {
            Some(GrantClaims { sub, aud, servers, ops, iat_ms, exp_ms, jti })
        },
        _ => None,
    }
}

/// What claims are worth to a verifier of an audience at a time.
pub open spec fn claims_checked(c: ClaimsView, audience: Seq<char>, now_ms: i64) -> Result<
    ClaimsView,
    GrantErrorView,
> {
    if c.aud != audience {
        Err(GrantErrorView::WrongAudience { found: c.aud, expected: audience })
    } else if now_ms >= c.exp_ms {
        Err(GrantErrorView::Expired { expires_at_ms: c.exp_ms, now_ms })
    } else if now_ms + CLOCK_SKEW_MS < c.iat_ms {
        Err(GrantErrorView::NotYetValid { issued_at_ms: c.iat_ms, now_ms })
    } else {
        Ok(c)
    }
}

/// What a check came to.
pub open spec fn verdict(r: Result<GrantClaims, GrantError>) -> Result<ClaimsView, GrantErrorView> {
    match r {
        Ok(claims) => Ok(claims@),
        Err(e) => Err(e@),
    }
}

/// What a token is worth to the verifier that holds a public key.
pub open spec fn grant_checked(
    public: Seq<u8>,
    grant: Seq<char>,
    audience: Seq<char>,
    now_ms: i64,
) -> Result<ClaimsView, GrantErrorView> {
    if exists|payload: Seq<u8>, signature: Seq<u8>|
        signature.len() == 64 && grant == #[trigger] token(payload, signature) {
        let (payload, signature) = choose|payload: Seq<u8>, signature: Seq<u8>|
            signature.len() == 64 && grant == #[trigger] token(payload, signature);
        if !ed25519_accepts(public, payload, signature) {
            Err(GrantErrorView::BadSignature)
        } else {
            match claims_read(payload) {
                None => Err(GrantErrorView::Malformed),
                Some(c) => claims_checked(c, audience, now_ms),
            }
        }
    } else {
        Err(GrantErrorView::Malformed)
    }
}

/// Two tokens are the same only where their payloads and signatures are.
pub proof fn token_injective(p: Seq<u8>, s: Seq<u8>, q: Seq<u8>, t: Seq<u8>)
    requires
        token(p, s) == token(q, t),
    ensures
        p == q,
        s == t,
{
    encoded_has_no_dot(p, true, false);
    encoded_has_no_dot(q, true, false);
    splits_at_first(encoded(p, true, false), '.', encoded(s, true, false));
    splits_at_first(encoded(q, true, false), '.', encoded(t, true, false));
    encoded_injective(p, q, true, false);
    encoded_injective(s, t, true, false);
}

/// Holds the secret key: the issuer's side.
pub struct GrantSigner {
    secret: [u8; 32],
}

impl GrantSigner {
    /// The secret key.
    pub closed spec fn secret(&self) -> Seq<u8> {
        self.secret@
    }

    /// A signer with a fresh random key.
    pub fn generate() -> (r: GrantSigner)
        ensures
            r.secret().len() == 32,
    {
        GrantSigner { secret: random_32() }
    }

    /// The signer with a given key.
    pub fn from_bytes(secret: &[u8; 32]) -> (r: GrantSigner)
        ensures
            r.secret() == secret@,
    {
        GrantSigner { secret: *secret }
    }

    /// The verifier of this signer's grants.
    pub fn grant_verifier(&self) -> (r: GrantVerifier)
        ensures
            r.public() == ed25519_public(self.secret()),
            ed25519_is_key(r.public()),
    {
        GrantVerifier { public: public_key(&self.secret) }
    }

    /// Issues a grant for some claims.
    pub fn issue(&self, claims: &GrantClaims) -> (r: ConnectionGrant)
        ensures
            r@ == issued(self.secret(), claims@),
            ed25519_signature(self.secret(), claims_payload(claims@)).len() == 64,
            self.secret().len() == 32,
    {
        let mut fields: Vec<(String, JsonValue)> = Vec::new();
        fields.push(("sub".to_owned(), JsonValue::Text(claims.sub.clone())));
        fields.push(("aud".to_owned(), JsonValue::Text(claims.aud.clone())));
        fields.push(("servers".to_owned(), JsonValue::List(copy_list(&claims.servers))));
        fields.push(("ops".to_owned(), JsonValue::List(copy_list(&claims.ops))));
        fields.push(("iat_ms".to_owned(), JsonValue::Number(claims.iat_ms)));
        fields.push(("exp_ms".to_owned(), JsonValue::Number(claims.exp_ms)));
        fields.push(("jti".to_owned(), JsonValue::Text(claims.jti.clone())));
        assert(fields_view(fields@) =~= claims_fields(claims@));
        let json: String = write_object(&fields);
        let payload: &[u8] = json.as_str().as_bytes();
        let signature: [u8; 64] = sign(&self.secret, payload);
        let mut text: String = url_safe_text(payload);
        text.push('.');
        let tail: String = url_safe_text(signature.as_slice());
        text.append(tail.as_str());
        assert(text@ =~= token(payload@, signature@));
        ConnectionGrant(text)
    }
}

/// Holds the public key only: the verifier's side.
#[derive(Clone)]
pub struct GrantVerifier {
    public: [u8; 32],
}

impl GrantVerifier {
    /// The public key.
    pub closed spec fn public(&self) -> Seq<u8> {
        self.public@
    }

    /// The verifier with a given public key; `Malformed` where the bytes encode
    /// none.
    pub fn from_public_bytes(bytes: &[u8; 32]) -> (r: Result<GrantVerifier, GrantError>)
        ensures
            r is Ok <==> ed25519_is_key(bytes@),
            r matches Ok(v) ==> v.public() == bytes@,
            r matches Err(e) ==> e@ == GrantErrorView::Malformed,
    {
        if is_key(bytes) {
            Ok(GrantVerifier { public: *bytes })
        } else {
            Err(GrantError::Malformed)
        }
    }

    /// The public key's bytes.
    pub fn public_bytes(&self) -> (r: [u8; 32])
        ensures
            r@ == self.public(),
    {
        self.public
    }

    /// Checks a grant's signature, audience and time window, and hands out its
    /// claims. What the matching signer issued is judged by its claims alone.
    pub fn verify(&self, grant: &ConnectionGrant, expected_audience: &str, now_ms: i64) -> (r: Result<
        GrantClaims,
        GrantError,
    >)
        ensures
            verdict(r) == grant_checked(self.public(), grant@, expected_audience@, now_ms),
            forall|secret: Seq<u8>, c: ClaimsView|
                secret.len() == 32 && self.public() == ed25519_public(secret) && grant@
                    == #[trigger] issued(secret, c) && ed25519_signature(
                    secret,
                    claims_payload(c),
                ).len() == 64 ==> verdict(r) == claims_checked(c, expected_audience@, now_ms),
    {
        let ghost g = grant@;
        let (left, right): (String, String) = match split_once(grant.0.as_str(), '.') {
            Some(parts) => parts,
            None => {
                proof {
                    no_token_without_dot(g);
                }
                return Err(GrantError::Malformed);
            },
        };
        let payload: Vec<u8> = match url_safe_bytes(left.as_str()) {
            Some(bytes) => bytes,
            None => {
                proof {
                    no_token_with_sides(g, left@, right@);
                }
                return Err(GrantError::Malformed);
            },
        };
        let tail: Vec<u8> = match url_safe_bytes(right.as_str()) {
            Some(bytes) => bytes,
            None => {
                proof {
                    no_token_with_sides(g, left@, right@);
                }
                return Err(GrantError::Malformed);
            },
        };
        let signature: [u8; 64] = match sixty_four(tail.as_slice()) {
            Some(bytes) => bytes,
            None => {
                proof {
                    no_short_token(g, payload@, tail@, left@, right@);
                }
                return Err(GrantError::Malformed);
            },
        };
        proof {
            split_restores(g, left@, right@);
            assert(g == token(payload@, signature@));
            token_is_checked(self.public(), g, payload@, signature@, expected_audience@, now_ms);
        }
        let genuine: bool = accepts(&self.public, payload.as_slice(), &signature);
        assert forall|secret: Seq<u8>, c: ClaimsView|
            secret.len() == 32 && self.public() == ed25519_public(secret) && g == #[trigger] issued(
                secret,
                c,
            ) && ed25519_signature(secret, claims_payload(c)).len() == 64 implies genuine && payload@ == claims_payload(c) by {
            token_injective(
                payload@,
                signature@,
                claims_payload(c),
                ed25519_signature(secret, claims_payload(c)),
            );
        }
        if !genuine {
            return Err(GrantError::BadSignature);
        }
        match read_claims(payload.as_slice()) {
            Some(claims) => judge_claims(claims, expected_audience, now_ms),
            None => Err(GrantError::Malformed),
        }
    }
}

/// Checks claims that are signed: their audience and their time window.
pub fn judge_claims(claims: GrantClaims, expected_audience: &str, now_ms: i64) -> (r: Result<
    GrantClaims,
    GrantError,
>)
    ensures
        verdict(r) == claims_checked(claims@, expected_audience@, now_ms),
        r matches Ok(c) ==> c == claims,
{
    if !same(claims.aud.as_str(), expected_audience) {
        return Err(
            GrantError::WrongAudience {
                found: claims.aud,
                expected: expected_audience.to_owned(),
            },
        );
    }
    if now_ms >= claims.exp_ms {
        return Err(GrantError::Expired { expires_at_ms: claims.exp_ms, now_ms });
    }
    let latest: i64 = if now_ms > i64::MAX - CLOCK_SKEW_MS {
        i64::MAX
    } else {
        now_ms + CLOCK_SKEW_MS
    };
    if latest < claims.iat_ms {
        return Err(GrantError::NotYetValid { issued_at_ms: claims.iat_ms, now_ms });
    }
    Ok(claims)
}

/// The sixty-four bytes of a slice of that length.
fn sixty_four(bytes: &[u8]) -> (r: Option<[u8; 64]>)
    ensures
        r is Some <==> bytes@.len() == 64,
        r matches Some(a) ==> a@ == bytes@,
{
    if bytes.len() != 64 {
        return None;
    }
    let mut a: [u8; 64] = [0u8; 64];
    let mut i: usize = 0;
    while i < 64
        invariant
            i <= 64,
            bytes@.len() == 64,
            forall|k: int| 0 <= k < i ==> a@[k] == bytes@[k],
        decreases 64 - i,
    {
        a[i] = bytes[i];
        i = i + 1;
    }
    assert(a@ =~= bytes@);
    Some(a)
}

proof fn split_restores(s: Seq<char>, left: Seq<char>, right: Seq<char>)
    requires
        split_first(s, '.') == Some((left, right)),
    ensures
        s == left + seq!['.'] + right,
    decreases s.len(),
{
    if s[0] == '.' {
        assert(s =~= left + seq!['.'] + right);
    } else {
        let (before, after) = split_first(s.drop_first(), '.')->0;
        split_restores(s.drop_first(), before, after);
        assert(s =~= seq![s[0]] + s.drop_first());
        assert(s =~= left + seq!['.'] + right);
    }
}

proof fn token_splits(payload: Seq<u8>, signature: Seq<u8>)
    ensures
        split_first(token(payload, signature), '.') == Some(
            (encoded(payload, true, false), encoded(signature, true, false)),
        ),
{
    encoded_has_no_dot(payload, true, false);
    splits_at_first(encoded(payload, true, false), '.', encoded(signature, true, false));
}

proof fn no_token_without_dot(g: Seq<char>)
    requires
        split_first(g, '.') is None,
    ensures
        forall|payload: Seq<u8>, signature: Seq<u8>| g != #[trigger] token(payload, signature),
{
    assert forall|payload: Seq<u8>, signature: Seq<u8>| g != #[trigger] token(payload, signature) by {
        token_splits(payload, signature);
    }
}

proof fn no_token_with_sides(g: Seq<char>, left: Seq<char>, right: Seq<char>)
    requires
        split_first(g, '.') == Some((left, right)),
        (forall|b: Seq<u8>| left != #[trigger] encoded(b, true, false)) || (forall|b: Seq<u8>|
            right != #[trigger] encoded(b, true, false)),
    ensures
        forall|payload: Seq<u8>, signature: Seq<u8>| g != #[trigger] token(payload, signature),
{
    assert forall|payload: Seq<u8>, signature: Seq<u8>| g != #[trigger] token(payload, signature) by {
        token_splits(payload, signature);
    }
}

proof fn no_short_token(
    g: Seq<char>,
    p: Seq<u8>,
    s: Seq<u8>,
    left: Seq<char>,
    right: Seq<char>,
)
    requires
        split_first(g, '.') == Some((left, right)),
        left == encoded(p, true, false),
        right == encoded(s, true, false),
        s.len() != 64,
    ensures
        forall|payload: Seq<u8>, signature: Seq<u8>|
            signature.len() == 64 ==> g != #[trigger] token(payload, signature),
{
    split_restores(g, left, right);
    assert forall|payload: Seq<u8>, signature: Seq<u8>| signature.len() == 64 implies g
        != #[trigger] token(payload, signature) by {
        if g == token(payload, signature) {
            token_injective(p, s, payload, signature);
        }
    }
}

/// A token is checked on the payload and the signature that it carries.
pub proof fn token_is_checked(
    public: Seq<u8>,
    grant: Seq<char>,
    payload: Seq<u8>,
    signature: Seq<u8>,
    audience: Seq<char>,
    now_ms: i64,
)
    requires
        grant == token(payload, signature),
        signature.len() == 64,
    ensures
        grant_checked(public, grant, audience, now_ms) == (if !ed25519_accepts(
            public,
            payload,
            signature,
        ) {
            Err::<ClaimsView, GrantErrorView>(GrantErrorView::BadSignature)
        } else {
            match claims_read(payload) {
                None => Err(GrantErrorView::Malformed),
                Some(c) => claims_checked(c, audience, now_ms),
            }
        }),
{
    let (p, s) = choose|p: Seq<u8>, s: Seq<u8>| s.len() == 64 && grant == #[trigger] token(p, s);
    token_injective(p, s, payload, signature);
}

/// The opaque token as it crosses the wire.
#[derive(Debug, Clone, PartialEq, Eq)]
pub struct ConnectionGrant(pub String);

impl View for ConnectionGrant {
    type V = Seq<char>;

    open spec fn view(&self) -> Seq<char> {
        self.0@
    }
}

impl ConnectionGrant {
    /// The token's bytes.
    pub fn as_bytes(&self) -> (r: &[u8])
        ensures
            r@ == encode_utf8(self@),
    {
        self.0.as_str().as_bytes()
    }

    /// The token that some bytes spell; `Malformed` where they are no UTF-8.
    pub fn from_wire(bytes: &[u8]) -> (r: Result<ConnectionGrant, GrantError>)
        ensures
            r is Ok <==> valid_utf8(bytes@),
            r matches Ok(g) ==> g@ == decode_utf8(bytes@),
            r matches Err(e) ==> e@ == GrantErrorView::Malformed,
    {
        match utf8_text(bytes) {
            Some(s) => Ok(ConnectionGrant(s)),
            None => Err(GrantError::Malformed),
        }
    }
}

/// A token that crossed the wire is the token that was sent.
pub proof fn grant_survives_the_wire(grant: Seq<char>)
    ensures
        valid_utf8(encode_utf8(grant)),
        decode_utf8(encode_utf8(grant)) == grant,
{
    encode_utf8_valid_utf8(grant);
    encode_utf8_decode_utf8(grant);
}

/// Claims pass a check exactly for their own audience and inside their window,
/// and the first of the three tests that fails is reported.
pub proof fn checked_claims_are_current(c: ClaimsView, audience: Seq<char>, now_ms: i64)
    ensures
        claims_checked(c, audience, now_ms) == Ok::<ClaimsView, GrantErrorView>(c) <==> c.aud
            == audience && now_ms < c.exp_ms && c.iat_ms <= now_ms + CLOCK_SKEW_MS,
        claims_checked(c, audience, now_ms) matches Err(GrantErrorView::WrongAudience { .. })
            <==> c.aud != audience,
        claims_checked(c, audience, now_ms) matches Err(GrantErrorView::Expired { .. }) <==> c.aud
            == audience && now_ms >= c.exp_ms,
        claims_checked(c, audience, now_ms) matches Err(GrantErrorView::NotYetValid { .. })
            <==> c.aud == audience && now_ms < c.exp_ms && c.iat_ms > now_ms + CLOCK_SKEW_MS,
{
}

/// No token that carries another signature than one that is accepted yields
/// claims, whatever the claims say.
pub proof fn forged_grants_are_refused(
    public: Seq<u8>,
    payload: Seq<u8>,
    signature: Seq<u8>,
    audience: Seq<char>,
    now_ms: i64,
)
    requires
        signature.len() == 64,
        !ed25519_accepts(public, payload, signature),
    ensures
        grant_checked(public, token(payload, signature), audience, now_ms) == Err::<
            ClaimsView,
            GrantErrorView,
        >(GrantErrorView::BadSignature),
{
    token_is_checked(public, token(payload, signature), payload, signature, audience, now_ms);
}

} // verus!
