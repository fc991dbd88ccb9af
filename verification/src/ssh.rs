//! Login with an SSH key: the server sends a random challenge, and the client
//! signs it with a key that the user's `authorized_keys` lists.
//!
//! A key is held as its SSH wire encoding. Signatures of FIDO security keys
//! carry a flags byte and a counter at their end; one that does not prove that
//! the key was touched is refused.

use ssh_key::{AuthorizedKeys, HashAlg, PublicKey, SshSig};
use vstd::prelude::*;

use crate::base64::encoded;
use crate::bytes::{append_bytes, same_bytes};
use crate::chance::random_32;
use crate::text::same;

verus! {

/// The namespace that signatures must be made for.
pub const SSH_NAMESPACE: &'static str = "holdfast-auth@v0";

/// What follows the signature proper of a security key: one byte of flags and
/// four of a counter.
pub const SK_SIGNATURE_TRAILER: usize = 5;

/// Flag: somebody was present at the key, that is, touched it.
pub const FIDO_FLAG_USER_PRESENT: u8 = 0x01;

/// Flag: the key verified who that was, by PIN or biometrics.
pub const FIDO_FLAG_USER_VERIFIED: u8 = 0x04;

/// Why a key or a signature is refused.
#[derive(Debug, Clone, Copy, PartialEq, Eq, Structural)]
pub enum SshError {
    NoAuthorizedKeys,
    KeyNotAuthorized,
    MalformedKey,
    MalformedSignature,
    BadSignature,
    ChallengeMismatch,
    UserPresenceMissing,
}

/// One entry of an `authorized_keys` file.
#[derive(Debug, Clone, PartialEq, Eq)]
pub struct AuthorizedEntry {
    /// Whether the entry restricts the key by options.
    pub restricted: bool,
    /// The key.
    pub key: Vec<u8>,
}

/// What a signature file holds.
#[derive(Debug, Clone, PartialEq, Eq)]
pub struct SignatureParts {
    /// The namespace that it was made for.
    pub namespace: String,
    /// The key that made it.
    pub key: Vec<u8>,
    /// The name of that key's algorithm.
    pub algorithm: String,
    /// The bytes of the signature.
    pub signature: Vec<u8>,
}

/// What [`SignatureParts`] hold.
pub struct PartsView {
    pub namespace: Seq<char>,
    pub key: Seq<u8>,
    pub algorithm: Seq<char>,
    pub signature: Seq<u8>,
}

impl View for SignatureParts {
    type V = PartsView;

    open spec fn view(&self) -> PartsView {
        PartsView {
            namespace: self.namespace@,
            key: self.key@,
            algorithm: self.algorithm@,
            signature: self.signature@,
        }
    }
}

/// What a security key attested beyond its possession. That it was touched is
/// not said here: verification fails without it.
#[derive(Debug, Clone, Copy, PartialEq, Eq, Structural)]
pub struct SecurityKeyAttestation {
    /// Whether the key verified who touched it.
    pub user_verified: bool,
}

/// Who signed.
#[derive(Debug, Clone, PartialEq, Eq)]
pub struct VerifiedIdentity {
    /// The SHA-256 fingerprint of the key that was used.
    pub fingerprint: String,
    /// What a security key attested; `None` for a key in software.
    pub security_key: Option<SecurityKeyAttestation>,
}

/// The entries of an `authorized_keys` text, one for each line that is not
/// blank, each with whether it carries options and its key, or nothing where it
/// is malformed.
pub uninterp spec fn authorized_entries(text: Seq<char>) -> Seq<Option<(bool, Seq<u8>)>>;

/// The key that a public key's one-line text spells.
pub uninterp spec fn openssh_key(text: Seq<char>) -> Option<Seq<u8>>;

/// What a PEM signature file holds.
pub uninterp spec fn sshsig_parts(pem: Seq<u8>) -> Option<PartsView>;

/// Whether a signature file holds a signature of a message, for a namespace,
/// under a key.
pub uninterp spec fn sshsig_accepts(
    key: Seq<u8>,
    namespace: Seq<char>,
    message: Seq<u8>,
    pem: Seq<u8>,
) -> bool;

/// The SHA-256 fingerprint of a key; nothing where the bytes encode no key.
pub uninterp spec fn key_fingerprint(key: Seq<u8>) -> Option<Seq<char>>;

/// Whether a text is a SHA-256 fingerprint: the name of the hash, and a digest of
/// thirty-two bytes in base64.
pub open spec fn is_fingerprint(text: Seq<char>) -> bool {
    exists|digest: Seq<u8>|
        digest.len() == 32 && text == "SHA256:"@ + #[trigger] encoded(digest, false, false)
}

/// What a parsed entry holds.
pub open spec fn entry_view(entry: Option<AuthorizedEntry>) -> Option<(bool, Seq<u8>)> {
    match entry {
        Some(e) => Some((e.restricted, e.key@)),
        None => None,
    }
}

/// Wraps `ssh_key::AuthorizedKeys`: its entries in order, each key in its wire
/// encoding. What they are is a function of the text.
#[verifier::external_body]
fn parse_entries(text: &str) -> (r: Vec<Option<AuthorizedEntry>>)
    ensures
        r@.len() == authorized_entries(text@).len(),
        forall|i: int| 0 <= i < r@.len() ==> entry_view(#[trigger] r@[i]) == authorized_entries(text@)[i],
{
    AuthorizedKeys::new(text)
        .map(|entry| {
            let entry = entry.ok()?;
            let key = entry.public_key().to_bytes().ok()?;
            Some(AuthorizedEntry { restricted: !entry.config_opts().is_empty(), key })
        })
        .collect()
}

/// Wraps `ssh_key::PublicKey::from_openssh`: the key in its wire encoding. What
/// it is is a function of the text.
#[verifier::external_body]
fn parse_key(text: &str) -> (r: Option<Vec<u8>>)
    ensures
        r is Some <==> openssh_key(text@) is Some,
        r matches Some(key) ==> openssh_key(text@) == Some(key@),
{
    PublicKey::from_openssh(text).and_then(|key| key.to_bytes()).ok()
}

/// Wraps `ssh_key::SshSig::from_pem`: the parts of the signature file. What they
/// are is a function of its bytes.
#[verifier::external_body]
fn parse_signature(pem: &[u8]) -> (r: Option<SignatureParts>)
    ensures
        r is Some <==> sshsig_parts(pem@) is Some,
        r matches Some(parts) ==> sshsig_parts(pem@) == Some(parts@),
{
    let sig = SshSig::from_pem(pem).ok()?;
    Some(SignatureParts {
        namespace: sig.namespace().to_string(),
        key: PublicKey::from(sig.public_key().clone()).to_bytes().ok()?,
        algorithm: sig.public_key().algorithm().as_str().to_string(),
        signature: sig.signature_bytes().to_vec(),
    })
}

/// Wraps `ssh_key::PublicKey::verify` for a key in its wire encoding and a
/// signature file. The answer is a function of the four. Only bytes that encode a
/// key accept anything, and those have a fingerprint.
#[verifier::external_body]
fn signature_accepted(key: &[u8], namespace: &str, message: &[u8], pem: &[u8]) -> (r: bool)
    ensures
        r == sshsig_accepts(key@, namespace@, message@, pem@),
        r ==> key_fingerprint(key@) is Some,
{
    match (PublicKey::from_bytes(key), SshSig::from_pem(pem)) {
        (Ok(key), Ok(sig)) => key.verify(namespace, message, &sig).is_ok(),
        _ => false,
    }
}

/// Wraps `ssh_key::PublicKey::fingerprint` with SHA-256, as text, for a key in its
/// wire encoding. It is a function of the key: the name of the hash and a digest in
/// unpadded base64. That the digest is that of these bytes is not said, since the
/// crate takes the digest of its own encoding of the key, in which the name of the
/// algorithm may differ.
#[verifier::external_body]
fn fingerprint(key: &[u8]) -> (r: Option<String>)
    ensures
        r is Some <==> key_fingerprint(key@) is Some,
        r matches Some(text) ==> key_fingerprint(key@) == Some(text@) && is_fingerprint(text@),
{
    PublicKey::from_bytes(key).ok().map(|k| k.fingerprint(HashAlg::Sha256).to_string())
}

/// Whether a key is one of some keys.
pub open spec fn listed(keys: Seq<Seq<u8>>, key: Seq<u8>) -> bool {
    keys.contains(key)
}

/// The keys of the entries that are well formed and unrestricted, in order.
pub open spec fn unrestricted_keys(entries: Seq<Option<(bool, Seq<u8>)>>) -> Seq<Seq<u8>>
    decreases entries.len(),
{
    if entries.len() == 0 {
        Seq::empty()
    } else {
        let before = unrestricted_keys(entries.drop_last());
        match entries.last() {
            Some((false, key)) => before.push(key),
            _ => before,
        }
    }
}

/// Keys as the sequences that they hold.
pub open spec fn key_views(keys: Seq<Vec<u8>>) -> Seq<Seq<u8>> {
    Seq::new(keys.len(), |i: int| keys[i]@)
}

/// The names of the algorithms of security keys.
pub open spec fn is_security_key_algorithm(algorithm: Seq<char>) -> bool {
    algorithm == "sk-ssh-ed25519@openssh.com"@ || algorithm
        == "sk-ecdsa-sha2-nistp256@openssh.com"@
}

/// Is this a security key, whose signatures carry flags and a counter?
fn is_security_key(algorithm: &str) -> (r: bool)
    ensures
        r == is_security_key_algorithm(algorithm@),
{
    same(algorithm, "sk-ssh-ed25519@openssh.com") || same(
        algorithm,
        "sk-ecdsa-sha2-nistp256@openssh.com",
    )
}

/// The flags byte of a security key's signature, which stands before the four
/// bytes of the counter at its end.
pub open spec fn signature_flags(signature: Seq<u8>) -> Result<u8, SshError> {
    if signature.len() < SK_SIGNATURE_TRAILER {
        Err(SshError::MalformedSignature)
    } else {
        Ok(signature[signature.len() - SK_SIGNATURE_TRAILER])
    }
}

/// The flags byte of a security key's signature.
pub fn sk_flags(signature: &[u8]) -> (r: Result<u8, SshError>)
    ensures
        r == signature_flags(signature@),
{
    if signature.len() < SK_SIGNATURE_TRAILER {
        Err(SshError::MalformedSignature)
    } else {
        Ok(signature[signature.len() - SK_SIGNATURE_TRAILER])
    }
}

/// What a valid signature attests: nothing for a key in software; for a
/// security key, which must have been touched, whether it verified its user.
pub open spec fn attested(algorithm: Seq<char>, signature: Seq<u8>) -> Result<
    Option<SecurityKeyAttestation>,
    SshError,
> {
    if !is_security_key_algorithm(algorithm) {
        Ok(None)
    } else {
        match signature_flags(signature) {
            Err(e) => Err(e),
            Ok(flags) => if flags % 2 == 0 {
                Err(SshError::UserPresenceMissing)
            } else {
                Ok(Some(SecurityKeyAttestation { user_verified: flags / 4 % 2 == 1 }))
            },
        }
    }
}

/// What a valid signature attests.
pub fn attestation(algorithm: &str, signature: &[u8]) -> (r: Result<
    Option<SecurityKeyAttestation>,
    SshError,
>)
    ensures
        r == attested(algorithm@, signature@),
{
    if !is_security_key(algorithm) {
        return Ok(None);
    }
    let flags: u8 = match sk_flags(signature) {
        Ok(flags) => flags,
        Err(e) => {
            return Err(e);
        },
    };
    if flags % (2 * FIDO_FLAG_USER_PRESENT) == 0 {
        return Err(SshError::UserPresenceMissing);
    }
    Ok(Some(SecurityKeyAttestation { user_verified: flags / FIDO_FLAG_USER_VERIFIED % 2 == 1 }))
}

/// What a parsed signature is worth, given whether it is valid: its namespace
/// must be ours, its key listed, and a security key touched.
pub open spec fn judged(keys: Seq<Seq<u8>>, parts: PartsView, accepted: bool) -> Result<
    Option<SecurityKeyAttestation>,
    SshError,
> {
    if parts.namespace != SSH_NAMESPACE@ {
        Err(SshError::BadSignature)
    } else if !listed(keys, parts.key) {
        Err(SshError::KeyNotAuthorized)
    } else if !accepted {
        Err(SshError::BadSignature)
    } else {
        attested(parts.algorithm, parts.signature)
    }
}

/// What a response is worth to a verifier with some keys.
pub open spec fn response_checked(
    keys: Seq<Seq<u8>>,
    channel_binding: Seq<u8>,
    challenge: Seq<u8>,
    pem: Seq<u8>,
) -> Result<(Seq<char>, Option<SecurityKeyAttestation>), SshError> {
    match sshsig_parts(pem) {
        None => Err(SshError::MalformedSignature),
        Some(parts) => match judged(
            keys,
            parts,
            sshsig_accepts(parts.key, SSH_NAMESPACE@, channel_binding + challenge, pem),
        ) {
            Err(e) => Err(e),
            Ok(attestation) => Ok((key_fingerprint(parts.key)->0, attestation)),
        },
    }
}

/// A user's authorized keys. The set is captured up front by a caller that has
/// validated the account.
pub struct SshVerifier {
    authorized: Vec<Vec<u8>>,
}

impl SshVerifier {
    /// The keys.
    pub closed spec fn keys(&self) -> Seq<Seq<u8>> {
        key_views(self.authorized@)
    }

    /// Builds a verifier from an `authorized_keys` text. An entry that carries
    /// options is skipped: its restrictions are not implemented, and the key
    /// would otherwise gain access that it was not given.
    pub fn from_authorized_keys(text: &str) -> (r: Result<SshVerifier, SshError>)
        ensures
            r matches Ok(v) ==> v.keys() == unrestricted_keys(authorized_entries(text@)),
            r is Ok <==> unrestricted_keys(authorized_entries(text@)).len() > 0,
            r matches Err(e) ==> e == SshError::NoAuthorizedKeys,
    {
        let entries: Vec<Option<AuthorizedEntry>> = parse_entries(text);
        let ghost views = authorized_entries(text@);
        assert(Seq::new(entries@.len(), |i: int| entry_view(entries@[i])) =~= views);
        Self::from_entries(entries)
    }

    /// Builds a verifier from parsed entries.
    pub fn from_entries(entries: Vec<Option<AuthorizedEntry>>) -> (r: Result<SshVerifier, SshError>)
        ensures
            r matches Ok(v) ==> v.keys() == unrestricted_keys(
                Seq::new(entries@.len(), |i: int| entry_view(entries@[i])),
            ),
            r is Ok <==> unrestricted_keys(
                Seq::new(entries@.len(), |i: int| entry_view(entries@[i])),
            ).len() > 0,
            r matches Err(e) ==> e == SshError::NoAuthorizedKeys,
    {
        let ghost views = Seq::new(entries@.len(), |i: int| entry_view(entries@[i]));
        let mut authorized: Vec<Vec<u8>> = Vec::new();
        let mut i: usize = 0;
        assert(key_views(authorized@) =~= Seq::empty());
        assert(views.take(0) =~= Seq::empty());
        while i < entries.len()
            invariant
                i <= entries.len(),
                views == Seq::new(entries@.len(), |i: int| entry_view(entries@[i])),
                key_views(authorized@) == unrestricted_keys(views.take(i as int)),
            decreases entries.len() - i,
        {
            let ghost before = authorized@;
            assert(views.take(i + 1).drop_last() =~= views.take(i as int));
            assert(views.take(i + 1).last() == entry_view(entries@[i as int]));
            match &entries[i] {
                Some(entry) => {
                    if !entry.restricted {
                        let key: Vec<u8> = crate::bytes::copy_bytes(entry.key.as_slice());
                        authorized.push(key);
                        assert(key_views(authorized@) =~= key_views(before).push(entry.key@));
                    }
                },
                None => {},
            }
            i = i + 1;
        }
        assert(views.take(i as int) =~= views);
        Self::from_keys(authorized)
    }

    /// Builds a verifier from keys.
    pub fn from_keys(authorized: Vec<Vec<u8>>) -> (r: Result<SshVerifier, SshError>)
        ensures
            r matches Ok(v) ==> v.keys() == key_views(authorized@),
            r is Ok <==> authorized@.len() > 0,
            r matches Err(e) ==> e == SshError::NoAuthorizedKeys,
    {
        if authorized.len() == 0 {
            return Err(SshError::NoAuthorizedKeys);
        }
        Ok(SshVerifier { authorized })
    }

    /// Whether a key is one of the authorized ones. Always scans all of them.
    fn lists(&self, key: &[u8]) -> (r: bool)
        ensures
            r == listed(self.keys(), key@),
    {
        let mut found: bool = false;
        let mut i: usize = 0;
        while i < self.authorized.len()
            invariant
                i <= self.authorized.len(),
                found == (exists|k: int| 0 <= k < i && (#[trigger] self.authorized@[k])@ == key@),
            decreases self.authorized.len() - i,
        {
            let here: bool = same_bytes(self.authorized[i].as_slice(), key);
            found = found || here;
            if here {
                assert(self.authorized@[i as int]@ == key@);
            }
            i = i + 1;
        }
        proof {
            if found {
                let k = choose|k: int| 0 <= k < i && (#[trigger] self.authorized@[k])@ == key@;
                assert(self.keys()[k] == key@);
            }
            if listed(self.keys(), key@) {
                let k = choose|k: int| 0 <= k < self.keys().len() && self.keys()[k] == key@;
                assert(self.authorized@[k]@ == key@);
            }
        }
        found
    }

    /// Whether the offered key, one line of OpenSSH text, is authorized.
    pub fn is_authorized(&self, offered_openssh: &str) -> (r: Result<(), SshError>)
        ensures
            r == (match openssh_key(offered_openssh@) {
                None => Err::<(), SshError>(SshError::MalformedKey),
                Some(key) => if listed(self.keys(), key) {
                    Ok(())
                } else {
                    Err(SshError::KeyNotAuthorized)
                },
            }),
    {
        match parse_key(offered_openssh) {
            None => Err(SshError::MalformedKey),
            Some(key) => self.is_listed(key.as_slice()),
        }
    }

    /// Whether a key in its wire encoding is authorized.
    pub fn is_listed(&self, key: &[u8]) -> (r: Result<(), SshError>)
        ensures
            r == (if listed(self.keys(), key@) {
                Ok::<(), SshError>(())
            } else {
                Err(SshError::KeyNotAuthorized)
            }),
    {
        if self.lists(key) {
            Ok(())
        } else {
            Err(SshError::KeyNotAuthorized)
        }
    }

    /// Judges a parsed signature, given whether it is valid under the key that
    /// it names.
    pub fn judge(&self, parts: &SignatureParts, accepted: bool) -> (r: Result<
        Option<SecurityKeyAttestation>,
        SshError,
    >)
        ensures
            r == judged(self.keys(), parts@, accepted),
    {
        if !same(parts.namespace.as_str(), SSH_NAMESPACE) {
            return Err(SshError::BadSignature);
        }
        if !self.lists(parts.key.as_slice()) {
            return Err(SshError::KeyNotAuthorized);
        }
        if !accepted {
            return Err(SshError::BadSignature);
        }
        attestation(parts.algorithm.as_str(), parts.signature.as_slice())
    }

    /// Checks the signature that answers a challenge. It must be made for our
    /// namespace, by an authorized key, over the channel binding followed by the
    /// challenge, and with a touch where the key is a security key.
    pub fn verify_response(&self, channel_binding: &[u8], challenge: &[u8], signature_pem: &[u8]) -> (r:
        Result<VerifiedIdentity, SshError>)
        ensures
            r matches Ok(identity) ==> response_checked(
                self.keys(),
                channel_binding@,
                challenge@,
                signature_pem@,
            ) == Ok::<(Seq<char>, Option<SecurityKeyAttestation>), SshError>(
                (identity.fingerprint@, identity.security_key),
            ) && is_fingerprint(identity.fingerprint@) && "SHA256:"@.is_prefix_of(
                identity.fingerprint@,
            ),
            r matches Err(e) ==> response_checked(
                self.keys(),
                channel_binding@,
                challenge@,
                signature_pem@,
            ) == Err::<(Seq<char>, Option<SecurityKeyAttestation>), SshError>(e),
    {
        let parts: SignatureParts = match parse_signature(signature_pem) {
            Some(parts) => parts,
            None => {
                return Err(SshError::MalformedSignature);
            },
        };
        let message: Vec<u8> = channel_bound_message(channel_binding, challenge);
        let accepted: bool = signature_accepted(
            parts.key.as_slice(),
            SSH_NAMESPACE,
            message.as_slice(),
            signature_pem,
        );
        let security_key: Option<SecurityKeyAttestation> = match self.judge(&parts, accepted) {
            Ok(security_key) => security_key,
            Err(e) => {
                return Err(e);
            },
        };
        match fingerprint(parts.key.as_slice()) {
            Some(fingerprint) => Ok(VerifiedIdentity { fingerprint, security_key }),
            None => Err(SshError::MalformedKey),
        }
    }
}

/// The bytes that a client signs and the server verifies: the channel binding
/// followed by the challenge.
pub fn channel_bound_message(channel_binding: &[u8], challenge: &[u8]) -> (r: Vec<u8>)
    ensures
        r@ == channel_binding@ + challenge@,
{
    let mut message: Vec<u8> = Vec::new();
    append_bytes(&mut message, channel_binding);
    append_bytes(&mut message, challenge);
    assert(message@ =~= channel_binding@ + challenge@);
    message
}

/// Where bindings have one length, as they have on one transport, a message that
/// was signed for one channel and challenge is the message of no other.
pub proof fn bound_messages_differ(b: Seq<u8>, c: Seq<u8>, other_b: Seq<u8>, other_c: Seq<u8>)
    requires
        b.len() == other_b.len(),
        b + c == other_b + other_c,
    ensures
        b == other_b,
        c == other_c,
{
    assert((b + c).take(b.len() as int) =~= b);
    assert((other_b + other_c).take(b.len() as int) =~= other_b);
    assert((b + c).skip(b.len() as int) =~= c);
    assert((other_b + other_c).skip(b.len() as int) =~= other_c);
}

/// Only a listed key, on a valid signature over exactly the binding and the
/// challenge, in our namespace, identifies anybody; and a security key only
/// when it was touched.
pub proof fn identities_are_proved(
    keys: Seq<Seq<u8>>,
    binding: Seq<u8>,
    challenge: Seq<u8>,
    pem: Seq<u8>,
)
    requires
        response_checked(keys, binding, challenge, pem) is Ok,
    ensures
        sshsig_parts(pem) is Some,
        listed(keys, sshsig_parts(pem)->0.key),
        sshsig_parts(pem)->0.namespace == SSH_NAMESPACE@,
        sshsig_accepts(sshsig_parts(pem)->0.key, SSH_NAMESPACE@, binding + challenge, pem),
        is_security_key_algorithm(sshsig_parts(pem)->0.algorithm) ==> signature_flags(
            sshsig_parts(pem)->0.signature,
        ) is Ok && signature_flags(sshsig_parts(pem)->0.signature)->Ok_0 % 2 == 1,
{
}

/// A signature in our namespace, of a key in software that is listed, identifies
/// its maker on the channel and for the challenge that it was made for, and on no
/// other. A key that is not listed is refused as such, and another namespace is
/// none of ours.
pub proof fn relayed_signatures_are_refused(
    keys: Seq<Seq<u8>>,
    pem: Seq<u8>,
    b: Seq<u8>,
    c: Seq<u8>,
    other_b: Seq<u8>,
    other_c: Seq<u8>,
)
    requires
        sshsig_parts(pem) matches Some(parts) && !is_security_key_algorithm(parts.algorithm)
            && forall|message: Seq<u8>| #[trigger]
            sshsig_accepts(parts.key, SSH_NAMESPACE@, message, pem) <==> message == b + c,
        b.len() == other_b.len(),
    ensures
        ({
            let parts = sshsig_parts(pem)->0;
            let ours = parts.namespace == SSH_NAMESPACE@;
            let known = listed(keys, parts.key);
            let first = response_checked(keys, b, c, pem);
            let second = response_checked(keys, other_b, other_c, pem);
            &&& ours && known ==> first == Ok::<
                (Seq<char>, Option<SecurityKeyAttestation>),
                SshError,
            >((key_fingerprint(parts.key)->0, None))
            &&& ours && known && (b != other_b || c != other_c) ==> second == Err::<
                (Seq<char>, Option<SecurityKeyAttestation>),
                SshError,
            >(SshError::BadSignature)
            &&& !ours ==> first == Err::<(Seq<char>, Option<SecurityKeyAttestation>), SshError>(
                SshError::BadSignature,
            )
            &&& ours && !known ==> first == Err::<
                (Seq<char>, Option<SecurityKeyAttestation>),
                SshError,
            >(SshError::KeyNotAuthorized)
        }),
{
    if b != other_b || c != other_c {
        if other_b + other_c == b + c {
            bound_messages_differ(b, c, other_b, other_c);
        }
        assert(!sshsig_accepts(
            sshsig_parts(pem)->0.key,
            SSH_NAMESPACE@,
            other_b + other_c,
            pem,
        ));
    }
    assert(sshsig_accepts(sshsig_parts(pem)->0.key, SSH_NAMESPACE@, b + c, pem));
}

/// A restricted entry never lends its key: a key is taken only from an entry
/// without options.
pub proof fn restricted_keys_are_skipped(entries: Seq<Option<(bool, Seq<u8>)>>, key: Seq<u8>)
    ensures
        unrestricted_keys(entries).contains(key) <==> entries.contains(Some((false, key))),
    decreases entries.len(),
{
    if entries.len() > 0 {
        let before = entries.drop_last();
        let kept = unrestricted_keys(before);
        let all = unrestricted_keys(entries);
        restricted_keys_are_skipped(before, key);
        if entries.contains(Some((false, key))) {
            let i = choose|i: int| 0 <= i < entries.len() && entries[i] == Some((false, key));
            if i < before.len() {
                assert(before[i] == Some((false, key)));
                let j = choose|j: int| 0 <= j < kept.len() && kept[j] == key;
                assert(all[j] == key);
            } else {
                assert(all[all.len() - 1] == key);
            }
        }
        if all.contains(key) {
            let j = choose|j: int| 0 <= j < all.len() && all[j] == key;
            if j < kept.len() {
                assert(kept[j] == key);
                let i = choose|i: int| 0 <= i < before.len() && before[i] == Some((false, key));
                assert(entries[i] == Some((false, key)));
            } else {
                assert(entries[entries.len() - 1] == Some((false, key)));
            }
        }
    }
}

/// A fresh random challenge.
pub fn new_challenge() -> (r: [u8; 32]) {
    random_32()
}

} // verus!
