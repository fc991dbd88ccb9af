use base64::Engine as _;
use ed25519_dalek::Signer as _;
use sha2::{Digest, Sha256};
use holdfast::ssh::{
    attestation, channel_bound_message, new_challenge, sk_flags, SignatureParts, SshError,
    SshVerifier, FIDO_FLAG_USER_PRESENT, FIDO_FLAG_USER_VERIFIED, SSH_NAMESPACE,
};
use ssh_key::private::Ed25519Keypair;
use ssh_key::public::KeyData;
use ssh_key::{Algorithm, HashAlg, PrivateKey, PublicKey, SshSig};

fn keypair() -> (PrivateKey, String) {
    let key = PrivateKey::from(Ed25519Keypair::from_seed(&rand::random()));
    let authorized_line = key.public_key().to_openssh().unwrap();
    (key, authorized_line)
}

/// A stand-in for the FIDO authenticator inside a YubiKey, so the
/// verification path can be tested without hardware. It reproduces the
/// construction from the `sk-ssh-ed25519@openssh.com` spec exactly: the
/// device signs `sha256(application) || flags || counter || sha256(blob)`
/// and returns the raw signature with the flags and counter appended.
struct SecurityKey {
    signing: ed25519_dalek::SigningKey,
    application: String,
    public: PublicKey,
}

impl SecurityKey {
    fn new(seed: u8) -> SecurityKey {
        Self::with_application(seed, "ssh:")
    }

    fn with_application(seed: u8, application: &str) -> SecurityKey {
        let signing = ed25519_dalek::SigningKey::from_bytes(&[seed; 32]);
        let point = ssh_key::public::Ed25519PublicKey(signing.verifying_key().to_bytes());
        let public = PublicKey::new(
            KeyData::SkEd25519(ssh_key::public::SkEd25519::new(point, application)),
            "yubikey",
        );
        SecurityKey {
            signing,
            application: application.to_string(),
            public,
        }
    }

    fn authorized_line(&self) -> String {
        self.public.to_openssh().unwrap()
    }

    /// Sign as the authenticator would. `flags` is the CTAP2 flags byte —
    /// tests pass `0` to model a device that never saw a touch.
    fn sign(&self, message: &[u8], flags: u8, counter: u32) -> String {
        let blob = SshSig::signed_data(SSH_NAMESPACE, HashAlg::Sha512, message).unwrap();
        let trailer = {
            let mut trailer = vec![flags];
            trailer.extend(counter.to_be_bytes());
            trailer
        };

        let mut signed = Vec::new();
        signed.extend(Sha256::digest(self.application.as_bytes()));
        signed.extend(&trailer);
        signed.extend(Sha256::digest(&blob));

        let mut data = self.signing.sign(&signed).to_bytes().to_vec();
        data.extend(&trailer);

        let signature = ssh_key::Signature::new(Algorithm::SkEd25519, data).unwrap();
        let sig = SshSig::new(
            self.public.key_data().clone(),
            SSH_NAMESPACE,
            HashAlg::Sha512,
            signature,
        )
        .unwrap();
        sig.to_pem(ssh_key::LineEnding::LF).unwrap()
    }
}

#[test]
fn touched_security_key_authenticates() {
    let key = SecurityKey::new(1);
    let verifier = SshVerifier::from_authorized_keys(&key.authorized_line()).unwrap();
    verifier.is_authorized(&key.authorized_line()).unwrap();

    let challenge = new_challenge();
    let binding = [0xCDu8; 32];
    let message = channel_bound_message(&binding, &challenge);
    let pem = key.sign(&message, FIDO_FLAG_USER_PRESENT, 7);

    let identity = verifier
        .verify_response(&binding, &challenge, pem.as_bytes())
        .unwrap();
    assert!(identity.fingerprint.starts_with("SHA256:"));
    let attestation = identity
        .security_key
        .expect("a security key must be reported as one");
    assert!(
        !attestation.user_verified,
        "presence alone is not user verification"
    );
}

#[test]
fn untouched_security_key_is_rejected() {
    // The signature is cryptographically valid and the key is authorized;
    // only the user-presence bit is clear. That must not authenticate, or
    // a key sitting plugged in overnight would be as good as a password.
    let key = SecurityKey::new(2);
    let verifier = SshVerifier::from_authorized_keys(&key.authorized_line()).unwrap();

    let challenge = new_challenge();
    let message = channel_bound_message(b"", &challenge);
    let pem = key.sign(&message, 0, 1);

    assert!(matches!(
        verifier.verify_response(b"", &challenge, pem.as_bytes()),
        Err(SshError::UserPresenceMissing)
    ));
}

#[test]
fn user_verified_security_key_is_reported() {
    let key = SecurityKey::new(3);
    let verifier = SshVerifier::from_authorized_keys(&key.authorized_line()).unwrap();

    let challenge = new_challenge();
    let message = channel_bound_message(b"", &challenge);
    let pem = key.sign(&message, FIDO_FLAG_USER_PRESENT | FIDO_FLAG_USER_VERIFIED, 9);

    let identity = verifier
        .verify_response(b"", &challenge, pem.as_bytes())
        .unwrap();
    assert!(identity.security_key.unwrap().user_verified);
}

#[test]
fn security_key_signature_is_channel_bound_too() {
    // The binding must hold for hardware keys as well: the authenticator
    // signs over it, so a relayed signature still fails.
    let key = SecurityKey::new(4);
    let verifier = SshVerifier::from_authorized_keys(&key.authorized_line()).unwrap();

    let challenge = new_challenge();
    let attacker_binding = [0xAAu8; 32];
    let real_binding = [0xBBu8; 32];
    let pem = key.sign(
        &channel_bound_message(&attacker_binding, &challenge),
        FIDO_FLAG_USER_PRESENT,
        1,
    );

    assert!(matches!(
        verifier.verify_response(&real_binding, &challenge, pem.as_bytes()),
        Err(SshError::BadSignature)
    ));
    assert!(verifier
        .verify_response(&attacker_binding, &challenge, pem.as_bytes())
        .is_ok());
}

#[test]
fn a_different_authenticator_application_is_a_different_key() {
    // The application string is part of the key, so a credential scoped to
    // another relying party cannot stand in for this one.
    let enrolled = SecurityKey::with_application(5, "ssh:");
    let other = SecurityKey::with_application(5, "ssh:somewhere-else");
    let verifier = SshVerifier::from_authorized_keys(&enrolled.authorized_line()).unwrap();

    assert!(matches!(
        verifier.is_authorized(&other.authorized_line()),
        Err(SshError::KeyNotAuthorized)
    ));

    let challenge = new_challenge();
    let pem = other.sign(
        &channel_bound_message(b"", &challenge),
        FIDO_FLAG_USER_PRESENT,
        1,
    );
    assert!(matches!(
        verifier.verify_response(b"", &challenge, pem.as_bytes()),
        Err(SshError::KeyNotAuthorized)
    ));
}

#[test]
fn software_keys_report_no_security_key() {
    let (private, authorized_line) = keypair();
    let verifier = SshVerifier::from_authorized_keys(&authorized_line).unwrap();
    let challenge = new_challenge();
    let sig = private
        .sign(SSH_NAMESPACE, HashAlg::Sha512, &challenge)
        .unwrap();
    let pem = sig.to_pem(ssh_key::LineEnding::LF).unwrap();

    let identity = verifier
        .verify_response(b"", &challenge, pem.as_bytes())
        .unwrap();
    assert!(identity.security_key.is_none());
}

/// The same construction for `sk-ecdsa-sha2-nistp256@openssh.com`, the
/// type every FIDO2 YubiKey can do (`ed25519-sk` needs firmware 5.2.3+).
/// Its verification lives behind ssh-key's "p256" feature, so this test is
/// what proves that feature is actually enabled — without it the key type
/// is rejected as unsupported rather than verified.
fn sk_ecdsa_signed_pem(
    signing: &p256::ecdsa::SigningKey,
    application: &str,
    message: &[u8],
    flags: u8,
    counter: u32,
) -> (PublicKey, String) {
    let point = signing.verifying_key().to_encoded_point(false);
    let public = PublicKey::new(
        // ssh-key's `EcdsaNistP256PublicKey` is p256's own SEC1 encoded
        // point (`sec1::EncodedPoint<U32>`); it just is not re-exported.
        KeyData::SkEcdsaSha2NistP256(ssh_key::public::SkEcdsaSha2NistP256::new(
            point,
            application,
        )),
        "yubikey",
    );

    let blob = SshSig::signed_data(SSH_NAMESPACE, HashAlg::Sha512, message).unwrap();
    let mut trailer = vec![flags];
    trailer.extend(counter.to_be_bytes());

    let mut signed = Vec::new();
    signed.extend(Sha256::digest(application.as_bytes()));
    signed.extend(&trailer);
    signed.extend(Sha256::digest(&blob));

    let signature: p256::ecdsa::Signature =
        p256::ecdsa::signature::Signer::sign(signing, &signed);
    let (r, s) = signature.split_bytes();
    let mut rs = mpint(&r);
    rs.extend(mpint(&s));

    // Assembled by hand rather than via `SshSig::to_pem`, because
    // ssh-key 0.6's *encoder* only splits the flags/counter trailer back
    // out for sk-ed25519 — an sk-ecdsa signature it wrote would not
    // survive its own decoder. Nothing in Holdfast encodes one; this
    // reproduces the bytes `ssh-keygen` actually puts on the wire, so the
    // decode-and-verify path under test is the production one.
    let mut signature_blob = ssh_string(b"sk-ecdsa-sha2-nistp256@openssh.com");
    signature_blob.extend(ssh_string(&rs));
    signature_blob.extend(&trailer);

    (public.clone(), armored_sshsig(&public, &signature_blob))
}

/// An OpenSSH `string`: big-endian u32 length followed by the bytes.
fn ssh_string(bytes: &[u8]) -> Vec<u8> {
    let mut out = (bytes.len() as u32).to_be_bytes().to_vec();
    out.extend_from_slice(bytes);
    out
}

/// The armored `SSHSIG` container from OpenSSH's PROTOCOL.sshsig.
fn armored_sshsig(public: &PublicKey, signature_blob: &[u8]) -> String {
    let mut blob = b"SSHSIG".to_vec();
    blob.extend(1u32.to_be_bytes()); // version
    blob.extend(ssh_string(&public.to_bytes().unwrap()));
    blob.extend(ssh_string(SSH_NAMESPACE.as_bytes()));
    blob.extend(ssh_string(b"")); // reserved
    blob.extend(ssh_string(b"sha512"));
    blob.extend(ssh_string(signature_blob));

    let encoded = base64::engine::general_purpose::STANDARD.encode(&blob);
    let mut pem = String::from("-----BEGIN SSH SIGNATURE-----\n");
    for line in encoded.as_bytes().chunks(70) {
        pem.push_str(std::str::from_utf8(line).unwrap());
        pem.push('\n');
    }
    pem.push_str("-----END SSH SIGNATURE-----\n");
    pem
}

/// OpenSSH `mpint`: a length-prefixed big-endian integer, zero-padded when
/// the top bit would otherwise read as a negative number.
fn mpint(bytes: &[u8]) -> Vec<u8> {
    let start = bytes.iter().position(|b| *b != 0).unwrap_or(bytes.len());
    let trimmed = &bytes[start..];
    let mut body = Vec::new();
    if trimmed.first().is_some_and(|b| b & 0x80 != 0) {
        body.push(0);
    }
    body.extend_from_slice(trimmed);
    let mut out = (body.len() as u32).to_be_bytes().to_vec();
    out.extend(body);
    out
}

#[test]
fn touched_ecdsa_security_key_authenticates() {
    let signing = p256::ecdsa::SigningKey::from_bytes(&[9u8; 32].into()).unwrap();
    let challenge = new_challenge();
    let message = channel_bound_message(b"", &challenge);
    let (public, pem) =
        sk_ecdsa_signed_pem(&signing, "ssh:", &message, FIDO_FLAG_USER_PRESENT, 3);

    let verifier = SshVerifier::from_authorized_keys(&public.to_openssh().unwrap()).unwrap();
    let identity = verifier
        .verify_response(b"", &challenge, pem.as_bytes())
        .expect("sk-ecdsa must verify — needs ssh-key's \"p256\" feature");
    assert!(identity.security_key.is_some());
}

#[test]
fn untouched_ecdsa_security_key_is_rejected() {
    let signing = p256::ecdsa::SigningKey::from_bytes(&[11u8; 32].into()).unwrap();
    let challenge = new_challenge();
    let message = channel_bound_message(b"", &challenge);
    let (public, pem) = sk_ecdsa_signed_pem(&signing, "ssh:", &message, 0, 4);

    let verifier = SshVerifier::from_authorized_keys(&public.to_openssh().unwrap()).unwrap();
    assert!(matches!(
        verifier.verify_response(b"", &challenge, pem.as_bytes()),
        Err(SshError::UserPresenceMissing)
    ));
}

#[test]
fn security_keys_with_options_are_skipped_like_any_other() {
    // `no-touch-required` is the option that would disable the presence
    // check. Holdfast honors no options, so such a key is skipped outright
    // rather than silently authenticating without a touch.
    let key = SecurityKey::new(6);
    let restricted = format!("no-touch-required {}", key.authorized_line());
    assert!(matches!(
        SshVerifier::from_authorized_keys(&restricted),
        Err(SshError::NoAuthorizedKeys)
    ));
}

#[test]
fn authorized_key_challenge_response_succeeds() {
    let (private, authorized_line) = keypair();
    let verifier = SshVerifier::from_authorized_keys(&authorized_line).unwrap();

    let offered = private.public_key().to_openssh().unwrap();
    verifier.is_authorized(&offered).unwrap();

    let challenge = new_challenge();
    let sig = private
        .sign(SSH_NAMESPACE, HashAlg::Sha512, &challenge)
        .unwrap();
    let pem = sig.to_pem(ssh_key::LineEnding::LF).unwrap();

    let identity = verifier
        .verify_response(b"", &challenge, pem.as_bytes())
        .unwrap();
    assert!(identity.fingerprint.starts_with("SHA256:"));
}

#[test]
fn ssh_unauthorized_key_is_rejected() {
    let (_authorized_priv, authorized_line) = keypair();
    let verifier = SshVerifier::from_authorized_keys(&authorized_line).unwrap();

    let (attacker, _) = keypair();
    let offered = attacker.public_key().to_openssh().unwrap();
    assert!(matches!(
        verifier.is_authorized(&offered),
        Err(SshError::KeyNotAuthorized)
    ));

    // Even with a valid signature, an unauthorized key fails verification.
    let challenge = new_challenge();
    let sig = attacker
        .sign(SSH_NAMESPACE, HashAlg::Sha512, &challenge)
        .unwrap();
    let pem = sig.to_pem(ssh_key::LineEnding::LF).unwrap();
    assert!(matches!(
        verifier.verify_response(b"", &challenge, pem.as_bytes()),
        Err(SshError::KeyNotAuthorized)
    ));
}

#[test]
fn channel_binding_defeats_a_relayed_signature() {
    // The client signs over its channel binding + the nonce. A verifier
    // presenting a *different* binding (a relay forwarding to the real
    // server R while the client signed against attacker M's channel) must
    // reject, even though the key is authorized and the nonce matches.
    let (private, authorized_line) = keypair();
    let verifier = SshVerifier::from_authorized_keys(&authorized_line).unwrap();

    let challenge = new_challenge();
    let attacker_binding = [0xAAu8; 32]; // M's cert hash, what the client saw
    let real_binding = [0xBBu8; 32]; // R's cert hash, what R verifies against

    let signed = channel_bound_message(&attacker_binding, &challenge);
    let sig = private
        .sign(SSH_NAMESPACE, HashAlg::Sha512, &signed)
        .unwrap();
    let pem = sig.to_pem(ssh_key::LineEnding::LF).unwrap();

    // R (real binding) rejects the relayed signature.
    assert!(matches!(
        verifier.verify_response(&real_binding, &challenge, pem.as_bytes()),
        Err(SshError::BadSignature)
    ));
    // The same signature verifies against the binding it was made for.
    assert!(verifier
        .verify_response(&attacker_binding, &challenge, pem.as_bytes())
        .is_ok());
}

#[test]
fn signature_over_wrong_challenge_fails() {
    let (private, authorized_line) = keypair();
    let verifier = SshVerifier::from_authorized_keys(&authorized_line).unwrap();

    let signed_challenge = new_challenge();
    let sig = private
        .sign(SSH_NAMESPACE, HashAlg::Sha512, &signed_challenge)
        .unwrap();
    let pem = sig.to_pem(ssh_key::LineEnding::LF).unwrap();

    let server_challenge = new_challenge(); // different nonce
    assert!(matches!(
        verifier.verify_response(b"", &server_challenge, pem.as_bytes()),
        Err(SshError::BadSignature)
    ));
}

#[test]
fn wrong_namespace_rejected() {
    let (private, authorized_line) = keypair();
    let verifier = SshVerifier::from_authorized_keys(&authorized_line).unwrap();
    let challenge = new_challenge();
    let sig = private
        .sign("some-other-namespace", HashAlg::Sha512, &challenge)
        .unwrap();
    let pem = sig.to_pem(ssh_key::LineEnding::LF).unwrap();
    assert!(matches!(
        verifier.verify_response(b"", &challenge, pem.as_bytes()),
        Err(SshError::BadSignature)
    ));
}

#[test]
fn multiple_authorized_keys_any_matches() {
    let (p1, line1) = keypair();
    let (_p2, line2) = keypair();
    let verifier = SshVerifier::from_authorized_keys(&format!("{line1}\n{line2}\n")).unwrap();
    let challenge = new_challenge();
    let sig = p1.sign(SSH_NAMESPACE, HashAlg::Sha512, &challenge).unwrap();
    let pem = sig.to_pem(ssh_key::LineEnding::LF).unwrap();
    assert!(verifier
        .verify_response(b"", &challenge, pem.as_bytes())
        .is_ok());
}

#[test]
fn empty_authorized_keys_errors() {
    assert!(matches!(
        SshVerifier::from_authorized_keys("# only a comment\n"),
        Err(SshError::NoAuthorizedKeys)
    ));
}

#[test]
fn keys_with_options_are_skipped_not_granted_full_access() {
    // A key an admin deliberately restricted must not authenticate with
    // full access. Holdfast can't honor the restriction, so it fails closed.
    let (private, line) = keypair();
    for opts in [
        "command=\"/usr/bin/backup\"",
        "restrict",
        "from=\"10.0.0.0/8\"",
        "no-pty",
    ] {
        let restricted = format!("{opts} {line}");
        // The only entry is restricted → nothing authorizable remains.
        assert!(
            matches!(
                SshVerifier::from_authorized_keys(&restricted),
                Err(SshError::NoAuthorizedKeys)
            ),
            "restricted-only file must yield no authorized keys ({opts})"
        );
        // And the restricted key genuinely cannot authenticate.
        if let Ok(v) = SshVerifier::from_authorized_keys(&restricted) {
            let offered = private.public_key().to_openssh().unwrap();
            assert!(v.is_authorized(&offered).is_err());
        }
    }
}

#[test]
fn unrestricted_key_alongside_a_restricted_one_still_works() {
    // A plain key is honored; a restricted sibling is ignored, not fatal.
    let (plain_priv, plain_line) = keypair();
    let (_restricted_priv, restricted_line) = keypair();
    let text = format!("command=\"/x\" {restricted_line}\n{plain_line}\n");
    let verifier = SshVerifier::from_authorized_keys(&text).unwrap();
    let offered = plain_priv.public_key().to_openssh().unwrap();
    assert!(
        verifier.is_authorized(&offered).is_ok(),
        "the unrestricted key authenticates"
    );
}

#[test]
fn the_fingerprint_is_the_key_s() {
    let (private, line) = keypair();
    let verifier = SshVerifier::from_authorized_keys(&line).unwrap();
    let challenge = new_challenge();
    let sig = private.sign(SSH_NAMESPACE, HashAlg::Sha512, &challenge).unwrap();
    let pem = sig.to_pem(ssh_key::LineEnding::LF).unwrap();
    let identity = verifier.verify_response(b"", &challenge, pem.as_bytes()).unwrap();
    let expected = private.public_key().fingerprint(HashAlg::Sha256).to_string();
    assert_eq!(identity.fingerprint, expected);
}

#[test]
fn malformed_keys_and_signatures_are_refused() {
    let (_, line) = keypair();
    let verifier = SshVerifier::from_authorized_keys(&line).unwrap();
    assert!(matches!(verifier.is_authorized("ssh-nonsense AAAA"), Err(SshError::MalformedKey)));
    assert!(matches!(
        verifier.verify_response(b"", &[0; 32], b"no signature"),
        Err(SshError::MalformedSignature)
    ));
    assert!(matches!(
        verifier.verify_response(b"", &[0; 32], &[0xff, 0xfe]),
        Err(SshError::MalformedSignature)
    ));
}

#[test]
fn a_bound_message_is_the_binding_and_the_challenge() {
    assert_eq!(channel_bound_message(b"", &[1, 2, 3]), vec![1, 2, 3]);
    let bound = channel_bound_message(&[9; 32], &[1, 2, 3]);
    assert!(bound.ends_with(&[1, 2, 3]));
    assert_ne!(bound, channel_bound_message(&[8; 32], &[1, 2, 3]));
}

#[test]
fn a_security_key_s_flags_come_before_its_counter() {
    assert_eq!(sk_flags(&[7, 5, 0, 0, 0, 1]).unwrap(), 5);
    assert!(matches!(sk_flags(&[5, 0, 0, 0]), Err(SshError::MalformedSignature)));
}

#[test]
fn a_judgement_follows_its_parts() {
    let verifier = SshVerifier::from_keys(vec![vec![1, 2, 3]]).unwrap();
    let parts = |namespace: &str, key: Vec<u8>, algorithm: &str, signature: Vec<u8>| SignatureParts {
        namespace: namespace.to_string(),
        key,
        algorithm: algorithm.to_string(),
        signature,
    };
    let plain = parts(SSH_NAMESPACE, vec![1, 2, 3], "ssh-ed25519", vec![0; 64]);
    assert!(matches!(verifier.judge(&plain, true), Ok(None)));
    assert!(matches!(verifier.judge(&plain, false), Err(SshError::BadSignature)));
    let foreign = parts(SSH_NAMESPACE, vec![1, 2, 4], "ssh-ed25519", vec![0; 64]);
    assert!(matches!(verifier.judge(&foreign, true), Err(SshError::KeyNotAuthorized)));
    let touched = parts(
        SSH_NAMESPACE,
        vec![1, 2, 3],
        "sk-ssh-ed25519@openssh.com",
        vec![0, 1, 0, 0, 0, 1],
    );
    assert!(matches!(verifier.judge(&touched, true), Ok(Some(a)) if !a.user_verified));
    assert!(matches!(
        attestation("sk-ssh-ed25519@openssh.com", &[0, 0, 0, 0, 0, 1]),
        Err(SshError::UserPresenceMissing)
    ));
}
