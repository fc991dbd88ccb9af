//! Laws of what proves who somebody is: grants, keys, passwords and the files that hold
//! keys.

use vstd::prelude::*;
use vstd::string::*;
use vstd::utf8::*;

use crate::base64::encoded;
use crate::grant::{
    ed25519_accepts, ed25519_is_key, ed25519_public, judge_claims, ConnectionGrant, GrantClaims,
    GrantError, GrantSigner, GrantVerifier,
};
use crate::hex::hex_text;
use crate::key_file::{
    check_mode, new_grant_key, parse_grant_key, parse_grant_verifier, KeyFileError,
};
use crate::pam::{conversation, first_step, next_step, PamError, PamStep, PamVerifier};
use crate::password::{PasswordAuth, PasswordVerifier};
use crate::ssh::{
    attestation, authorized_entries, channel_bound_message, key_fingerprint, openssh_key, sk_flags,
    sshsig_accepts, sshsig_parts, AuthorizedEntry, SecurityKeyAttestation, SignatureParts, SshError,
    SshVerifier, VerifiedIdentity,
};
use crate::text::texts;

verus! {

/// What a signer issued, its verifier takes for what it says: exactly for the audience
/// that it names, before it runs out, and not more than a minute before it was issued.
pub proof fn issued_grants_are_taken(
    signer: &GrantSigner,
    claims: &GrantClaims,
    grant: ConnectionGrant,
    checks: GrantVerifier,
    audience: &str,
    now_ms: i64,
    r: Result<GrantClaims, GrantError>,
)
    requires
        call_ensures(GrantSigner::issue, (signer, claims), grant),
        call_ensures(GrantSigner::grant_verifier, (signer,), checks),
        call_ensures(GrantVerifier::verify, (&checks, &grant, audience, now_ms), r),
    ensures
        r is Ok <==> claims.aud@ == audience@ && now_ms < claims.exp_ms && claims.iat_ms <= now_ms
            + 60_000,
        r matches Ok(c) ==> {
            &&& c.sub@ == claims.sub@
            &&& c.aud@ == claims.aud@
            &&& texts(c.servers@) == texts(claims.servers@)
            &&& texts(c.ops@) == texts(claims.ops@)
            &&& c.iat_ms == claims.iat_ms
            &&& c.exp_ms == claims.exp_ms
            &&& c.jti@ == claims.jti@
        },
        claims.aud@ != audience@ ==> {
            &&& r matches Err(GrantError::WrongAudience { found, expected })
            &&& found@ == claims.aud@
            &&& expected@ == audience@
        },
        claims.aud@ == audience@ && now_ms >= claims.exp_ms ==> {
            &&& r matches Err(GrantError::Expired { expires_at_ms, now_ms: at })
            &&& expires_at_ms == claims.exp_ms
            &&& at == now_ms
        },
        claims.aud@ == audience@ && now_ms < claims.exp_ms && claims.iat_ms > now_ms + 60_000 ==> {
            &&& r matches Err(GrantError::NotYetValid { issued_at_ms, now_ms: at })
            &&& issued_at_ms == claims.iat_ms
            &&& at == now_ms
        },
{
    assert(grant@ == crate::grant::issued(signer.secret(), claims@));
    assert(crate::grant::verdict(r) == crate::grant::claims_checked(claims@, audience@, now_ms));
}

/// A token under which the signature is not accepted says nothing, whatever its payload
/// says.
pub proof fn forged_grants_say_nothing(
    checks: &GrantVerifier,
    grant: &ConnectionGrant,
    audience: &str,
    now_ms: i64,
    r: Result<GrantClaims, GrantError>,
    payload: Seq<u8>,
    signature: Seq<u8>,
)
    requires
        call_ensures(GrantVerifier::verify, (checks, grant, audience, now_ms), r),
        grant@ == encoded(payload, true, false) + seq!['.'] + encoded(signature, true, false),
        signature.len() == 64,
        !ed25519_accepts(checks.public(), payload, signature),
    ensures
        r matches Err(GrantError::BadSignature),
{
    crate::grant::token_is_checked(
        checks.public(),
        grant@,
        payload,
        signature,
        audience@,
        now_ms,
    );
}

/// A token crosses the wire unchanged; bytes that are no text are no token.
pub proof fn tokens_cross_the_wire(
    grant: &ConnectionGrant,
    bytes: &[u8],
    r: Result<ConnectionGrant, GrantError>,
    other: &[u8],
    other_r: Result<ConnectionGrant, GrantError>,
)
    requires
        call_ensures(ConnectionGrant::as_bytes, (grant,), bytes),
        call_ensures(ConnectionGrant::from_wire, (bytes,), r),
        call_ensures(ConnectionGrant::from_wire, (other,), other_r),
    ensures
        r matches Ok(g) && g@ == grant@,
        other_r is Ok <==> valid_utf8(other@),
        other_r matches Err(e) ==> e is Malformed,
{
    crate::grant::grant_survives_the_wire(grant@);
}

/// Claims permit what they name, and everything where they name nothing.
pub proof fn claims_permit_what_they_name(claims: &GrantClaims, op: &str, r: bool)
    requires
        call_ensures(GrantClaims::permits, (claims, op), r),
    ensures
        r <==> claims.ops@.len() == 0 || exists|i: int|
            0 <= i < claims.ops@.len() && (#[trigger] claims.ops@[i])@ == op@,
{
    let all = texts(claims.ops@);
    if all.contains(op@) {
        let i = choose|i: int| 0 <= i < all.len() && all[i] == op@;
        assert(claims.ops@[i]@ == op@);
    }
    if exists|i: int| 0 <= i < claims.ops@.len() && (#[trigger] claims.ops@[i])@ == op@ {
        let i = choose|i: int| 0 <= i < claims.ops@.len() && (#[trigger] claims.ops@[i])@ == op@;
        assert(all[i] == op@);
    }
}

/// Claims are judged by their audience first, then by their end, then by their start.
pub proof fn claims_are_judged_in_order(
    claims: GrantClaims,
    audience: &str,
    now_ms: i64,
    r: Result<GrantClaims, GrantError>,
)
    requires
        call_ensures(judge_claims, (claims, audience, now_ms), r),
    ensures
        r matches Ok(c) ==> c == claims,
        r is Ok <==> claims.aud@ == audience@ && now_ms < claims.exp_ms && claims.iat_ms <= now_ms
            + 60_000,
        claims.aud@ != audience@ <==> r matches Err(GrantError::WrongAudience { .. }),
        claims.aud@ == audience@ && now_ms >= claims.exp_ms <==> r matches Err(
            GrantError::Expired { .. },
        ),
{
}

/// The public half of a key is read back from its bytes.
pub proof fn public_keys_read_back(
    signer: &GrantSigner,
    checks: GrantVerifier,
    bytes: [u8; 32],
    r: Result<GrantVerifier, GrantError>,
)
    requires
        call_ensures(GrantSigner::grant_verifier, (signer,), checks),
        call_ensures(GrantVerifier::public_bytes, (&checks,), bytes),
        call_ensures(GrantVerifier::from_public_bytes, (&bytes,), r),
    ensures
        bytes@ == ed25519_public(signer.secret()),
        r matches Ok(v) && v.public() == checks.public(),
{
}

/// A key of an `authorized_keys` text is authorized exactly where some line lists it
/// without options.
pub proof fn listed_keys_are_authorized(
    text: &str,
    r: Result<SshVerifier, SshError>,
    offered: &str,
    answer: Result<(), SshError>,
    key: Seq<u8>,
)
    requires
        call_ensures(SshVerifier::from_authorized_keys, (text,), r),
        r matches Ok(v) && call_ensures(SshVerifier::is_authorized, (&v, offered), answer),
        openssh_key(offered@) == Some(key),
    ensures
        answer is Ok <==> authorized_entries(text@).contains(Some((false, key))),
        answer matches Err(e) ==> e == SshError::KeyNotAuthorized,
{
    crate::ssh::restricted_keys_are_skipped(authorized_entries(text@), key);
}

/// A text without a key that it lists without options gives no verifier.
pub proof fn lists_without_keys_are_refused(text: &str, r: Result<SshVerifier, SshError>)
    requires
        call_ensures(SshVerifier::from_authorized_keys, (text,), r),
    ensures
        r is Err <==> forall|key: Seq<u8>|
            !(#[trigger] authorized_entries(text@).contains(Some((false, key)))),
        r matches Err(e) ==> e == SshError::NoAuthorizedKeys,
{
    let entries = authorized_entries(text@);
    let keys = crate::ssh::unrestricted_keys(entries);
    assert forall|key: Seq<u8>|
        keys.contains(key) <==> #[trigger] entries.contains(Some((false, key))) by {
        crate::ssh::restricted_keys_are_skipped(entries, key);
    }
    if keys.len() > 0 {
        assert(keys.contains(keys[0]));
        assert(authorized_entries(text@).contains(Some((false, keys[0]))));
    }
}

/// An offer that spells no key is malformed.
pub proof fn offers_must_be_keys(checks: &SshVerifier, offered: &str, answer: Result<(), SshError>)
    requires
        call_ensures(SshVerifier::is_authorized, (checks, offered), answer),
        openssh_key(offered@) is None,
    ensures
        answer == Err::<(), SshError>(SshError::MalformedKey),
{
}

/// Whether a key attests with its signatures that it was touched.
pub open spec fn is_touch_key(algorithm: Seq<char>) -> bool {
    algorithm == "sk-ssh-ed25519@openssh.com"@ || algorithm == "sk-ecdsa-sha2-nistp256@openssh.com"@
}

/// A response to a challenge identifies its maker exactly where it is a signature file
/// for logins, by an authorized key, that holds over the binding followed by the
/// challenge; a security key must have been touched, and says whether it verified who
/// touched it.
pub proof fn responses_identify_their_maker(
    checks: &SshVerifier,
    binding: &[u8],
    challenge: &[u8],
    pem: &[u8],
    r: Result<VerifiedIdentity, SshError>,
)
    requires
        call_ensures(SshVerifier::verify_response, (checks, binding, challenge, pem), r),
    ensures
        sshsig_parts(pem@) is None ==> (r matches Err(e) && e == SshError::MalformedSignature),
        sshsig_parts(pem@) matches Some(parts) ==> {
            let ours = parts.namespace == "holdfast-auth@v0"@;
            let known = checks.keys().contains(parts.key);
            let holds = sshsig_accepts(
                parts.key,
                "holdfast-auth@v0"@,
                binding@ + challenge@,
                pem@,
            );
            let long = parts.signature.len() >= 5;
            let flags = parts.signature[parts.signature.len() - 5];
            &&& !ours ==> (r matches Err(e) && e == SshError::BadSignature)
            &&& ours && !known ==> (r matches Err(e) && e == SshError::KeyNotAuthorized)
            &&& ours && known && !holds ==> (r matches Err(e) && e == SshError::BadSignature)
            &&& r matches Ok(who)
                ==> Some(who.fingerprint@) == key_fingerprint(parts.key)
                || key_fingerprint(parts.key) is None
            &&& ours && known && holds && !is_touch_key(parts.algorithm) ==> (r matches Ok(who)
                && who.security_key is None)
            &&& ours && known && holds && is_touch_key(parts.algorithm) && !long ==> (
            r matches Err(e) && e == SshError::MalformedSignature)
            &&& ours && known && holds && is_touch_key(parts.algorithm) && long && flags % 2 == 0
                ==> (r matches Err(e) && e == SshError::UserPresenceMissing)
            &&& ours && known && holds && is_touch_key(parts.algorithm) && long && flags % 2 == 1
                ==> (r matches Ok(who) && who.security_key == Some(
                SecurityKeyAttestation { user_verified: flags / 4 % 2 == 1 },
            ))
        },
{
}

/// What a client signs is the binding followed by the challenge: whatever differs in
/// either, at equal lengths, is another message.
pub proof fn signed_messages_are_bound(
    binding: &[u8],
    challenge: &[u8],
    r: Vec<u8>,
    other_binding: &[u8],
    other_challenge: &[u8],
    other_r: Vec<u8>,
)
    requires
        call_ensures(channel_bound_message, (binding, challenge), r),
        call_ensures(channel_bound_message, (other_binding, other_challenge), other_r),
        binding@.len() == other_binding@.len(),
    ensures
        r@.len() == binding@.len() + challenge@.len(),
        r@.take(binding@.len() as int) == binding@,
        r@.skip(binding@.len() as int) == challenge@,
        r@ == other_r@ <==> binding@ == other_binding@ && challenge@ == other_challenge@,
{
    assert(r@.take(binding@.len() as int) =~= binding@);
    assert(r@.skip(binding@.len() as int) =~= challenge@);
    assert(other_r@.take(binding@.len() as int) =~= other_binding@);
    assert(other_r@.skip(binding@.len() as int) =~= other_challenge@);
}

/// The flags of a security key stand five bytes before the end of its signature.
pub proof fn flags_stand_before_the_counter(
    signature: &[u8],
    r: Result<u8, SshError>,
    algorithm: &str,
    attested: Result<Option<SecurityKeyAttestation>, SshError>,
)
    requires
        call_ensures(sk_flags, (signature,), r),
        call_ensures(attestation, (algorithm, signature), attested),
    ensures
        signature@.len() < 5 ==> r == Err::<u8, SshError>(SshError::MalformedSignature),
        signature@.len() >= 5 ==> r == Ok::<u8, SshError>(signature@[signature@.len() - 5]),
        !is_touch_key(algorithm@) ==> attested == Ok::<Option<SecurityKeyAttestation>, SshError>(
            None,
        ),
        is_touch_key(algorithm@) && signature@.len() >= 5 ==> (attested is Ok
            <==> signature@[signature@.len() - 5] % 2 == 1),
{
}

/// A password is worth a check exactly for a listed user, where neither text is empty,
/// the name has at most a hundred and twenty-eight bytes, and the password at most a
/// thousand and twenty-four; what is not worth a check is not accepted.
pub proof fn passwords_are_bounded<V: PasswordVerifier>(
    auth: &PasswordAuth,
    backend: &V,
    username: &str,
    password: &str,
    worth: bool,
    accepted: bool,
)
    requires
        call_ensures(PasswordAuth::admits, (auth, username, password), worth),
        call_ensures(PasswordAuth::accepts::<V>, (auth, backend, username, password), accepted),
    ensures
        worth <==> (exists|i: int|
            0 <= i < auth.users@.len() && (#[trigger] auth.users@[i])@ == username@) && 0
            < username.spec_bytes().len() <= 128 && 0 < password.spec_bytes().len() <= 1024,
        accepted ==> worth,
        worth ==> call_ensures(V::verify, (backend, username, password), accepted),
{
}

/// A service of PAM has a short plain name that names a file in one directory.
pub proof fn services_have_plain_names(service: &str, r: Result<PamVerifier, PamError>)
    requires
        call_ensures(PamVerifier::new, (service,), r),
    ensures
        r is Ok <==> 0 < service.spec_bytes().len() <= 64 && service.spec_bytes()[0] != 46
            && forall|i: int|
            0 <= i < service.spec_bytes().len() ==> ({
                let b = #[trigger] service.spec_bytes()[i];
                48 <= b <= 57 || 65 <= b <= 90 || 97 <= b <= 122 || b == 45 || b == 95 || b == 46
            }),
        r matches Ok(v) ==> v.name() == service@,
{
}

/// A login through PAM is accepted exactly where opening the transaction, checking the
/// password and checking the account all succeed, in this order; a text with a zero byte
/// reaches none of them.
pub proof fn pam_accepts_after_all_three(
    user: &str,
    password: &str,
    first: PamStep,
    start: i32,
    second: PamStep,
    authenticate: i32,
    third: PamStep,
    account: i32,
    last: PamStep,
)
    requires
        call_ensures(first_step, (user, password), first),
        call_ensures(next_step, (first, start), second),
        call_ensures(next_step, (second, authenticate), third),
        call_ensures(next_step, (third, account), last),
    ensures
        ({
            let plain = (forall|i: int|
                0 <= i < user.spec_bytes().len() ==> #[trigger] user.spec_bytes()[i] != 0) && (
            forall|i: int|
                0 <= i < password.spec_bytes().len() ==> #[trigger] password.spec_bytes()[i] != 0);
            &&& plain ==> first == PamStep::Start
            &&& !plain ==> first == PamStep::Deny && last == PamStep::Deny
            &&& last == PamStep::Accept <==> plain && start == 0 && authenticate == 0
                && account == 0
            &&& last == PamStep::Accept || last == PamStep::Deny
            &&& plain && start == 0 ==> second == PamStep::Authenticate
            &&& plain && start == 0 && authenticate == 0 ==> third == PamStep::Account
        }),
{
}

/// In a conversation the password answers exactly the prompts that are not echoed; one
/// with no prompts, too many, or one that cannot be met ends.
pub proof fn hidden_prompts_get_the_password(styles: &[i32], r: Result<Vec<bool>, i32>)
    requires
        call_ensures(conversation, (styles,), r),
    ensures
        r is Ok <==> 0 < styles@.len() <= 32 && forall|i: int|
            0 <= i < styles@.len() ==> (#[trigger] styles@[i] == 1 || styles@[i] == 3 || styles@[i]
                == 4),
        r matches Ok(answers) ==> answers@.len() == styles@.len() && forall|i: int|
            0 <= i < answers@.len() ==> #[trigger] answers@[i] == (styles@[i] == 1),
        r matches Err(status) ==> status == 19,
{
    assert forall|i: int| 0 <= i < styles@.len() implies (crate::pam::known_style(
        #[trigger] styles@[i],
    ) <==> styles@[i] == 1 || styles@[i] == 3 || styles@[i] == 4) by {}
    if crate::pam::answerable(styles@) {
        assert forall|i: int| 0 <= i < styles@.len() implies (#[trigger] styles@[i] == 1
            || styles@[i] == 3 || styles@[i] == 4) by {
            assert(crate::pam::known_style(styles@[i]));
        }
    } else if 0 < styles@.len() <= 32 {
        let i = choose|i: int|
            0 <= i < styles@.len() && !crate::pam::known_style(#[trigger] styles@[i]);
        assert(!(styles@[i] == 1 || styles@[i] == 3 || styles@[i] == 4));
    }
}

/// A key that was written to its file is read back from it, as the seed that it was.
pub proof fn written_keys_are_read(
    fresh: ([u8; 32], String),
    text: &str,
    r: Result<[u8; 32], KeyFileError>,
)
    requires
        call_ensures(new_grant_key, (), fresh),
        text@ == fresh.1@,
        call_ensures(parse_grant_key, (text,), r),
    ensures
        r matches Ok(seed) && seed@ == fresh.0@,
{
    crate::key_file::seeds_read_back(fresh.0@);
}

/// A key file spells thirty-two bytes in sixty-four hexadecimal digits, and anything
/// else is refused.
pub proof fn key_files_hold_thirty_two_bytes(
    text: &str,
    r: Result<[u8; 32], KeyFileError>,
    seed: Seq<u8>,
)
    requires
        call_ensures(parse_grant_key, (text,), r),
        seed.len() == 32,
        text@ == hex_text(seed),
    ensures
        r matches Ok(read) && read@ == seed,
{
    crate::key_file::seeds_read_back(seed);
}

/// A key file is for its owner alone.
pub proof fn key_files_are_private(mode: u32, r: Result<(), KeyFileError>)
    requires
        call_ensures(check_mode, (mode,), r),
    ensures
        r is Ok <==> mode % 64 == 0,
        r matches Err(e) ==> e == KeyFileError::Exposed,
{
}

/// A verifier has the keys that it was made with, all of them and in order; without any
/// it is none.
pub proof fn listed_keys_are_kept(
    authorized: Vec<Vec<u8>>,
    r: Result<SshVerifier, SshError>,
    key: &[u8],
    answer: Result<(), SshError>,
)
    requires
        call_ensures(SshVerifier::from_keys, (authorized,), r),
        r matches Ok(v) ==> call_ensures(SshVerifier::is_listed, (&v, key), answer),
    ensures
        r is Ok <==> authorized@.len() > 0,
        r matches Err(e) ==> e == SshError::NoAuthorizedKeys,
        r is Ok ==> (answer is Ok <==> exists|i: int|
            0 <= i < authorized@.len() && (#[trigger] authorized@[i])@ == key@),
        r is Ok && answer is Err ==> answer->Err_0 == SshError::KeyNotAuthorized,
{
    if r is Ok {
        let views = crate::ssh::key_views(authorized@);
        if views.contains(key@) {
            let i = choose|i: int| 0 <= i < views.len() && views[i] == key@;
            assert(authorized@[i]@ == key@);
        }
        if exists|i: int| 0 <= i < authorized@.len() && (#[trigger] authorized@[i])@ == key@ {
            let i = choose|i: int| 0 <= i < authorized@.len()
                && (#[trigger] authorized@[i])@ == key@;
            assert(views[i] == key@);
        }
    }
}

/// Entries that restrict their key, or hold none, do not authorize it.
pub proof fn restricted_entries_do_not_count(
    entries: Vec<Option<AuthorizedEntry>>,
    r: Result<SshVerifier, SshError>,
    key: Seq<u8>,
)
    requires
        call_ensures(SshVerifier::from_entries, (entries,), r),
    ensures
        r matches Ok(v) ==> (v.keys().contains(key) <==> exists|i: int|
            0 <= i < entries@.len() && ((#[trigger] entries@[i]) matches Some(e) && !e.restricted
                && e.key@ == key)),
        (exists|i: int|
            0 <= i < entries@.len() && ((#[trigger] entries@[i]) matches Some(e) && !e.restricted))
            <==> r is Ok,
{
    let views = Seq::new(entries@.len(), |i: int| crate::ssh::entry_view(entries@[i]));
    let keys = crate::ssh::unrestricted_keys(views);
    assert forall|k: Seq<u8>|
        keys.contains(k) <==> #[trigger] views.contains(Some((false, k))) by {
        crate::ssh::restricted_keys_are_skipped(views, k);
    }
    assert forall|i: int| 0 <= i < entries@.len() implies views[i] == crate::ssh::entry_view(
        #[trigger] entries@[i],
    ) by {}
    if keys.contains(key) {
        assert(views.contains(Some((false, key))));
        let i = choose|i: int| 0 <= i < views.len() && views[i] == Some((false, key));
        assert(entries@[i] matches Some(e) && !e.restricted && e.key@ == key);
    }
    if exists|i: int|
        0 <= i < entries@.len() && ((#[trigger] entries@[i]) matches Some(e) && !e.restricted
            && e.key@ == key) {
        let i = choose|i: int|
            0 <= i < entries@.len() && ((#[trigger] entries@[i]) matches Some(e) && !e.restricted
                && e.key@ == key);
        assert(views[i] == Some((false, key)));
        assert(views.contains(Some((false, key))));
    }
    if keys.len() > 0 {
        assert(keys.contains(keys[0]));
        assert(views.contains(Some((false, keys[0]))));
        let i = choose|i: int| 0 <= i < views.len() && views[i] == Some((false, keys[0]));
        assert(entries@[i] matches Some(e) && !e.restricted);
    }
    if exists|i: int|
        0 <= i < entries@.len() && ((#[trigger] entries@[i]) matches Some(e) && !e.restricted) {
        let i = choose|i: int|
            0 <= i < entries@.len() && ((#[trigger] entries@[i]) matches Some(e) && !e.restricted);
        let k = entries@[i]->0.key@;
        assert(views[i] == Some((false, k)));
        assert(views.contains(Some((false, k))));
        assert(keys.contains(k));
    }
}

/// A signature is worth something for logins alone, by a listed key, where it was
/// accepted.
pub proof fn signatures_are_judged(
    checks: &SshVerifier,
    parts: &SignatureParts,
    accepted: bool,
    r: Result<Option<SecurityKeyAttestation>, SshError>,
)
    requires
        call_ensures(SshVerifier::judge, (checks, parts, accepted), r),
    ensures
        parts.namespace@ != "holdfast-auth@v0"@ ==> (r matches Err(e) && e
            == SshError::BadSignature),
        parts.namespace@ == "holdfast-auth@v0"@ && !checks.keys().contains(parts.key@) ==> (
        r matches Err(e) && e == SshError::KeyNotAuthorized),
        parts.namespace@ == "holdfast-auth@v0"@ && checks.keys().contains(parts.key@) && !accepted
            ==> (r matches Err(e) && e == SshError::BadSignature),
        parts.namespace@ == "holdfast-auth@v0"@ && checks.keys().contains(parts.key@) && accepted
            && !is_touch_key(parts.algorithm@) ==> (r matches Ok(a) && a is None),
        parts.namespace@ == "holdfast-auth@v0"@ && checks.keys().contains(parts.key@) && accepted
            && is_touch_key(parts.algorithm@) && parts.signature@.len() >= 5 ==> (r is Ok
            <==> parts.signature@[parts.signature@.len() - 5] % 2 == 1),
{
}

/// A signer has the secret that it was given, and its verifier the public half of it.
pub proof fn signers_keep_their_secret(
    secret: &[u8; 32],
    signer: GrantSigner,
    checks: GrantVerifier,
)
    requires
        call_ensures(GrantSigner::from_bytes, (secret,), signer),
        call_ensures(GrantSigner::grant_verifier, (&signer,), checks),
    ensures
        signer.secret() == secret@,
        checks.public() == ed25519_public(secret@),
{
}

/// A verifier's key is read from the digits that spell it, where they spell a key.
pub proof fn verifier_files_hold_a_public_key(
    text: &str,
    key: Seq<u8>,
    r: Result<GrantVerifier, KeyFileError>,
)
    requires
        call_ensures(parse_grant_verifier, (text,), r),
        key.len() == 32,
        text@ == hex_text(key),
    ensures
        ed25519_is_key(key) ==> (r matches Ok(v) && v.public() == key),
        !ed25519_is_key(key) ==> (r matches Err(e) && e == KeyFileError::NotAKey),
{
    crate::hex::unhex_of_hex(key);
    crate::hex::hex_is_all_hex(key);
    assert forall|i: int| 0 <= i < text@.len() implies !crate::parse::is_space(
        #[trigger] text@[i],
    ) by {
        let b = key[i / 2] as int;
        assert(0 <= b / 16 < 16 && 0 <= b % 16 < 16);
    }
    crate::parse::trimming_keeps_plain_text(text@);
}

/// A PAM verifier asks the service that it was made for.
pub proof fn services_are_asked_by_name(
    service: &str,
    made: Result<PamVerifier, PamError>,
    name: &str,
)
    requires
        call_ensures(PamVerifier::new, (service,), made),
        made matches Ok(v) ==> call_ensures(PamVerifier::service, (&v,), name),
    ensures
        made is Ok ==> name@ == service@,
{
}

/// A text that does not spell sixty-four digits is no key.
pub proof fn short_key_files_are_refused(
    text: &str,
    r: Result<[u8; 32], KeyFileError>,
    public: Result<GrantVerifier, KeyFileError>,
    service: &str,
    made: Result<PamVerifier, PamError>,
)
    requires
        call_ensures(parse_grant_key, (text,), r),
        call_ensures(parse_grant_verifier, (text,), public),
        call_ensures(PamVerifier::new, (service,), made),
        encode_utf8(crate::parse::trimmed(text@)).len() != 64,
    ensures
        r matches Err(e) && e == KeyFileError::NotSixtyFourDigits,
        public matches Err(e) && e == KeyFileError::NotSixtyFourDigits,
        made matches Err(e) ==> e == PamError::InvalidServiceName,
{
}

} // verus!
