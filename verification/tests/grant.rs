use base64::Engine as _;
use ed25519_dalek::Signer as _;
use holdfast::grant::{
    judge_claims, ConnectionGrant, GrantClaims, GrantError, GrantSigner, GrantVerifier,
};

fn claims(now: i64) -> GrantClaims {
    GrantClaims {
        sub: "alice".into(),
        aud: "srv_abc".into(),
        servers: vec![],
        ops: vec!["open".into(), "attach".into()],
        iat_ms: now,
        exp_ms: now + 60_000,
        jti: "jti-1".into(),
    }
}

#[test]
fn issue_and_verify_roundtrip() {
    let signer = GrantSigner::generate();
    let grant = signer.issue(&claims(1000));
    let got = signer.grant_verifier().verify(&grant, "srv_abc", 2000).unwrap();
    assert_eq!(got.sub, "alice");
    assert!(got.permits("open"));
    assert!(!got.permits("terminate"));
}

#[test]
fn expired_grant_rejected() {
    let signer = GrantSigner::generate();
    let grant = signer.issue(&claims(1000));
    assert!(matches!(
        signer.grant_verifier().verify(&grant, "srv_abc", 61_001),
        Err(GrantError::Expired { .. })
    ));
}

#[test]
fn wrong_audience_rejected() {
    let signer = GrantSigner::generate();
    let grant = signer.issue(&claims(1000));
    assert!(matches!(
        signer.grant_verifier().verify(&grant, "srv_other", 2000),
        Err(GrantError::WrongAudience { .. })
    ));
}

#[test]
fn tampered_payload_fails_signature() {
    let signer = GrantSigner::generate();
    let grant = signer.issue(&claims(1000));
    // Flip a character in the payload segment.
    let (payload, sig) = grant.0.split_once('.').unwrap();
    let mut bytes = payload.as_bytes().to_vec();
    bytes[0] ^= 0x01;
    let tampered = ConnectionGrant(format!(
        "{}.{}",
        String::from_utf8_lossy(&bytes),
        sig
    ));
    assert!(matches!(
        signer.grant_verifier().verify(&tampered, "srv_abc", 2000),
        Err(GrantError::BadSignature) | Err(GrantError::Malformed)
    ));
}

#[test]
fn different_key_rejects() {
    let signer = GrantSigner::generate();
    let grant = signer.issue(&claims(1000));
    let other = GrantSigner::generate();
    assert!(matches!(
        other.grant_verifier().verify(&grant, "srv_abc", 2000),
        Err(GrantError::BadSignature)
    ));
}

#[test]
fn verifier_survives_public_key_roundtrip() {
    let signer = GrantSigner::generate();
    let pubkey = signer.grant_verifier().public_bytes();
    let verifier = GrantVerifier::from_public_bytes(&pubkey).unwrap();
    let grant = signer.issue(&claims(1000));
    assert!(verifier.verify(&grant, "srv_abc", 2000).is_ok());
}

#[test]
fn an_issued_grant_survives_the_wire() {
    let signer = GrantSigner::from_bytes(&[7; 32]);
    let grant = signer.issue(&claims(1000));
    let received = ConnectionGrant::from_wire(grant.as_bytes()).unwrap();
    assert_eq!(received, grant);
    let got = signer.grant_verifier().verify(&received, "srv_abc", 2000).unwrap();
    assert_eq!(got, claims(1000));
    assert!(matches!(ConnectionGrant::from_wire(&[0xff]), Err(GrantError::Malformed)));
}

#[test]
fn signatures_are_the_ones_of_ed25519() {
    let key = ed25519_dalek::SigningKey::from_bytes(&[9; 32]);
    let signer = GrantSigner::from_bytes(&[9; 32]);
    assert_eq!(signer.grant_verifier().public_bytes(), key.verifying_key().to_bytes());
    let payload = "{\"sub\":\"alice\",\"aud\":\"srv_abc\",\"servers\":[],\"ops\":[\"open\",\"attach\"],\"iat_ms\":1000,\"exp_ms\":61000,\"jti\":\"jti-1\"}";
    let engine = base64::engine::general_purpose::URL_SAFE_NO_PAD;
    let expected = format!(
        "{}.{}",
        engine.encode(payload),
        engine.encode(key.sign(payload.as_bytes()).to_bytes())
    );
    assert_eq!(signer.issue(&claims(1000)).0, expected);
}

#[test]
fn a_grant_from_the_future_is_refused() {
    let signer = GrantSigner::from_bytes(&[1; 32]);
    let grant = signer.issue(&claims(1_000_000));
    assert!(matches!(
        signer.grant_verifier().verify(&grant, "srv_abc", 1_000_000 - 60_001),
        Err(GrantError::NotYetValid { .. })
    ));
    assert!(signer.grant_verifier().verify(&grant, "srv_abc", 1_000_000 - 60_000).is_ok());
    assert!(signer.grant_verifier().verify(&grant, "srv_abc", 1_059_999).is_ok());
    assert!(matches!(
        signer.grant_verifier().verify(&grant, "srv_abc", 1_060_000),
        Err(GrantError::Expired { .. })
    ));
}

#[test]
fn malformed_grants_are_refused() {
    let signer = GrantSigner::from_bytes(&[2; 32]);
    for text in ["", "a", "a.b.c", ".", "e30.AAAA", "!!!.???"] {
        assert!(matches!(
            signer.grant_verifier().verify(&ConnectionGrant(text.to_string()), "srv_abc", 0),
            Err(GrantError::Malformed)
        ));
    }
}

#[test]
fn claims_without_operations_permit_all() {
    let mut c = claims(0);
    assert!(c.permits("attach"));
    assert!(!c.permits("list"));
    c.ops = Vec::new();
    assert!(c.permits("list"));
}

#[test]
fn some_bytes_are_no_public_key() {
    let mut refused = 0;
    for b in 0..=255u8 {
        if GrantVerifier::from_public_bytes(&[b; 32]).is_err() {
            refused += 1;
        }
    }
    assert!(refused > 0);
}

#[test]
fn claims_may_come_as_an_array() {
    let key = ed25519_dalek::SigningKey::from_bytes(&[9; 32]);
    let trusted = GrantSigner::from_bytes(&[9; 32]).grant_verifier();
    let engine = base64::engine::general_purpose::URL_SAFE_NO_PAD;
    let verify = |payload: &str| {
        let signature = engine.encode(key.sign(payload.as_bytes()).to_bytes());
        let grant = ConnectionGrant(format!("{}.{signature}", engine.encode(payload)));
        trusted.verify(&grant, "srv_abc", 2000)
    };
    let whole = "[\"alice\",\"srv_abc\",[],[\"open\",\"attach\"],1000,61000,\"jti-1\"]";
    assert_eq!(verify(whole).unwrap(), claims(1000));
    let without_lists = "{\"sub\":\"alice\",\"aud\":\"srv_abc\",\"iat_ms\":1000,\"exp_ms\":61000,\"jti\":\"j\"}";
    assert!(verify(without_lists).unwrap().ops.is_empty());
    for broken in [
        "[\"alice\",\"srv_abc\",[],[],1000,61000]",
        "[\"alice\",\"srv_abc\",[],[],1000,61000,\"jti-1\",1]",
        "[\"alice\",\"srv_abc\",1000,61000,\"jti-1\"]",
        "[\"alice\",\"srv_abc\",[],[],\"1000\",61000,\"jti-1\"]",
        "{\"sub\":\"alice\"}",
        "null",
    ] {
        assert!(matches!(verify(broken), Err(GrantError::Malformed)), "{broken}");
    }
}

#[test]
fn the_first_test_that_fails_is_reported() {
    let judged = |audience: &str, now_ms: i64| judge_claims(claims(100_000), audience, now_ms);
    assert_eq!(judged("srv_abc", 100_000).unwrap(), claims(100_000));
    assert_eq!(judged("srv_abc", 40_000).unwrap(), claims(100_000));
    assert!(matches!(judged("srv_abc", 39_999), Err(GrantError::NotYetValid { .. })));
    assert!(matches!(judged("srv_abc", 160_000), Err(GrantError::Expired { .. })));
    assert!(matches!(judged("srv_abc", i64::MAX), Err(GrantError::Expired { .. })));
    assert!(matches!(judged("srv_abc", i64::MIN), Err(GrantError::NotYetValid { .. })));
    assert!(matches!(judged("other", 160_000), Err(GrantError::WrongAudience { .. })));
    assert!(matches!(judged("other", 0), Err(GrantError::WrongAudience { .. })));
}

#[test]
fn fields_count_once_and_others_do_not_matter() {
    let key = ed25519_dalek::SigningKey::from_bytes(&[9; 32]);
    let trusted = GrantSigner::from_bytes(&[9; 32]).grant_verifier();
    let engine = base64::engine::general_purpose::URL_SAFE_NO_PAD;
    let verify = |payload: &[u8]| {
        let signature = engine.encode(key.sign(payload).to_bytes());
        let grant = ConnectionGrant(format!("{}.{signature}", engine.encode(payload)));
        trusted.verify(&grant, "srv_abc", 2000)
    };
    let with = |more: &str| {
        format!(
            "{{\"sub\":\"alice\",\"aud\":\"srv_abc\",\"ops\":[\"open\",\"attach\"],\
             \"iat_ms\":1000,\"exp_ms\":61000,\"jti\":\"jti-1\"{more}}}"
        )
    };
    assert_eq!(verify(with("").as_bytes()).unwrap(), claims(1000));
    let deep = format!(",\"x\":{}{}", "[".repeat(500), "]".repeat(500));
    for ignored in [
        deep.as_str(),
        ",\"x\":1e999",
        ",\"x\":\"\\ud800\"",
        ",\"x\":1,\"x\":2",
        ",\"x\":{\"sub\":\"mallory\"}",
        " , \"x\" : null \n",
    ] {
        assert_eq!(verify(with(ignored).as_bytes()).unwrap(), claims(1000), "{ignored}");
    }
    let mut unreadable = with(",\"x\":\"?\"").into_bytes();
    let at = unreadable.iter().position(|b| *b == b'?').unwrap();
    unreadable[at] = 0xff;
    assert_eq!(verify(&unreadable).unwrap(), claims(1000));
    let spelled = with("").replace("\"sub\"", "\"s\\u0075b\"");
    assert_eq!(verify(spelled.as_bytes()).unwrap(), claims(1000));
    for refused in [
        ",\"sub\":\"alice\"",
        ",\"sub\":\"mallory\"",
        ",\"s\\u0075b\":\"alice\"",
        ",\"ops\":[]",
        ",\"exp_ms\":61000",
        ",\"servers\":[],\"servers\":[]",
        ",\"servers\":null",
        ",\"x\"",
        ",\"x\":",
        ",\"x\":tru",
        ",",
        " \"x\":1",
        ",x:1",
        "}",
    ] {
        let read = verify(with(refused).as_bytes());
        assert!(matches!(read, Err(GrantError::Malformed)), "{refused}");
    }
    let whole = with("");
    assert_eq!(verify(format!(" \t\r\n{whole} \n").as_bytes()).unwrap(), claims(1000));
    assert!(verify(format!("{whole}x").as_bytes()).is_err());
    assert!(verify(&whole.as_bytes()[..whole.len() - 1]).is_err());
}
