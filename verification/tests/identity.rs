use base64::Engine as _;
use holdfast::cli::{check_agent_tls, load_agent_tls, AgentTlsFault};
use holdfast::pem::{KeyFormat, PrivateKey};
use holdfast::web::{
    check_identity, development_certificate, load_configured_tls, IdentityFault, MAX_CERTIFICATES,
};
use sha2::{Digest, Sha256};

fn pem(label: &str, der: &[u8]) -> String {
    let body = base64::engine::general_purpose::STANDARD.encode(der);
    format!("-----BEGIN {label}-----\n{body}\n-----END {label}-----\n")
}

fn der(tag: u8, content: &[u8]) -> Vec<u8> {
    let mut out = vec![tag];
    match content.len() {
        len if len < 128 => out.push(len as u8),
        len if len < 256 => out.extend([0x81, len as u8]),
        len => out.extend([0x82, (len >> 8) as u8, len as u8]),
    }
    out.extend(content);
    out
}

/// A certificate that vouches for itself, for the public key that is all ones.
fn authority() -> Vec<u8> {
    let algorithm = der(0x30, &der(0x06, &[0x2b, 0x65, 0x70]));
    let attribute = [der(0x06, &[0x55, 0x04, 0x03]), der(0x0c, b"authority")].concat();
    let name = der(0x30, &der(0x31, &der(0x30, &attribute)));
    let validity =
        der(0x30, &[der(0x17, b"250101000000Z"), der(0x17, b"350101000000Z")].concat());
    let mut point = vec![0];
    point.extend([1; 32]);
    let key = der(0x30, &[algorithm.clone(), der(0x03, &point)].concat());
    let constraint = [der(0x06, &[0x55, 0x1d, 0x13]), der(0x01, &[0xff])].concat();
    let constraint =
        [constraint, der(0x04, &der(0x30, &der(0x01, &[0xff])))].concat();
    let extensions = der(0xa3, &der(0x30, &der(0x30, &constraint)));
    let tbs = [
        der(0xa0, &der(0x02, &[2])),
        der(0x02, &[1]),
        algorithm.clone(),
        name.clone(),
        validity,
        name,
        key,
        extensions,
    ]
    .concat();
    let mut signature = vec![0];
    signature.extend([0; 64]);
    der(0x30, &[der(0x30, &tbs), algorithm, der(0x03, &signature)].concat())
}

#[test]
fn the_configured_identity_is_read_from_its_files() {
    let chain = [pem("CERTIFICATE", b"first"), pem("CERTIFICATE", b"second")].concat();
    let key = [pem("CERTIFICATE", b"none"), pem("PRIVATE KEY", b"key")].concat();
    let tls = load_configured_tls(chain.as_bytes(), key.as_bytes()).ok().unwrap();
    assert_eq!(tls.certificates, [b"first".to_vec(), b"second".to_vec()]);
    assert_eq!(tls.private_key.format, KeyFormat::Pkcs8);
    assert_eq!(tls.private_key.der, b"key");
    let hash: [u8; 32] = Sha256::digest(b"first").into();
    assert_eq!(tls.hash, hash);
    for (label, format) in [
        ("RSA PRIVATE KEY", KeyFormat::Pkcs1),
        ("EC PRIVATE KEY", KeyFormat::Sec1),
        ("PRIVATE KEY", KeyFormat::Pkcs8),
    ] {
        let tls = load_configured_tls(chain.as_bytes(), pem(label, b"k").as_bytes()).ok().unwrap();
        assert_eq!(tls.private_key.format, format);
    }
}

#[test]
fn a_configured_identity_is_refused_for_its_first_fault() {
    let fault = |chain: &str, key: &str| {
        load_configured_tls(chain.as_bytes(), key.as_bytes()).err().unwrap()
    };
    let certificate = pem("CERTIFICATE", b"first");
    let cut = "-----BEGIN CERTIFICATE-----\nAAAA\n";
    assert_eq!(fault("", ""), IdentityFault::NoCertificate);
    assert_eq!(fault(&pem("PRIVATE KEY", b"k"), ""), IdentityFault::NoCertificate);
    assert_eq!(fault(&[certificate.as_str(), cut].concat(), ""), IdentityFault::MalformedChain);
    let long = certificate.repeat(MAX_CERTIFICATES + 1);
    assert_eq!(fault(&long, ""), IdentityFault::TooManyCertificates);
    assert_eq!(fault(&certificate, ""), IdentityFault::MalformedKey);
    assert_eq!(fault(&certificate, &certificate), IdentityFault::MalformedKey);
    let key = || Some(PrivateKey { format: KeyFormat::Sec1, der: vec![1] });
    let whole = |count: usize| vec![Some(vec![7]); count];
    assert!(check_identity(whole(MAX_CERTIFICATES), key()).is_ok());
    assert_eq!(
        check_identity(whole(MAX_CERTIFICATES + 1), key()).err(),
        Some(IdentityFault::TooManyCertificates)
    );
    assert_eq!(
        check_identity(vec![Some(vec![7]), None], None).err(),
        Some(IdentityFault::MalformedChain)
    );
}

#[test]
fn an_agent_s_identity_is_read_from_its_files() {
    let ca = pem("CERTIFICATE", &authority());
    let chain = [pem("CERTIFICATE", b"own"), pem("CERTIFICATE", b"issuer")].concat();
    let key = pem("PRIVATE KEY", b"key");
    let load = |mode: u32, ca: &str, chain: &str, key: &str| {
        load_agent_tls(Some(mode), ca.as_bytes(), chain.as_bytes(), key.as_bytes())
    };
    let tls = load(0o100600, &ca, &chain, &key).ok().unwrap();
    assert_eq!(tls.authorities, [authority()]);
    assert_eq!(tls.chain, [b"own".to_vec(), b"issuer".to_vec()]);
    assert_eq!(tls.key.der, b"key");
    assert!(load_agent_tls(None, ca.as_bytes(), chain.as_bytes(), key.as_bytes()).is_ok());

    let fault = |mode: u32, ca: &str, chain: &str, key: &str| {
        load(mode, ca, chain, key).err().unwrap()
    };
    let junk = pem("CERTIFICATE", b"junk");
    let cut = "-----BEGIN CERTIFICATE-----\nAAAA\n";
    assert_eq!(fault(0o100640, "", "", ""), AgentTlsFault::KeyExposed);
    assert_eq!(fault(0o600, "", "", ""), AgentTlsFault::NoAuthority);
    assert_eq!(fault(0o600, cut, "", ""), AgentTlsFault::MalformedAuthority);
    let both = [junk.as_str(), cut].concat();
    assert_eq!(fault(0o600, &both, "", ""), AgentTlsFault::RefusedAuthority);
    assert_eq!(fault(0o600, &ca, "", ""), AgentTlsFault::NoCertificate);
    assert_eq!(fault(0o600, &ca, cut, ""), AgentTlsFault::MalformedCertificate);
    assert_eq!(fault(0o600, &ca, &chain, ""), AgentTlsFault::NoKey);
    assert_eq!(fault(0o600, &ca, &chain, cut), AgentTlsFault::MalformedKey);
}

#[test]
fn an_agent_s_identity_is_refused_for_its_first_fault() {
    let key = || Some(Some(PrivateKey { format: KeyFormat::Pkcs8, der: vec![1] }));
    let fit = || vec![(Some(vec![1]), true)];
    let chain = || vec![Some(vec![2])];
    let tls = check_agent_tls(Some(0o600), fit(), chain(), key()).ok().unwrap();
    assert_eq!(tls.authorities, [vec![1]]);
    assert_eq!(
        check_agent_tls(None, vec![(Some(vec![1]), false), (None, false)], chain(), key()).err(),
        Some(AgentTlsFault::RefusedAuthority)
    );
    assert_eq!(
        check_agent_tls(None, vec![(None, false), (Some(vec![1]), false)], chain(), key()).err(),
        Some(AgentTlsFault::MalformedAuthority)
    );
    assert_eq!(
        check_agent_tls(None, fit(), vec![None], key()).err(),
        Some(AgentTlsFault::MalformedCertificate)
    );
    assert_eq!(
        check_agent_tls(None, fit(), chain(), None).err(),
        Some(AgentTlsFault::MalformedKey)
    );
    assert_eq!(
        check_agent_tls(None, fit(), chain(), Some(None)).err(),
        Some(AgentTlsFault::NoKey)
    );
}

#[test]
fn a_development_certificate_is_short_lived() {
    let certificate = development_certificate(1_700_000_000);
    assert_eq!(certificate.names, ["localhost", "127.0.0.1", "::1"]);
    assert_eq!(certificate.not_before_s, 1_699_996_400);
    assert_eq!(certificate.not_after_s, 1_701_123_200);
    assert!(certificate.not_after_s - certificate.not_before_s < 14 * 24 * 3_600);
}
