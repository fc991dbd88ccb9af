//! Certificates and private keys in PEM text.

use rustls_pki_types::pem::PemObject;
use rustls_pki_types::{CertificateDer, PrivateKeyDer};
use vstd::prelude::*;

verus! {

/// How a private key is encoded.
#[derive(Debug, Clone, Copy, PartialEq, Eq, Structural)]
pub enum KeyFormat {
    Pkcs1,
    Sec1,
    Pkcs8,
}

/// A private key.
#[derive(Clone, PartialEq, Eq)]
pub struct PrivateKey {
    pub format: KeyFormat,
    pub der: Vec<u8>,
}

/// What a [`PrivateKey`] holds.
pub struct KeyView {
    pub format: KeyFormat,
    pub der: Seq<u8>,
}

impl View for PrivateKey {
    type V = KeyView;

    open spec fn view(&self) -> KeyView {
        KeyView { format: self.format, der: self.der@ }
    }
}

/// The certificates of a PEM text in order, each with its bytes, or nothing where a
/// section is malformed.
pub uninterp spec fn pem_certificates(text: Seq<u8>) -> Seq<Option<Seq<u8>>>;

/// The first private key of a PEM text; nothing where there is none or a section
/// before it is malformed.
pub uninterp spec fn pem_key(text: Seq<u8>) -> Option<KeyView>;

/// The certificates of a PEM file in order, each with its bytes, or nothing where a
/// section is malformed.
pub uninterp spec fn pemfile_certificates(text: Seq<u8>) -> Seq<Option<Seq<u8>>>;

/// The first private key of a PEM file, if there is one; nothing at all where a
/// section before it is malformed.
pub uninterp spec fn pemfile_key(text: Seq<u8>) -> Option<Option<KeyView>>;

/// Whether a certificate can be a trust anchor.
pub uninterp spec fn trust_anchor(der: Seq<u8>) -> bool;

/// What a certificate that was read, or not, holds.
pub open spec fn item_view(item: Option<Vec<u8>>) -> Option<Seq<u8>> {
    match item {
        Some(der) => Some(der@),
        None => None,
    }
}

/// What certificates that were read, or not, hold.
pub open spec fn item_views(items: Seq<Option<Vec<u8>>>) -> Seq<Option<Seq<u8>>> {
    Seq::new(items.len(), |i: int| item_view(items[i]))
}

/// What a key that was read, or not, holds.
pub open spec fn key_view(key: Option<PrivateKey>) -> Option<KeyView> {
    match key {
        Some(key) => Some(key@),
        None => None,
    }
}

/// Wraps `CertificateDer::pem_slice_iter` of `rustls_pki_types`: the certificates of
/// a text in order, and nothing in the place of a section that is malformed. What
/// they are is a function of the text.
#[verifier::external_body]
pub(crate) fn read_certificates(text: &[u8]) -> (r: Vec<Option<Vec<u8>>>)
    ensures
        item_views(r@) == pem_certificates(text@),
{
    CertificateDer::pem_slice_iter(text).map(|item| item.ok().map(|der| der.to_vec())).collect()
}

/// Wraps `PrivateKeyDer::from_pem_slice` of `rustls_pki_types`: the first private
/// key of a text with how it is encoded. What it is is a function of the text.
#[verifier::external_body]
pub(crate) fn read_key(text: &[u8]) -> (r: Option<PrivateKey>)
    ensures
        key_view(r) == pem_key(text@),
{
    let (format, der) = match PrivateKeyDer::from_pem_slice(text).ok()? {
        PrivateKeyDer::Pkcs1(key) => (KeyFormat::Pkcs1, key.secret_pkcs1_der().to_vec()),
        PrivateKeyDer::Sec1(key) => (KeyFormat::Sec1, key.secret_sec1_der().to_vec()),
        PrivateKeyDer::Pkcs8(key) => (KeyFormat::Pkcs8, key.secret_pkcs8_der().to_vec()),
        _ => return None,
    };
    Some(PrivateKey { format, der })
}

/// Wraps `rustls_pemfile::certs`: the certificates of a file in order, and nothing
/// in the place of a section that is malformed. What they are is a function of the
/// file's bytes.
#[verifier::external_body]
pub(crate) fn read_file_certificates(text: &[u8]) -> (r: Vec<Option<Vec<u8>>>)
    ensures
        item_views(r@) == pemfile_certificates(text@),
{
    let mut reader = text;
    rustls_pemfile::certs(&mut reader).map(|item| item.ok().map(|der| der.to_vec())).collect()
}

/// Wraps `rustls_pemfile::private_key`: the first private key of a file with how it
/// is encoded, if there is one, unless a section before it is malformed. What it is
/// is a function of the file's bytes.
#[verifier::external_body]
pub(crate) fn read_file_key(text: &[u8]) -> (r: Option<Option<PrivateKey>>)
    ensures
        r is Some <==> pemfile_key(text@) is Some,
        r matches Some(key) ==> pemfile_key(text@) == Some(key_view(key)),
{
    let mut reader = text;
    let (format, der) = match rustls_pemfile::private_key(&mut reader).ok()? {
        Some(PrivateKeyDer::Pkcs1(key)) => (KeyFormat::Pkcs1, key.secret_pkcs1_der().to_vec()),
        Some(PrivateKeyDer::Sec1(key)) => (KeyFormat::Sec1, key.secret_sec1_der().to_vec()),
        Some(PrivateKeyDer::Pkcs8(key)) => (KeyFormat::Pkcs8, key.secret_pkcs8_der().to_vec()),
        _ => return Some(None),
    };
    Some(Some(PrivateKey { format, der }))
}

/// Wraps `rustls::RootCertStore::add` on an empty store: whether the certificate is
/// taken. The answer is a function of its bytes.
#[verifier::external_body]
pub(crate) fn is_anchor(der: &[u8]) -> (r: bool)
    ensures
        r == trust_anchor(der@),
{
    rustls::RootCertStore::empty().add(CertificateDer::from(der)).is_ok()
}

/// Whether every certificate was read.
pub open spec fn all_read(items: Seq<Option<Seq<u8>>>) -> bool {
    forall|i: int| 0 <= i < items.len() ==> (#[trigger] items[i]) is Some
}

/// The certificates, where all were read.
pub open spec fn whole(items: Seq<Option<Seq<u8>>>) -> Seq<Seq<u8>> {
    Seq::new(items.len(), |i: int| items[i]->0)
}

/// The certificates, where all were read.
pub(crate) fn take_all(items: Vec<Option<Vec<u8>>>) -> (r: Option<Vec<Vec<u8>>>)
    ensures
        r is Some <==> all_read(item_views(items@)),
        r matches Some(list) ==> list@.len() == items@.len() && crate::bytes::byte_views(list@)
            == whole(item_views(items@)),
{
    let ghost all = item_views(items@);
    let mut list: Vec<Vec<u8>> = Vec::new();
    let mut i: usize = 0;
    while i < items.len()
        invariant
            i <= items.len(),
            all == item_views(items@),
            list@.len() == i,
            forall|k: int| 0 <= k < i ==> all[k] == Some((#[trigger] list@[k])@),
        decreases items.len() - i,
    {
        match &items[i] {
            Some(der) => {
                list.push(crate::bytes::copy_bytes(der.as_slice()));
                assert(all[i as int] == Some(der@));
            },
            None => {
                assert(all[i as int] is None);
                return None;
            },
        }
        i = i + 1;
    }
    proof {
        assert forall|k: int| 0 <= k < all.len() implies (#[trigger] all[k]) is Some by {
            assert(all[k] == Some(list@[k]@));
        }
        assert(crate::bytes::byte_views(list@) =~= whole(all));
    }
    Some(list)
}

} // verus!
