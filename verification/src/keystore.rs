//! The signer's identity: the RSA private key and the certificates read from
//! a PKCS#12 store. Keys and certificates are held as the DER that was read
//! and checked.

use vstd::prelude::*;
use vstd::utf8::{decode_utf8, valid_utf8};
use crate::codificacion::texto_utf8;
use crate::error::{Error, ErrorModelo};
use rsa::pkcs1::DecodeRsaPrivateKey;
use rsa::pkcs8::DecodePrivateKey;
use rsa::signature::{SignatureEncoding, Signer};
use der::{Decode, Tagged};

verus! {

/// Whether the `rsa` crate reads some bytes as an RSA private key in PKCS#8
/// DER.
pub uninterp spec fn clave_pkcs8_valida(der: Seq<u8>) -> bool;

/// Whether the `rsa` crate reads some bytes as an RSA private key in PKCS#1
/// DER.
pub uninterp spec fn clave_pkcs1_valida(der: Seq<u8>) -> bool;

/// Whether the `x509-cert` crate reads some bytes as a DER certificate.
pub uninterp spec fn certificado_valido(der: Seq<u8>) -> bool;

/// What the `p12-keystore` crate finds in a PKCS#12 store opened with a
/// password: nothing when it cannot open it; else its first private key
/// chain, if any, as the PKCS#8 key and the DER certificates (the signer's
/// first).
pub uninterp spec fn almacen_moderno(raw: Seq<u8>, password: Seq<char>) -> Option<
    Option<(Seq<u8>, Seq<Seq<u8>>)>,
>;

/// The private keys that the `p12` crate decrypts from a PKCS#12 store, if
/// it can read it.
pub uninterp spec fn claves_pkcs12(raw: Seq<u8>, password: Seq<char>) -> Option<Seq<Seq<u8>>>;

/// The X.509 certificates that the `p12` crate finds in a PKCS#12 store, if
/// it can read it.
pub uninterp spec fn certificados_pkcs12(raw: Seq<u8>, password: Seq<char>) -> Option<
    Seq<Seq<u8>>,
>;

/// The attributes of the subject of a certificate, in order, each as the
/// contents of its object identifier, the tag of its value and the contents
/// of its value; none when the bytes are not a certificate.
pub uninterp spec fn atributos_sujeto(cert: Seq<u8>) -> Option<Seq<(Seq<u8>, u8, Seq<u8>)>>;

/// The RSA PKCS#1 v1.5 signature with SHA-256 of `datos` by the key in
/// PKCS#8 DER `clave`.
pub uninterp spec fn firma_con_pkcs8(clave: Seq<u8>, datos: Seq<u8>) -> Seq<u8>;

/// The RSA PKCS#1 v1.5 signature with SHA-256 of `datos` by the key in
/// PKCS#1 DER `clave`.
pub uninterp spec fn firma_con_pkcs1(clave: Seq<u8>, datos: Seq<u8>) -> Seq<u8>;

/// The size in bytes of the modulus of the key that
/// `rsa::RsaPrivateKey::from_pkcs8_der` reads from some DER.
pub uninterp spec fn tamano_pkcs8(der: Seq<u8>) -> nat;

/// The size in bytes of the modulus of the key that
/// `rsa::RsaPrivateKey::from_pkcs1_der` reads from some DER.
pub uninterp spec fn tamano_pkcs1(der: Seq<u8>) -> nat;

/// Whether some bytes are an RSA private key in PKCS#8 DER.
///
/// Calls `rsa::RsaPrivateKey::from_pkcs8_der`; which inputs it accepts is
/// left to the name `clave_pkcs8_valida`.
#[verifier::external_body]
fn es_clave_pkcs8(der: &[u8]) -> (r: bool)
    ensures
        r == clave_pkcs8_valida(der@),
{
    rsa::RsaPrivateKey::from_pkcs8_der(der).is_ok()
}

/// Whether some bytes are an RSA private key in PKCS#1 DER.
///
/// Calls `rsa::RsaPrivateKey::from_pkcs1_der`; which inputs it accepts is
/// left to the name `clave_pkcs1_valida`.
#[verifier::external_body]
fn es_clave_pkcs1(der: &[u8]) -> (r: bool)
    ensures
        r == clave_pkcs1_valida(der@),
{
    rsa::RsaPrivateKey::from_pkcs1_der(der).is_ok()
}

/// Checks that some bytes are a DER certificate.
///
/// Calls `x509_cert::Certificate::from_der`; which inputs it accepts is left
/// to the name `certificado_valido`. The message of a refusal is the text of
/// the `der` crate's error and is not stated.
#[verifier::external_body]
pub(crate) fn leer_certificado(der: &[u8]) -> (r: core::result::Result<(), String>)
    ensures
        r is Ok <==> certificado_valido(der@),
{
    x509_cert::Certificate::from_der(der).map(|_| ()).map_err(|e| e.to_string())
}

/// The views of a list of byte vectors.
pub open spec fn vista_bytes(vs: Seq<Vec<u8>>) -> Seq<Seq<u8>> {
    vs.map_values(|v: Vec<u8>| v@)
}

/// Opens a PKCS#12 store with the `p12-keystore` crate and takes its first
/// private key chain.
///
/// Calls `p12_keystore::KeyStore::from_pkcs12` (strict import) and
/// `private_key_chain`, and hands out the key's PKCS#8 DER and the DER of
/// the chain's certificates; what they are is left to the name
/// `almacen_moderno`.
#[verifier::external_body]
fn abrir_moderno(raw: &[u8], password: &str) -> (r: Option<Option<(Vec<u8>, Vec<Vec<u8>>)>>)
    ensures
        almacen_moderno(raw@, password@) == match r {
            None => None,
            Some(None) => Some(None),
            Some(Some((k, cs))) => Some(Some((k@, vista_bytes(cs@)))),
        },
{
    let politica = p12_keystore::Pkcs12ImportPolicy::Strict;
    let almacen = p12_keystore::KeyStore::from_pkcs12(raw, password, politica).ok()?;
    Some(almacen.private_key_chain().map(|(_, c)| {
        (c.key().as_der().to_vec(), c.certs().iter().map(|x| x.as_der().to_vec()).collect())
    }))
}

/// The private keys of a PKCS#12 store read with the `p12` crate.
///
/// Calls `p12::PFX::parse` and `PFX::key_bags`; what comes out is left to
/// the name `claves_pkcs12`. The parser asserts (in debug builds) that each
/// `EncryptedData` has version 0 and carries `data`; `almacen_legible`
/// asks that of the store.
#[verifier::external_body]
pub(crate) fn bolsas_de_claves(raw: &[u8], password: &str) -> (r: Option<Vec<Vec<u8>>>)
    requires
        crate::pkcs12::almacen_legible(raw@),
    ensures
        claves_pkcs12(raw@, password@) == match r {
            None => None,
            Some(ks) => Some(vista_bytes(ks@)),
        },
{
    p12::PFX::parse(raw).ok()?.key_bags(password).ok()
}

/// The certificates of a PKCS#12 store read with the `p12` crate.
///
/// Calls `p12::PFX::parse` and `PFX::cert_bags`; what comes out is left to
/// the name `certificados_pkcs12`. As for `bolsas_de_claves`, the store
/// must be one that `almacen_legible` accepts.
#[verifier::external_body]
pub(crate) fn bolsas_de_certificados(raw: &[u8], password: &str) -> (r: Option<Vec<Vec<u8>>>)
    requires
        crate::pkcs12::almacen_legible(raw@),
    ensures
        certificados_pkcs12(raw@, password@) == match r {
            None => None,
            Some(cs) => Some(vista_bytes(cs@)),
        },
{
    p12::PFX::parse(raw).ok()?.cert_bags(password).ok()
}

/// The attributes of the subject of a certificate.
///
/// Reads the certificate with `x509_cert::Certificate::from_der` and hands
/// out, for each attribute of each relative distinguished name of the
/// subject, in order, the contents of its object identifier
/// (`ObjectIdentifier::as_bytes`), the tag of its value and the contents of
/// its value; what they are is left to the name `atributos_sujeto`.
#[verifier::external_body]
fn atributos_del_sujeto(cert: &[u8]) -> (r: Option<Vec<(Vec<u8>, u8, Vec<u8>)>>)
    ensures
        atributos_sujeto(cert@) == match r {
            None => None,
            Some(v) => Some(v@.map_values(|a: (Vec<u8>, u8, Vec<u8>)| (a.0@, a.1, a.2@))),
        },
{
    let c = x509_cert::Certificate::from_der(cert).ok()?;
    Some(c.tbs_certificate.subject.0.iter().flat_map(|rdn| rdn.0.iter()).map(|a| {
        (a.oid.as_bytes().to_vec(), u8::from(a.value.tag()), a.value.value().to_vec())
    }).collect())
}

/// Signs with RSA PKCS#1 v1.5 and SHA-256, with a key in PKCS#8 DER.
///
/// Reads the key with `rsa::RsaPrivateKey::from_pkcs8_der` and signs with
/// `rsa::pkcs1v15::SigningKey::<Sha256>::sign`, which is deterministic; the
/// signature is left to the name `firma_con_pkcs8`. `sign` panics when the
/// padded SHA-256 `DigestInfo` (51 bytes and 11 of padding) does not fit in
/// the modulus, so a modulus of at least 62 bytes is asked.
#[verifier::external_body]
fn firmar_pkcs8(clave: &[u8], datos: &[u8]) -> (r: Vec<u8>)
    requires
        clave_pkcs8_valida(clave@),
        tamano_pkcs8(clave@) >= 62,
    ensures
        r@ == firma_con_pkcs8(clave@, datos@),
{
    let k = rsa::RsaPrivateKey::from_pkcs8_der(clave).unwrap();
    rsa::pkcs1v15::SigningKey::<rsa::sha2::Sha256>::new(k).sign(datos).to_vec()
}

/// Signs with RSA PKCS#1 v1.5 and SHA-256, with a key in PKCS#1 DER.
///
/// Reads the key with `rsa::RsaPrivateKey::from_pkcs1_der` and signs with
/// `rsa::pkcs1v15::SigningKey::<Sha256>::sign`, which is deterministic; the
/// signature is left to the name `firma_con_pkcs1`. As for `firmar_pkcs8`,
/// a modulus of at least 62 bytes is asked.
#[verifier::external_body]
fn firmar_pkcs1(clave: &[u8], datos: &[u8]) -> (r: Vec<u8>)
    requires
        clave_pkcs1_valida(clave@),
        tamano_pkcs1(clave@) >= 62,
    ensures
        r@ == firma_con_pkcs1(clave@, datos@),
{
    let k = rsa::RsaPrivateKey::from_pkcs1_der(clave).unwrap();
    rsa::pkcs1v15::SigningKey::<rsa::sha2::Sha256>::new(k).sign(datos).to_vec()
}

/// The size of the modulus of a key in PKCS#8 DER.
///
/// Reads the key with `rsa::RsaPrivateKey::from_pkcs8_der` and calls
/// `PublicKeyParts::size`; the size is left to the name `tamano_pkcs8`.
#[verifier::external_body]
fn modulo_pkcs8(clave: &[u8]) -> (r: usize)
    requires
        clave_pkcs8_valida(clave@),
    ensures
        r == tamano_pkcs8(clave@),
{
    rsa::traits::PublicKeyParts::size(&rsa::RsaPrivateKey::from_pkcs8_der(clave).unwrap())
}

/// The size of the modulus of a key in PKCS#1 DER.
///
/// Reads the key with `rsa::RsaPrivateKey::from_pkcs1_der` and calls
/// `PublicKeyParts::size`; the size is left to the name `tamano_pkcs1`.
#[verifier::external_body]
fn modulo_pkcs1(clave: &[u8]) -> (r: usize)
    requires
        clave_pkcs1_valida(clave@),
    ensures
        r == tamano_pkcs1(clave@),
{
    rsa::traits::PublicKeyParts::size(&rsa::RsaPrivateKey::from_pkcs1_der(clave).unwrap())
}

/// An RSA private key, as the DER it was read from.
pub enum ClaveRsa {
    /// A PKCS#8 `PrivateKeyInfo`.
    Pkcs8(Vec<u8>),
    /// A PKCS#1 `RSAPrivateKey`.
    Pkcs1(Vec<u8>),
}

impl View for ClaveRsa {
    type V = (Seq<u8>, bool);

    /// The DER and whether it is PKCS#8.
    open spec fn view(&self) -> (Seq<u8>, bool) {
        match self {
            ClaveRsa::Pkcs8(d) => (d@, true),
            ClaveRsa::Pkcs1(d) => (d@, false),
        }
    }
}

/// The size in bytes of the modulus of a key.
pub open spec fn tamano_clave(k: (Seq<u8>, bool)) -> nat {
    if k.1 {
        tamano_pkcs8(k.0)
    } else {
        tamano_pkcs1(k.0)
    }
}

/// Whether a key can sign a SHA-256 digest with PKCS#1 v1.5: its modulus
/// holds the 51 bytes of the `DigestInfo` and 11 bytes of padding.
pub open spec fn firma_sha256_cabe(k: (Seq<u8>, bool)) -> bool {
    tamano_clave(k) >= 62
}

/// Whether a key as values can sign.
pub open spec fn clave_valida(k: (Seq<u8>, bool)) -> bool {
    if k.1 {
        clave_pkcs8_valida(k.0)
    } else {
        clave_pkcs1_valida(k.0)
    }
}

/// The key read from some DER: PKCS#8 first, else PKCS#1.
pub open spec fn clave_de(der: Seq<u8>) -> core::result::Result<(Seq<u8>, bool), ErrorModelo> {
    if clave_pkcs8_valida(der) {
        Ok((der, true))
    } else if clave_pkcs1_valida(der) {
        Ok((der, false))
    } else {
        Err(ErrorModelo::UnsupportedKey)
    }
}

/// Reads an RSA private key, in PKCS#8 or else in PKCS#1 DER.
pub fn parse_private_key(der: &[u8]) -> (r: core::result::Result<ClaveRsa, Error>)
    ensures
        match (r, clave_de(der@)) {
            (Ok(k), Ok(m)) => k@ == m,
            (Err(e), Err(m)) => e@ == m,
            _ => false,
        },
{
    if es_clave_pkcs8(der) {
        return Ok(ClaveRsa::Pkcs8(vstd::slice::slice_to_vec(der)));
    }
    if es_clave_pkcs1(der) {
        return Ok(ClaveRsa::Pkcs1(vstd::slice::slice_to_vec(der)));
    }
    Err(Error::UnsupportedKey)
}

/// A copy of a key.
pub fn copia_clave(k: &ClaveRsa) -> (r: ClaveRsa)
    ensures
        r@ == k@,
{
    match k {
        ClaveRsa::Pkcs8(d) => ClaveRsa::Pkcs8(vstd::slice::slice_to_vec(d.as_slice())),
        ClaveRsa::Pkcs1(d) => ClaveRsa::Pkcs1(vstd::slice::slice_to_vec(d.as_slice())),
    }
}

/// The signer's identity.
pub struct Identity {
    /// The private key.
    pub(crate) key: ClaveRsa,
    /// The signer's certificate, in DER.
    pub cert: Vec<u8>,
    /// The rest of the chain, in DER, up to the root.
    pub chain: Vec<Vec<u8>>,
}

/// An identity as values: the key, the certificate and the chain.
pub struct IdentidadModelo {
    pub clave: (Seq<u8>, bool),
    pub cert: Seq<u8>,
    pub chain: Seq<Seq<u8>>,
}

impl View for Identity {
    type V = IdentidadModelo;

    closed spec fn view(&self) -> IdentidadModelo {
        IdentidadModelo { clave: self.key@, cert: self.cert@, chain: vista_bytes(self.chain@) }
    }
}

/// The parts of an identity as values.
pub(crate) proof fn lema_identidad(i: &Identity)
    ensures
        i@.clave == i.key@,
        i@.cert == i.cert@,
        i@.chain.len() == i.chain@.len(),
        forall|j: int| 0 <= j < i.chain@.len() ==> #[trigger] i@.chain[j] == i.chain@[j]@,
{
}

/// Whether every certificate of a list can be read.
pub open spec fn todos_validos(cs: Seq<Seq<u8>>) -> bool {
    forall|i: int| 0 <= i < cs.len() ==> certificado_valido(#[trigger] cs[i])
}

/// Whether an identity can sign: its key can sign and its certificates can
/// be read.
pub open spec fn identidad_valida(m: IdentidadModelo) -> bool {
    &&& clave_valida(m.clave)
    &&& certificado_valido(m.cert)
    &&& todos_validos(m.chain)
}

impl Identity {
    /// The key can sign and the certificates can be read.
    pub open spec fn wf(&self) -> bool {
        identidad_valida(self@)
    }
}

/// An error as values, where the message of a refused certificate (the text
/// of the `der` crate's error) is left open.
pub open spec fn mismo_error(e: ErrorModelo, m: ErrorModelo) -> bool {
    match (e, m) {
        (ErrorModelo::Certificate(_), ErrorModelo::Certificate(_)) => true,
        _ => e == m,
    }
}

/// Whether an outcome agrees with a model of the identity read.
pub open spec fn segun_identidad(
    r: core::result::Result<Identity, Error>,
    m: core::result::Result<IdentidadModelo, ErrorModelo>,
) -> bool {
    match (r, m) {
        (Ok(i), Ok(im)) => i@ == im && identidad_valida(im),
        (Err(e), Err(em)) => mismo_error(e@, em),
        _ => false,
    }
}

/// The identity made of a key and some certificates: the certificates must
/// all be readable, and there must be one.
pub open spec fn identidad_de(clave: (Seq<u8>, bool), cs: Seq<Seq<u8>>) -> core::result::Result<
    IdentidadModelo,
    ErrorModelo,
> {
    if !todos_validos(cs) {
        Err(ErrorModelo::Certificate(seq![]))
    } else if cs.len() == 0 {
        Err(ErrorModelo::Missing("certificado"@))
    } else {
        Ok(IdentidadModelo { clave, cert: cs[0], chain: cs.drop_first() })
    }
}

/// What the `p12-keystore` crate makes of a store.
pub open spec fn identidad_moderna(raw: Seq<u8>, password: Seq<char>) -> core::result::Result<
    IdentidadModelo,
    ErrorModelo,
> {
    match almacen_moderno(raw, password) {
        None => Err(ErrorModelo::Pkcs12),
        Some(None) => Err(ErrorModelo::Missing("clave privada"@)),
        Some(Some((k, cs))) => match clave_de(k) {
            Err(e) => Err(e),
            Ok(clave) => identidad_de(clave, cs),
        },
    }
}

/// What the `p12` crate makes of a store, when its parser can be given
/// the store (see `almacen_legible`); any other store is refused.
pub open spec fn identidad_antigua(raw: Seq<u8>, password: Seq<char>) -> core::result::Result<
    IdentidadModelo,
    ErrorModelo,
> {
    if !crate::pkcs12::almacen_legible(raw) {
        Err(ErrorModelo::Pkcs12)
    } else {
    match claves_pkcs12(raw, password) {
        None => Err(ErrorModelo::Pkcs12),
        Some(ks) => if ks.len() == 0 {
            Err(ErrorModelo::Missing("clave privada"@))
        } else {
            match clave_de(ks[0]) {
                Err(e) => Err(e),
                Ok(clave) => match certificados_pkcs12(raw, password) {
                    None => Err(ErrorModelo::Pkcs12),
                    Some(cs) => identidad_de(clave, cs),
                },
            }
        },
    }
    }
}

/// The identity read from a store: with the `p12-keystore` crate, else
/// with the `p12` crate (older encryption).
pub open spec fn identidad_pkcs12(raw: Seq<u8>, password: Seq<char>) -> core::result::Result<
    IdentidadModelo,
    ErrorModelo,
> {
    match identidad_moderna(raw, password) {
        Ok(i) => Ok(i),
        Err(_) => identidad_antigua(raw, password),
    }
}

/// Checks the certificates and makes the identity.
fn identidad(clave: ClaveRsa, certs: Vec<Vec<u8>>) -> (r: core::result::Result<Identity, Error>)
    requires
        clave_valida(clave@),
    ensures
        segun_identidad(r, identidad_de(clave@, vista_bytes(certs@))),
{
    let mut i: usize = 0;
    while i < certs.len()
        invariant
            i <= certs@.len(),
            forall|j: int| 0 <= j < i ==> certificado_valido(#[trigger] certs@[j]@),
        decreases certs@.len() - i,
    {
        match leer_certificado(certs[i].as_slice()) {
            Ok(()) => {},
            Err(m) => {
                assert(!todos_validos(vista_bytes(certs@))) by {
                    assert(vista_bytes(certs@)[i as int] == certs@[i as int]@);
                }
                return Err(Error::Certificate(m));
            },
        }
        i += 1;
    }
    assert(todos_validos(vista_bytes(certs@))) by {
        assert forall|j: int| 0 <= j < vista_bytes(certs@).len() implies certificado_valido(
            #[trigger] vista_bytes(certs@)[j],
        ) by {
            assert(vista_bytes(certs@)[j] == certs@[j]@);
        }
    }
    if certs.len() == 0 {
        return Err(Error::Missing("certificado"));
    }
    let mut certs = certs;
    let ghost antes = vista_bytes(certs@);
    let cert = certs.remove(0);
    assert(vista_bytes(certs@) =~= antes.drop_first());
    let r = Identity { key: clave, cert, chain: certs };
    assert(todos_validos(vista_bytes(r.chain@))) by {
        assert forall|j: int| 0 <= j < vista_bytes(r.chain@).len() implies certificado_valido(
            #[trigger] vista_bytes(r.chain@)[j],
        ) by {
            assert(vista_bytes(r.chain@)[j] == antes[j + 1]);
        }
    }
    Ok(r)
}

/// Reads the identity with the `p12-keystore` crate.
pub fn modern(raw: &[u8], password: &str) -> (r: core::result::Result<Identity, Error>)
    ensures
        segun_identidad(r, identidad_moderna(raw@, password@)),
{
    let (k, certs) = match abrir_moderno(raw, password) {
        None => return Err(Error::Pkcs12),
        Some(None) => return Err(Error::Missing("clave privada")),
        Some(Some(x)) => x,
    };
    let clave = match parse_private_key(k.as_slice()) {
        Ok(c) => c,
        Err(e) => return Err(e),
    };
    identidad(clave, certs)
}

/// Reads the identity with the `p12` crate.
pub fn legacy(raw: &[u8], password: &str) -> (r: core::result::Result<Identity, Error>)
    ensures
        segun_identidad(r, identidad_antigua(raw@, password@)),
{
    if !crate::pkcs12::es_almacen_legible(raw) {
        return Err(Error::Pkcs12);
    }
    let claves = match bolsas_de_claves(raw, password) {
        None => return Err(Error::Pkcs12),
        Some(ks) => ks,
    };
    if claves.len() == 0 {
        return Err(Error::Missing("clave privada"));
    }
    assert(vista_bytes(claves@)[0] == claves@[0]@);
    let clave = match parse_private_key(claves[0].as_slice()) {
        Ok(c) => c,
        Err(e) => return Err(e),
    };
    let certs = match bolsas_de_certificados(raw, password) {
        None => return Err(Error::Pkcs12),
        Some(cs) => cs,
    };
    identidad(clave, certs)
}

/// Reads the signer's identity from a PKCS#12 store: first as the
/// `p12-keystore` crate reads it (modern encryption), else as the `p12`
/// crate does.
pub fn parse_pkcs12(raw: &[u8], password: &str) -> (r: core::result::Result<Identity, Error>)
    ensures
        segun_identidad(r, identidad_pkcs12(raw@, password@)),
{
    match modern(raw, password) {
        Ok(i) => Ok(i),
        Err(_) => legacy(raw, password),
    }
}

/// The object identifier of the common name, 2.5.4.3, as contents.
pub open spec fn oid_cn() -> Seq<u8> {
    seq![0x55u8, 0x04, 0x03]
}

/// The common name among the attributes of a name: the value of the first
/// one that is a common name, when it is a `UTF8String`.
pub open spec fn nombre_comun_de(attrs: Seq<(Seq<u8>, u8, Seq<u8>)>) -> Option<Seq<char>>
    decreases attrs.len(),
{
    if attrs.len() == 0 {
        None
    } else if attrs[0].0 == oid_cn() {
        if attrs[0].1 == 0x0c && valid_utf8(attrs[0].2) {
            Some(decode_utf8(attrs[0].2))
        } else {
            None
        }
    } else {
        nombre_comun_de(attrs.drop_first())
    }
}

/// The common name of the subject of a certificate, if it has one that is
/// text.
pub open spec fn nombre_comun_cert(cert: Seq<u8>) -> Option<Seq<char>> {
    match atributos_sujeto(cert) {
        None => None,
        Some(attrs) => nombre_comun_de(attrs),
    }
}

/// The common name of a certificate's subject.
pub fn nombre_comun(cert: &[u8]) -> (r: Option<String>)
    ensures
        crate::protocol::vista_opcional(r) == nombre_comun_cert(cert@),
{
    let attrs = match atributos_del_sujeto(cert) {
        Some(a) => a,
        None => return None,
    };
    let ghost vista = attrs@.map_values(|a: (Vec<u8>, u8, Vec<u8>)| (a.0@, a.1, a.2@));
    assert(atributos_sujeto(cert@) == Some(vista));
    let cn = [0x55u8, 0x04, 0x03];
    assert(cn@ =~= oid_cn());
    let mut i: usize = 0;
    assert(vista.subrange(0, vista.len() as int) =~= vista);
    while i < attrs.len()
        invariant
            i <= attrs@.len(),
            cn@ == oid_cn(),
            atributos_sujeto(cert@) == Some(vista),
            vista.len() == attrs@.len(),
            vista == attrs@.map_values(|a: (Vec<u8>, u8, Vec<u8>)| (a.0@, a.1, a.2@)),
            nombre_comun_de(vista) == nombre_comun_de(vista.subrange(i as int, vista.len() as int)),
        decreases attrs@.len() - i,
    {
        let ghost resto = vista.subrange(i as int, vista.len() as int);
        assert(resto[0] == (attrs@[i as int].0@, attrs@[i as int].1, attrs@[i as int].2@));
        if crate::texto::iguales_bytes(attrs[i].0.as_slice(), cn.as_slice()) {
            if attrs[i].1 == 0x0c {
                return texto_utf8(attrs[i].2.as_slice());
            }
            return None;
        }
        assert(resto.drop_first() =~= vista.subrange(i + 1, vista.len() as int));
        i += 1;
    }
    None
}

impl Identity {
    /// The common name of the signer.
    pub fn common_name(&self) -> (r: Option<String>)
        ensures
            crate::protocol::vista_opcional(r) == nombre_comun_cert(self@.cert),
    {
        nombre_comun(self.cert.as_slice())
    }

    /// The signer's certificate in DER (to send it to a signing service).
    pub fn cert_der(&self) -> (r: core::result::Result<Vec<u8>, Error>)
        ensures
            r matches Ok(v) && v@ == self@.cert,
    {
        Ok(vstd::slice::slice_to_vec(self.cert.as_slice()))
    }

    /// The last certificate of the chain (the root) in DER, if there is one.
    pub fn root_der(&self) -> (r: Option<Vec<u8>>)
        ensures
            match r {
                Some(v) => self@.chain.len() > 0 && v@ == self@.chain.last(),
                None => self@.chain.len() == 0,
            },
    {
        if self.chain.len() == 0 {
            None
        } else {
            Some(vstd::slice::slice_to_vec(self.chain[self.chain.len() - 1].as_slice()))
        }
    }

    /// Whether the key can sign a SHA-256 digest, as `firma_sha256_cabe`
    /// says.
    pub fn firma_sha256_posible(&self) -> (r: bool)
        requires
            self.wf(),
        ensures
            r == firma_sha256_cabe(self@.clave),
    {
        match &self.key {
            ClaveRsa::Pkcs8(d) => modulo_pkcs8(d.as_slice()) >= 62,
            ClaveRsa::Pkcs1(d) => modulo_pkcs1(d.as_slice()) >= 62,
        }
    }

    /// Signs `datos` with RSA PKCS#1 v1.5 and SHA-256, giving the raw
    /// signature: step two of the three-step signing of the portals.
    pub fn firmar_sha256(&self, datos: &[u8]) -> (r: core::result::Result<Vec<u8>, Error>)
        requires
            self.wf(),
            firma_sha256_cabe(self@.clave),
        ensures
            r matches Ok(v) && v@ == firma_de(self@.clave, datos@),
    {
        match &self.key {
            ClaveRsa::Pkcs8(d) => Ok(firmar_pkcs8(d.as_slice(), datos)),
            ClaveRsa::Pkcs1(d) => Ok(firmar_pkcs1(d.as_slice(), datos)),
        }
    }
}

/// The signature of `datos` by a key.
pub open spec fn firma_de(clave: (Seq<u8>, bool), datos: Seq<u8>) -> Seq<u8> {
    if clave.1 {
        firma_con_pkcs8(clave.0, datos)
    } else {
        firma_con_pkcs1(clave.0, datos)
    }
}

/// The identity read from a store is its key with the certificates as the
/// store lists them: the signer's certificate is the first one, and the
/// chain is the rest, in order. The reader that succeeds decides which
/// list that is: the `p12-keystore` list when that crate reads the store,
/// else the `p12` list.
pub proof fn ley_certificado_del_firmante(raw: Seq<u8>, password: Seq<char>)
    ensures
        identidad_pkcs12(raw, password) matches Ok(im) ==> exists|cs: Seq<Seq<u8>>|
            cs.len() > 0 && #[trigger] todos_validos(cs) && im.cert == cs[0] && seq![im.cert]
                + im.chain == cs && (almacen_moderno(raw, password) == Some(
                Some((almacen_moderno(raw, password)->Some_0->Some_0.0, cs)),
            ) || (identidad_moderna(raw, password) is Err && certificados_pkcs12(raw, password)
                == Some(cs))),
        match almacen_moderno(raw, password) {
            Some(Some((k, cs))) => clave_de(k) is Ok && todos_validos(cs) && cs.len() > 0
                ==> identidad_pkcs12(raw, password) == Ok::<IdentidadModelo, ErrorModelo>(
                (IdentidadModelo { clave: clave_de(k)->Ok_0, cert: cs[0], chain: cs.drop_first() }),
            ),
            _ => true,
        },
{
    if let Ok(im) = identidad_pkcs12(raw, password) {
        match identidad_moderna(raw, password) {
            Ok(_) => {
                let (k, cs) = almacen_moderno(raw, password)->Some_0->Some_0;
                assert(seq![cs[0]] + cs.drop_first() =~= cs);
                assert(todos_validos(cs));
            },
            Err(_) => {
                let cs = certificados_pkcs12(raw, password)->Some_0;
                assert(seq![cs[0]] + cs.drop_first() =~= cs);
                assert(todos_validos(cs));
            },
        }
    }
}

} // verus!
