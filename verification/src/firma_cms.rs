//! CMS (RFC 5652) detached signatures: the digest of the signed data, the
//! signed attributes, and the assembly of the `SignedData` with the `cms`
//! crate.

use vstd::prelude::*;
use sha2::Digest;
use der::Decode;
use der::Encode;
use crate::asn1::{codificar_tlv, largo_maximo, tlv};
use crate::error::{Error, ErrorModelo};
use crate::keystore::{
    certificado_valido, clave_pkcs1_valida, clave_pkcs8_valida, identidad_valida, ClaveRsa,
    Identity,
};
use rsa::pkcs1::DecodeRsaPrivateKey;
use rsa::pkcs8::DecodePrivateKey;

verus! {

/// The SHA-256 digest of some bytes (FIPS 180-4), as the `sha2` crate
/// computes it.
pub uninterp spec fn resumen_sha256(datos: Seq<u8>) -> Seq<u8>;

/// The SHA-256 digest of `data`.
///
/// Calls `sha2::Sha256::digest`. Its output type holds 32 bytes; which
/// bytes is left to the name `resumen_sha256`.
#[verifier::external_body]
pub fn sha256(data: &[u8]) -> (r: Vec<u8>)
    ensures
        r@ == resumen_sha256(data@),
        r@.len() == 32,
{
    sha2::Sha256::digest(data).to_vec()
}

#[verifier::external_type_specification]
#[verifier::external_body]
pub struct ExRsaPrivateKey(rsa::RsaPrivateKey);

#[verifier::external_type_specification]
#[verifier::external_body]
pub struct ExAttribute(x509_cert::attr::Attribute);

#[verifier::external_type_specification]
#[verifier::external_body]
pub struct ExSignerIdentifier(cms::signed_data::SignerIdentifier);

#[verifier::external_type_specification]
#[verifier::external_body]
pub struct ExEncapsulatedContentInfo(cms::signed_data::EncapsulatedContentInfo);

#[verifier::external_type_specification]
#[verifier::external_body]
pub struct ExSignedDataBuilder<'s>(cms::builder::SignedDataBuilder<'s>);

/// Reads an RSA private key in PKCS#8 DER with
/// `rsa::RsaPrivateKey::from_pkcs8_der`; `requires` admits only what it
/// reads.
#[verifier::external_body]
fn clave_rsa_pkcs8(der: &[u8]) -> (r: rsa::RsaPrivateKey)
    requires
        clave_pkcs8_valida(der@),
{
    rsa::RsaPrivateKey::from_pkcs8_der(der).unwrap()
}

/// Reads an RSA private key in PKCS#1 DER with
/// `rsa::RsaPrivateKey::from_pkcs1_der`; `requires` admits only what it
/// reads.
#[verifier::external_body]
fn clave_rsa_pkcs1(der: &[u8]) -> (r: rsa::RsaPrivateKey)
    requires
        clave_pkcs1_valida(der@),
{
    rsa::RsaPrivateKey::from_pkcs1_der(der).unwrap()
}

/// The issuer and the serial number that `x509_cert::Certificate::from_der`
/// reads from a certificate, each as its DER.
pub uninterp spec fn sid_de_certificado(cert: Seq<u8>) -> Seq<Seq<u8>>;

/// The issuer and the serial number that a `SignerIdentifier` holds, each as
/// its DER (for the `IssuerAndSerialNumber` choice).
pub uninterp spec fn emisor_y_serie(s: cms::signed_data::SignerIdentifier) -> Seq<Seq<u8>>;

/// The identifier of the signer: the issuer and serial number of its
/// certificate, read with `x509_cert::Certificate::from_der`. Both are
/// parts of the certificate, written again as they were read, so neither
/// is longer than it.
#[verifier::external_body]
fn identificador_de(cert: &[u8]) -> (r: cms::signed_data::SignerIdentifier)
    requires
        certificado_valido(cert@),
    ensures
        emisor_y_serie(r) == sid_de_certificado(cert@),
        emisor_y_serie(r).len() == 2,
        emisor_y_serie(r)[0].len() <= cert@.len(),
        emisor_y_serie(r)[1].len() <= cert@.len(),
{
    let c = x509_cert::Certificate::from_der(cert).unwrap();
    let tbs = c.tbs_certificate;
    cms::signed_data::SignerIdentifier::IssuerAndSerialNumber(cms::cert::IssuerAndSerialNumber {
        issuer: tbs.issuer,
        serial_number: tbs.serial_number,
    })
}

/// The contents of the object identifier `data` (1.2.840.113549.1.7.1).
pub open spec fn oid_data() -> Seq<u8> {
    crate::pkcs12::oid_data()
}

/// What an `EncapsulatedContentInfo` holds: the contents of its content
/// type's object identifier, followed by its content when it has one.
pub uninterp spec fn encapsulado(e: cms::signed_data::EncapsulatedContentInfo) -> Seq<Seq<u8>>;

/// The encapsulated content of a detached signature: of type `id-data`
/// (`const_oid::db::rfc5911::ID_DATA`), without the content.
#[verifier::external_body]
fn contenido_externo() -> (r: cms::signed_data::EncapsulatedContentInfo)
    ensures
        encapsulado(r) == seq![oid_data()],
{
    cms::signed_data::EncapsulatedContentInfo {
        econtent_type: const_oid::db::rfc5911::ID_DATA,
        econtent: None,
    }
}

/// What `x509_cert::Certificate::from_der` and then `Encode::to_der` make
/// of some bytes: the DER by which the `cms` crate compares certificates.
pub uninterp spec fn der_de_certificado(cert: Seq<u8>) -> Option<Seq<u8>>;

/// The values of an attribute, in order, each with the contents of the
/// attribute's object identifier and the DER of the value.
pub uninterp spec fn contenido_atributo(a: x509_cert::attr::Attribute) -> Seq<(Seq<u8>, Seq<u8>)>;

/// A signer as the builder holds it: the key, the issuer and serial number
/// of its certificate, the digest algorithm (the contents of its object
/// identifier), the signed attributes and the unsigned attributes, each as
/// `contenido_atributo` gives it.
pub struct ModeloFirmante {
    pub clave: (Seq<u8>, bool),
    pub sid: Seq<Seq<u8>>,
    pub digest: Seq<u8>,
    pub firmados: Seq<Seq<(Seq<u8>, Seq<u8>)>>,
    pub sin_firmar: Seq<Seq<(Seq<u8>, Seq<u8>)>>,
}

/// The encapsulated content of a `SignedDataBuilder`, as `encapsulado`
/// gives it.
pub uninterp spec fn encapsulado_del_builder(b: cms::builder::SignedDataBuilder) -> Seq<Seq<u8>>;

/// The certificates added to a `SignedDataBuilder`, in order, each as
/// `der_de_certificado` gives it.
pub uninterp spec fn certificados_del_builder(b: cms::builder::SignedDataBuilder) -> Seq<Option<Seq<u8>>>;

/// The digest algorithms added to a `SignedDataBuilder`, in order, as the
/// contents of their object identifiers (all without parameters).
pub uninterp spec fn algoritmos_del_builder(b: cms::builder::SignedDataBuilder) -> Seq<Seq<u8>>;

/// The signers added to a `SignedDataBuilder`, in order.
pub uninterp spec fn firmantes_del_builder(b: cms::builder::SignedDataBuilder) -> Seq<ModeloFirmante>;

/// The DER of the `ContentInfo` of type `signedData` that
/// `SignedDataBuilder::build` and `Encode::to_der` write for a builder
/// holding this encapsulated content, these digest algorithms, these
/// certificates and these signers (each signed with RSA PKCS#1 v1.5 and
/// SHA-256 over the DER of its signed attributes).
pub uninterp spec fn der_cms(
    encapsulado: Seq<Seq<u8>>,
    algoritmos: Seq<Seq<u8>>,
    certificados: Seq<Option<Seq<u8>>>,
    firmantes: Seq<ModeloFirmante>,
) -> Seq<u8>;

/// Whether the certificates of a `SignedData` can form its `SET OF`: each
/// can be written as DER, and no two are equal.
pub open spec fn certificados_unicos(cs: Seq<Option<Seq<u8>>>) -> bool {
    &&& forall|i: int| 0 <= i < cs.len() ==> (#[trigger] cs[i]) is Some
    &&& forall|i: int, j: int| 0 <= i < j < cs.len() ==> #[trigger] cs[i] != #[trigger] cs[j]
}

/// The certificates that a signature carries: the signer's and its chain.
pub open spec fn certificados_de(cert: Seq<u8>, chain: Seq<Seq<u8>>) -> Seq<Option<Seq<u8>>> {
    seq![der_de_certificado(cert)] + chain.map_values(|c: Seq<u8>| der_de_certificado(c))
}

/// Whether a signer's certificate and chain can go into one signature:
/// `SignedDataBuilder::build` unwraps the `SET OF` of its certificates,
/// which refuses two equal ones.
pub open spec fn cadena_sin_repetidos(cert: Seq<u8>, chain: Seq<Seq<u8>>) -> bool {
    certificados_unicos(certificados_de(cert, chain))
}

/// A bound far below the 256 MiB that a DER length can say: the sizes
/// below it keep every element of a signature within that limit.
pub open spec fn mib() -> nat {
    0x0010_0000
}

/// Whether an attribute as the builder holds it is small: one value, a
/// short object identifier and a value of at most a MiB.
pub open spec fn atributo_pequeno(a: Seq<(Seq<u8>, Seq<u8>)>) -> bool {
    a.len() == 1 && a[0].0.len() <= 64 && a[0].1.len() <= mib()
}

/// Whether a signer can be signed and written: its key's modulus holds a
/// PKCS#1 v1.5 SHA-256 signature and is at most a MiB, its identifier has
/// an issuer and a serial number of at most a MiB, and it has at most two
/// signed and one unsigned small attributes.
pub open spec fn firmante_pequeno(f: ModeloFirmante) -> bool {
    &&& crate::keystore::firma_sha256_cabe(f.clave)
    &&& crate::keystore::tamano_clave(f.clave) <= mib()
    &&& f.sid.len() == 2 && f.sid[0].len() <= mib() && f.sid[1].len() <= mib()
    &&& f.digest.len() <= 64
    &&& f.firmados.len() <= 2 && f.sin_firmar.len() <= 1
    &&& forall|i: int| 0 <= i < f.firmados.len() ==> atributo_pequeno(#[trigger] f.firmados[i])
    &&& forall|i: int| 0 <= i < f.sin_firmar.len() ==> atributo_pequeno(#[trigger] f.sin_firmar[i])
}

/// Whether what a builder holds can be written: a short encapsulated
/// content, at most 64 certificates of at most a MiB each, and small
/// signers.
pub open spec fn builder_cabe(
    enc: Seq<Seq<u8>>,
    algs: Seq<Seq<u8>>,
    certs: Seq<Option<Seq<u8>>>,
    firmantes: Seq<ModeloFirmante>,
) -> bool {
    &&& enc.len() == 1 && enc[0].len() <= 64
    &&& forall|i: int| 0 <= i < algs.len() ==> (#[trigger] algs[i]).len() <= 64
    &&& certs.len() <= 64
    &&& forall|i: int| 0 <= i < certs.len() ==> (#[trigger] certs[i] matches Some(d) && d.len() <= mib())
    &&& forall|i: int| 0 <= i < firmantes.len() ==> firmante_pequeno(#[trigger] firmantes[i])
}

/// The DER by which a certificate is compared.
///
/// Calls `x509_cert::Certificate::from_der` and `Encode::to_der`; the
/// outcome is left to the name `der_de_certificado`.
#[verifier::external_body]
fn der_reescrito(cert: &[u8]) -> (r: Option<Vec<u8>>)
    ensures
        der_de_certificado(cert@) == match r {
            Some(v) => Some(v@),
            None => None,
        },
{
    x509_cert::Certificate::from_der(cert).ok()?.to_der().ok()
}

/// Whether a signer's certificate and chain can go into one signature, as
/// `cadena_sin_repetidos` says.
pub fn certificados_distintos(cert: &[u8], chain: &[Vec<u8>]) -> (r: bool)
    ensures
        r == cadena_sin_repetidos(cert@, crate::keystore::vista_bytes(chain@)),
{
    let ghost cs = certificados_de(cert@, crate::keystore::vista_bytes(chain@));
    assert(cs.len() == chain@.len() + 1);
    let mut ds: Vec<Vec<u8>> = Vec::new();
    match der_reescrito(cert) {
        Some(d) => ds.push(d),
        None => {
            assert(cs[0] is None);
            return false;
        },
    }
    let mut i: usize = 0;
    while i < chain.len()
        invariant
            i <= chain@.len(),
            cs == certificados_de(cert@, crate::keystore::vista_bytes(chain@)),
            cs.len() == chain@.len() + 1,
            ds@.len() == i + 1,
            forall|k: int| 0 <= k < ds@.len() ==> cs[k] == Some(#[trigger] ds@[k]@),
        decreases chain@.len() - i,
    {
        assert(cs[i + 1] == der_de_certificado(chain@[i as int]@));
        match der_reescrito(chain[i].as_slice()) {
            Some(d) => ds.push(d),
            None => {
                assert(cs[i + 1] is None);
                return false;
            },
        }
        i += 1;
    }
    let mut a: usize = 0;
    while a < ds.len()
        invariant
            cs == certificados_de(cert@, crate::keystore::vista_bytes(chain@)),
            ds@.len() == cs.len(),
            forall|k: int| 0 <= k < ds@.len() ==> cs[k] == Some(#[trigger] ds@[k]@),
            forall|x: int, y: int| 0 <= x < a && x < y < cs.len() ==> #[trigger] cs[x] != #[trigger] cs[y],
        decreases ds@.len() - a,
    {
        let mut b: usize = a + 1;
        while b < ds.len()
            invariant
                a < ds@.len(),
                a + 1 <= b <= ds@.len(),
                cs == certificados_de(cert@, crate::keystore::vista_bytes(chain@)),
                ds@.len() == cs.len(),
                forall|k: int| 0 <= k < ds@.len() ==> cs[k] == Some(#[trigger] ds@[k]@),
                forall|x: int, y: int| 0 <= x < a && x < y < cs.len() ==> #[trigger] cs[x] != #[trigger] cs[y],
                forall|y: int| a < y < b ==> cs[a as int] != #[trigger] cs[y],
            decreases ds@.len() - b,
        {
            if crate::texto::iguales_bytes(ds[a].as_slice(), ds[b].as_slice()) {
                assert(cs[a as int] == Some(ds@[a as int]@));
                assert(cs[b as int] == Some(ds@[b as int]@));
                assert(cs[a as int] == cs[b as int]);
                assert(!certificados_unicos(cs));
                return false;
            }
            assert(cs[a as int] == Some(ds@[a as int]@));
            assert(cs[b as int] == Some(ds@[b as int]@));
            b += 1;
        }
        a += 1;
    }
    assert forall|k: int| 0 <= k < cs.len() implies (#[trigger] cs[k]) is Some by {
        assert(cs[k] == Some(ds@[k]@));
    }
    true
}

/// A new `cms::builder::SignedDataBuilder` for the encapsulated content,
/// with no digest algorithm, certificate or signer.
#[verifier::external_body]
fn nuevo_signed_data<'s>(e: &'s cms::signed_data::EncapsulatedContentInfo) -> (r:
    cms::builder::SignedDataBuilder<'s>)
    ensures
        encapsulado_del_builder(r) == encapsulado(*e),
        certificados_del_builder(r) == Seq::<Option<Seq<u8>>>::empty(),
        algoritmos_del_builder(r) == Seq::<Seq<u8>>::empty(),
        firmantes_del_builder(r) == Seq::<ModeloFirmante>::empty(),
{
    cms::builder::SignedDataBuilder::new(e)
}

/// Adds SHA-256 (`const_oid::db::rfc5912::ID_SHA_256`, without parameters)
/// to the digest algorithms with `SignedDataBuilder::add_digest_algorithm`,
/// which always succeeds.
#[verifier::external_body]
fn agregar_algoritmo(b: &mut cms::builder::SignedDataBuilder) -> (r: core::result::Result<(), String>)
    ensures
        r is Ok,
        algoritmos_del_builder(*final(b)) == algoritmos_del_builder(*old(b)).push(
            crate::tsa::oid_sha256(),
        ),
        encapsulado_del_builder(*final(b)) == encapsulado_del_builder(*old(b)),
        certificados_del_builder(*final(b)) == certificados_del_builder(*old(b)),
        firmantes_del_builder(*final(b)) == firmantes_del_builder(*old(b)),
{
    let alg = spki::AlgorithmIdentifierOwned { oid: const_oid::db::rfc5912::ID_SHA_256, parameters: None };
    b.add_digest_algorithm(alg).map(|_| ()).map_err(|e| format!("digest alg: {e:?}"))
}

/// Adds a certificate, read with `x509_cert::Certificate::from_der`, with
/// `SignedDataBuilder::add_certificate`, which appends it and always
/// succeeds. Written again, a certificate is no longer than the bytes it
/// was read from (only explicitly written default values are dropped).
#[verifier::external_body]
fn agregar_certificado(b: &mut cms::builder::SignedDataBuilder, cert: &[u8]) -> (r: core::result::Result<(), String>)
    requires
        certificado_valido(cert@),
    ensures
        r is Ok,
        certificados_del_builder(*final(b)) == certificados_del_builder(*old(b)).push(
            der_de_certificado(cert@),
        ),
        certificados_del_builder(*final(b)).last() matches Some(d) ==> d.len() <= cert@.len(),
        encapsulado_del_builder(*final(b)) == encapsulado_del_builder(*old(b)),
        algoritmos_del_builder(*final(b)) == algoritmos_del_builder(*old(b)),
        firmantes_del_builder(*final(b)) == firmantes_del_builder(*old(b)),
{
    let c = x509_cert::Certificate::from_der(cert).unwrap();
    let eleccion = cms::cert::CertificateChoices::Certificate(c);
    b.add_certificate(eleccion).map(|_| ()).map_err(|e| format!("{e:?}"))
}

/// The signer that `agregar_firmante` adds: SHA-256, and the two signed
/// attributes in this order.
pub open spec fn firmante_de(
    k: (Seq<u8>, bool),
    sid: Seq<Seq<u8>>,
    md: Seq<(Seq<u8>, Seq<u8>)>,
    scv2: Seq<(Seq<u8>, Seq<u8>)>,
    sin_firmar: Seq<Seq<(Seq<u8>, Seq<u8>)>>,
) -> ModeloFirmante {
    ModeloFirmante { clave: k, sid, digest: crate::tsa::oid_sha256(), firmados: seq![md, scv2], sin_firmar }
}

/// Adds the signer: a `cms::builder::SignerInfoBuilder` with the key (RSA
/// PKCS#1 v1.5 with SHA-256, a choice made by the key's type), the
/// identifier, SHA-256 (`ID_SHA_256`) and the encapsulated content, with
/// the two signed attributes, handed to `SignedDataBuilder::add_signer_info`,
/// which signs the DER of the signed attributes with `try_sign`.
/// Without content in the encapsulated content, the builder adds no
/// attribute of its own. Signing fails only when the padded digest does
/// not fit the modulus (under 62 bytes); writing fails only past the DER
/// length limit; the two attributes must differ, as their `SET OF` asks.
/// The message of a failure is not stated.
#[verifier::external_body]
fn agregar_firmante<'s>(
    b: &mut cms::builder::SignedDataBuilder<'s>,
    e: &'s cms::signed_data::EncapsulatedContentInfo,
    k: &ClaveFirma,
    sid: cms::signed_data::SignerIdentifier,
    md: x509_cert::attr::Attribute,
    scv2: x509_cert::attr::Attribute,
) -> (r: core::result::Result<(), String>)
    requires
        encapsulado(*e).len() == 1,
    ensures
        r is Ok ==> firmantes_del_builder(*final(b)) == firmantes_del_builder(*old(b)).push(firmante_de(k@, emisor_y_serie(sid), contenido_atributo(md), contenido_atributo(scv2), seq![])),
        r is Ok <== firmante_pequeno(firmante_de(k@, emisor_y_serie(sid), contenido_atributo(md), contenido_atributo(scv2), seq![])) && contenido_atributo(md) != contenido_atributo(scv2),
        r is Err ==> firmantes_del_builder(*final(b)) == firmantes_del_builder(*old(b)),
        encapsulado_del_builder(*final(b)) == encapsulado_del_builder(*old(b)),
        certificados_del_builder(*final(b)) == certificados_del_builder(*old(b)),
        algoritmos_del_builder(*final(b)) == algoritmos_del_builder(*old(b)),
{
    let key = rsa::pkcs1v15::SigningKey::<rsa::sha2::Sha256>::new(k.rsa.clone());
    let alg = spki::AlgorithmIdentifierOwned { oid: const_oid::db::rfc5912::ID_SHA_256, parameters: None };
    let mut si = cms::builder::SignerInfoBuilder::new(&key, sid, alg, e, None).map_err(|x| format!("signer info: {x:?}"))?;
    si.add_signed_attribute(md).map_err(|x| format!("message-digest: {x:?}"))?;
    si.add_signed_attribute(scv2).map_err(|x| format!("signing-certificate-v2: {x:?}"))?;
    b.add_signer_info::<_, rsa::pkcs1v15::Signature>(si).map(|_| ()).map_err(|x| format!("añadir signer info: {x:?}"))
}

/// As `agregar_firmante`, with one unsigned attribute more (the time
/// stamp) added with `SignerInfoBuilder::add_unsigned_attribute`.
#[verifier::external_body]
fn agregar_firmante_sellado<'s>(
    b: &mut cms::builder::SignedDataBuilder<'s>,
    e: &'s cms::signed_data::EncapsulatedContentInfo,
    k: &ClaveFirma,
    sid: cms::signed_data::SignerIdentifier,
    md: x509_cert::attr::Attribute,
    scv2: x509_cert::attr::Attribute,
    sello: x509_cert::attr::Attribute,
) -> (r: core::result::Result<(), String>)
    requires
        encapsulado(*e).len() == 1,
    ensures
        r is Ok ==> firmantes_del_builder(*final(b)) == firmantes_del_builder(*old(b)).push(firmante_de(k@, emisor_y_serie(sid), contenido_atributo(md), contenido_atributo(scv2), seq![contenido_atributo(sello)])),
        r is Ok <== firmante_pequeno(firmante_de(k@, emisor_y_serie(sid), contenido_atributo(md), contenido_atributo(scv2), seq![contenido_atributo(sello)])) && contenido_atributo(md) != contenido_atributo(scv2),
        r is Err ==> firmantes_del_builder(*final(b)) == firmantes_del_builder(*old(b)),
        encapsulado_del_builder(*final(b)) == encapsulado_del_builder(*old(b)),
        certificados_del_builder(*final(b)) == certificados_del_builder(*old(b)),
        algoritmos_del_builder(*final(b)) == algoritmos_del_builder(*old(b)),
{
    let key = rsa::pkcs1v15::SigningKey::<rsa::sha2::Sha256>::new(k.rsa.clone());
    let alg = spki::AlgorithmIdentifierOwned { oid: const_oid::db::rfc5912::ID_SHA_256, parameters: None };
    let mut si = cms::builder::SignerInfoBuilder::new(&key, sid, alg, e, None).map_err(|x| format!("signer info: {x:?}"))?;
    si.add_signed_attribute(md).map_err(|x| format!("message-digest: {x:?}"))?;
    si.add_signed_attribute(scv2).map_err(|x| format!("signing-certificate-v2: {x:?}"))?;
    si.add_unsigned_attribute(sello).map_err(|x| format!("signature-timestamp: {x:?}"))?;
    b.add_signer_info::<_, rsa::pkcs1v15::Signature>(si).map(|_| ()).map_err(|x| format!("añadir signer info: {x:?}"))
}

/// The DER of the `SET OF` signed attributes (`SignedAttributes`) that
/// `SignerInfoBuilder` writes, and signs, for these attributes.
pub uninterp spec fn der_firmados(firmados: Seq<Seq<(Seq<u8>, Seq<u8>)>>) -> Seq<u8>;

/// Whether the signed attributes are the message-digest attribute, whose
/// value is the digest `d` as an `OCTET STRING`, and one attribute of
/// another type.
pub open spec fn declara_resumen(firmados: Seq<Seq<(Seq<u8>, Seq<u8>)>>, d: Seq<u8>) -> bool {
    &&& firmados.len() == 2
    &&& firmados[0] == seq![(oid_resumen(), tlv(0x04, d))]
    &&& d.len() <= largo_maximo()
    &&& firmados[1].len() == 1
    &&& firmados[1][0].0 != oid_resumen()
}

/// What the reader of `validate` finds of a signer in a written signature:
/// the signature of the DER of its signed attributes with its key, that
/// DER, and the digest that its message-digest attribute declares.
pub open spec fn lee_firmante(v: Seq<u8>, f: ModeloFirmante) -> bool {
    &&& crate::validate::firma_primer_firmante(v) == Some(
        crate::keystore::firma_de(f.clave, der_firmados(f.firmados)),
    )
    &&& crate::validate::atributos_der_primer_firmante(v) == Some(
        Ok::<Seq<u8>, Seq<char>>(der_firmados(f.firmados)),
    )
    &&& forall|d: Seq<u8>| #[trigger] declara_resumen(f.firmados, d) ==> (
        crate::validate::atributos_primer_firmante(v) matches Some(Some(attrs))
            && crate::validate::resumen_declarado(attrs) == Ok::<Seq<u8>, Seq<char>>(d))
}

/// Builds the `ContentInfo` of type `signedData` with
/// `SignedDataBuilder::build` and writes its DER with `Encode::to_der`; the
/// bytes are left to the name `der_cms`. `build` unwraps the `SET OF` of
/// the digest algorithms, of the certificates and of the signers, which
/// refuse equal elements: at most one algorithm and one signer, and
/// certificates that `certificados_unicos` accepts, are asked. Writing
/// fails only past the DER length limit, which `builder_cabe` keeps far
/// from. What is written reads back with the same crate: the DER of a
/// `SEQUENCE` whose header gives its length, a `ContentInfo` of type
/// `signedData` whose content reads as a `SignedData`, with the signature of
/// its signer. The signer's signature is `SigningKey::<Sha256>::try_sign`
/// of the DER of its signed attributes (which `add_signer_info` wrote and
/// which the reader writes again from what it reads), and the values of
/// its attributes read back; a `SET OF` with one certificate reads back as
/// that certificate.
#[verifier::external_body]
fn construir(b: &mut cms::builder::SignedDataBuilder) -> (r: core::result::Result<Vec<u8>, String>)
    requires
        algoritmos_del_builder(*old(b)).len() <= 1,
        firmantes_del_builder(*old(b)).len() <= 1,
        certificados_unicos(certificados_del_builder(*old(b))),
    ensures
        r is Ok <== builder_cabe(encapsulado_del_builder(*old(b)), algoritmos_del_builder(*old(b)), certificados_del_builder(*old(b)), firmantes_del_builder(*old(b))),
        r matches Ok(v) ==> v@ == der_cms(encapsulado_del_builder(*old(b)), algoritmos_del_builder(*old(b)), certificados_del_builder(*old(b)), firmantes_del_builder(*old(b))),
        r matches Ok(v) ==> crate::validate::recorte_der(v@) == crate::validate::Recorte::Prefijo(
            v@.len() as int,
        ),
        r matches Ok(v) ==> (crate::validate::lectura_cms(v@) matches Ok(t) && t == crate::validate::oid_signed_data()),
        r matches Ok(v) ==> crate::validate::lectura_signed_data(v@) is Ok,
        r matches Ok(v) ==> (firmantes_del_builder(*old(b)).len() == 1
            ==> crate::validate::firma_primer_firmante(v@) is Some),
        r matches Ok(v) ==> (firmantes_del_builder(*old(b)).len() == 1 ==> crate::validate::atributos_der_primer_firmante(v@) == Some(Ok::<Seq<u8>, Seq<char>>(der_firmados(firmantes_del_builder(*old(b))[0].firmados)))),
        r matches Ok(v) ==> (firmantes_del_builder(*old(b)).len() == 1 ==> lee_firmante(v@, firmantes_del_builder(*old(b))[0])),
        r matches Ok(v) ==> (certificados_del_builder(*old(b)).len() == 1 ==> crate::validate::certificados_cms(v@) == certificados_del_builder(*old(b))),
{
    let info = b.build().map_err(|e| format!("build SignedData: {e:?}"))?;
    info.to_der().map_err(|e| format!("DER: {e:?}"))
}

/// Whether some bytes are exactly one DER element that the reader of
/// `asn1` accepts.
pub open spec fn un_elemento(v: Seq<u8>) -> bool {
    crate::asn1::leer_tlv(v, 0) matches Some((_t, _a, e)) && e == v.len()
}

/// The contents of the object identifier of the message-digest attribute
/// (1.2.840.113549.1.9.4).
pub open spec fn oid_resumen() -> Seq<u8> {
    seq![0x2au8, 0x86u8, 0x48u8, 0x86u8, 0xf7u8, 0x0du8, 0x01u8, 0x09u8, 0x04u8]
}

/// The contents of the object identifier of the signing-certificate-v2
/// attribute (1.2.840.113549.1.9.16.2.47).
pub open spec fn oid_certificado_v2() -> Seq<u8> {
    seq![0x2au8, 0x86u8, 0x48u8, 0x86u8, 0xf7u8, 0x0du8, 0x01u8, 0x09u8, 0x10u8, 0x02u8, 0x2fu8]
}

/// The contents of the object identifier of the signature-time-stamp
/// attribute (1.2.840.113549.1.9.16.2.14).
pub open spec fn oid_sello() -> Seq<u8> {
    seq![0x2au8, 0x86u8, 0x48u8, 0x86u8, 0xf7u8, 0x0du8, 0x01u8, 0x09u8, 0x10u8, 0x02u8, 0x0eu8]
}

/// The message-digest attribute (`const_oid::db::rfc5911::ID_MESSAGE_DIGEST`)
/// with one value read from its DER with `der::Any::from_der`, in a
/// `der::asn1::SetOfVec`. `from_der` accepts exactly one element with
/// nothing after it (the name `der_unico`); one that the reader of `asn1`
/// reads whole is such an element. The message of a failure is not stated.
#[verifier::external_body]
fn atributo_resumen(valor: &[u8]) -> (r: core::result::Result<x509_cert::attr::Attribute, String>)
    ensures
        r is Ok <==> der_unico(valor@),
        un_elemento(valor@) ==> r is Ok,
        r matches Ok(a) ==> contenido_atributo(a) == seq![(oid_resumen(), valor@)],
{
    let v = der::Any::from_der(valor).map_err(|e| e.to_string())?;
    let values = der::asn1::SetOfVec::try_from(vec![v]).map_err(|e| e.to_string())?;
    Ok(x509_cert::attr::Attribute { oid: const_oid::db::rfc5911::ID_MESSAGE_DIGEST, values })
}

/// As `atributo_resumen`, for the signing-certificate-v2 attribute
/// (`const_oid::db::rfc5911::ID_AA_SIGNING_CERTIFICATE_V_2`).
#[verifier::external_body]
fn atributo_certificado_v2(valor: &[u8]) -> (r: core::result::Result<x509_cert::attr::Attribute, String>)
    ensures
        r is Ok <==> der_unico(valor@),
        un_elemento(valor@) ==> r is Ok,
        r matches Ok(a) ==> contenido_atributo(a) == seq![(oid_certificado_v2(), valor@)],
{
    let v = der::Any::from_der(valor).map_err(|e| e.to_string())?;
    let values = der::asn1::SetOfVec::try_from(vec![v]).map_err(|e| e.to_string())?;
    Ok(x509_cert::attr::Attribute { oid: const_oid::db::rfc5911::ID_AA_SIGNING_CERTIFICATE_V_2, values })
}

/// As `atributo_resumen`, for the signature-time-stamp attribute, whose
/// identifier is written from its contents with
/// `ObjectIdentifier::new_unwrap` on a fixed, well-formed text.
#[verifier::external_body]
fn atributo_sello(valor: &[u8]) -> (r: core::result::Result<x509_cert::attr::Attribute, String>)
    ensures
        r is Ok <==> der_unico(valor@),
        un_elemento(valor@) ==> r is Ok,
        r matches Ok(a) ==> contenido_atributo(a) == seq![(oid_sello(), valor@)],
{
    let v = der::Any::from_der(valor).map_err(|e| e.to_string())?;
    let values = der::asn1::SetOfVec::try_from(vec![v]).map_err(|e| e.to_string())?;
    let oid = const_oid::ObjectIdentifier::new_unwrap("1.2.840.113549.1.9.16.2.14");
    Ok(x509_cert::attr::Attribute { oid, values })
}

/// The value of the message-digest attribute: the digest as a DER
/// `OCTET STRING`.
pub open spec fn valor_resumen(digest: Seq<u8>) -> Seq<u8> {
    tlv(0x04, digest)
}

/// The value of the signing-certificate-v2 attribute (RFC 5035): a
/// `SigningCertificateV2` with one `ESSCertIDv2` that holds the SHA-256
/// digest of the certificate (the default algorithm, not written).
pub open spec fn valor_certificado_v2(cert: Seq<u8>) -> Seq<u8> {
    tlv(0x30, tlv(0x30, tlv(0x30, tlv(0x04, resumen_sha256(cert)))))
}

/// An attribute of a signer, as values: the contents of its object
/// identifier and the DER of its one value.
pub struct Atributo {
    pub oid: Vec<u8>,
    pub valor: Vec<u8>,
}

impl View for Atributo {
    type V = (Seq<u8>, Seq<u8>);

    open spec fn view(&self) -> (Seq<u8>, Seq<u8>) {
        (self.oid@, self.valor@)
    }
}

/// Whether `der::Any::from_der` reads the bytes as one DER element with
/// nothing after it.
pub uninterp spec fn der_unico(valor: Seq<u8>) -> bool;

/// Checks that some bytes are one DER element.
///
/// Calls `der::Any::from_der`, which decodes a tag, a length and that many
/// bytes of value, and refuses trailing bytes; the outcome is left to the
/// name `der_unico`, and the message of a refusal (the `der` crate's
/// `Display`) is not stated.
#[verifier::external_body]
fn comprobar_der(valor: &[u8]) -> (r: core::result::Result<(), String>)
    ensures
        r is Ok <==> der_unico(valor@),
{
    der::Any::from_der(valor).map(|_| ()).map_err(|e| e.to_string())
}

/// The message-digest attribute (1.2.840.113549.1.9.4): the digest as a
/// DER `OCTET STRING`. A digest longer than a DER length can say is
/// refused, with the message of the `der` crate.
pub fn message_digest_attribute(digest: &[u8]) -> (r: core::result::Result<Atributo, Error>)
    ensures
        digest@.len() <= largo_maximo() ==> (r matches Ok(a) && a@ == (
            oid_resumen(),
            valor_resumen(digest@),
        ) && a.valor@.len() <= digest@.len() + 6),
        digest@.len() > largo_maximo() ==> (r matches Err(e) && e@ == ErrorModelo::Crypto(
            "incorrect length for OCTET STRING"@,
        )),
{
    if digest.len() > 0x0fff_ffff {
        return Err(Error::Crypto(String::from_str("incorrect length for OCTET STRING")));
    }
    let valor = codificar_tlv(0x04, digest);
    let oid = vec![0x2au8, 0x86u8, 0x48u8, 0x86u8, 0xf7u8, 0x0du8, 0x01u8, 0x09u8, 0x04u8];
    assert(oid@ == oid_resumen());
    Ok(Atributo { oid, valor })
}

/// Writes the value of the signing-certificate-v2 attribute.
pub fn valor_signing_certificate_v2(cert: &[u8]) -> (r: Vec<u8>)
    ensures
        r@ == valor_certificado_v2(cert@),
        r@.len() <= 64,
{
    let hash = sha256(cert);
    let octetos = codificar_tlv(0x04, hash.as_slice());
    let id = codificar_tlv(0x30, octetos.as_slice());
    let lista = codificar_tlv(0x30, id.as_slice());
    codificar_tlv(0x30, lista.as_slice())
}

/// The signing-certificate-v2 attribute (1.2.840.113549.1.9.16.2.47),
/// which binds the signature to the signer's certificate.
pub fn signing_certificate_v2(cert: &[u8]) -> (r: core::result::Result<Atributo, Error>)
    ensures
        r matches Ok(a) && a@ == (oid_certificado_v2(), valor_certificado_v2(cert@)),
        valor_certificado_v2(cert@).len() <= 64,
{
    let valor = valor_signing_certificate_v2(cert);
    let oid = vec![0x2au8, 0x86u8, 0x48u8, 0x86u8, 0xf7u8, 0x0du8, 0x01u8, 0x09u8, 0x10u8, 0x02u8, 0x2fu8];
    assert(oid@ == oid_certificado_v2());
    Ok(Atributo { oid, valor })
}

/// The signature-time-stamp attribute (1.2.840.113549.1.9.16.2.14), whose
/// value is the time-stamp token; a token that is not one DER element is
/// refused.
pub fn signature_timestamp(token: &[u8]) -> (r: core::result::Result<Atributo, Error>)
    ensures
        der_unico(token@) ==> (r matches Ok(a) && a@ == (oid_sello(), token@)),
        !der_unico(token@) ==> (r matches Err(e) && e@ is Crypto),
{
    match comprobar_der(token) {
        Ok(()) => {
            let oid = vec![0x2au8, 0x86u8, 0x48u8, 0x86u8, 0xf7u8, 0x0du8, 0x01u8, 0x09u8, 0x10u8, 0x02u8, 0x0eu8];
            assert(oid@ == oid_sello());
            Ok(Atributo { oid, valor: vstd::slice::slice_to_vec(token) })
        },
        Err(m) => Err(Error::Crypto(m)),
    }
}

/// A private key ready to sign: the key as values, and the key that the
/// `rsa` crate decoded from its DER.
struct ClaveFirma {
    clave: ClaveRsa,
    rsa: rsa::RsaPrivateKey,
}

impl View for ClaveFirma {
    type V = (Seq<u8>, bool);

    closed spec fn view(&self) -> (Seq<u8>, bool) {
        self.clave@
    }
}

/// The key `k` ready to sign: decoded from its DER as PKCS#8 or PKCS#1,
/// as its form says.
fn clave_rsa(k: &ClaveRsa) -> (r: ClaveFirma)
    requires
        crate::keystore::clave_valida(k@),
    ensures
        r@ == k@,
{
    let rsa = match k {
        ClaveRsa::Pkcs8(d) => clave_rsa_pkcs8(d.as_slice()),
        ClaveRsa::Pkcs1(d) => clave_rsa_pkcs1(d.as_slice()),
    };
    ClaveFirma { clave: crate::keystore::copia_clave(k), rsa }
}

/// A DER element that the reader accepts reads whole.
proof fn lema_un_elemento(t: u8, c: Seq<u8>)
    requires
        crate::asn1::etiqueta_valida(t),
        c.len() <= largo_maximo(),
    ensures
        un_elemento(tlv(t, c)),
{
    crate::asn1::lema_leer_tlv(Seq::empty(), t, c, Seq::empty());
    assert(Seq::<u8>::empty() + tlv(t, c) + Seq::<u8>::empty() =~= tlv(t, c));
}

/// The signer of a signature by an identity over a message digest, with
/// the time-stamp token as unsigned attribute when there is one.
pub open spec fn firmante_firma(
    digest: Seq<u8>,
    clave: (Seq<u8>, bool),
    cert: Seq<u8>,
    token: Option<Seq<u8>>,
) -> ModeloFirmante {
    firmante_de(
        clave,
        sid_de_certificado(cert),
        seq![(oid_resumen(), valor_resumen(digest))],
        seq![(oid_certificado_v2(), valor_certificado_v2(cert))],
        match token {
            None => Seq::<Seq<(Seq<u8>, Seq<u8>)>>::empty(),
            Some(t) => seq![seq![(oid_sello(), t)]],
        },
    )
}

/// The DER of the detached CMS signature that `build` writes: `id-data`
/// without content, SHA-256, the signer's certificate and its chain, and
/// the one signer of `firmante_firma`.
pub open spec fn cms_firmado(
    digest: Seq<u8>,
    clave: (Seq<u8>, bool),
    cert: Seq<u8>,
    chain: Seq<Seq<u8>>,
    token: Option<Seq<u8>>,
) -> Seq<u8> {
    der_cms(
        seq![oid_data()],
        seq![crate::tsa::oid_sha256()],
        certificados_de(cert, chain),
        seq![firmante_firma(digest, clave, cert, token)],
    )
}

/// Whether an identity can sign with a time-stamp token (that must be one
/// DER element) of at most a MiB: a key that can sign and a modulus of at
/// most a MiB, and at most 64 certificates of at most a MiB each.
pub open spec fn identidad_firmable(im: crate::keystore::IdentidadModelo, token: Option<Seq<u8>>) -> bool {
    &&& token matches Some(t) ==> der_unico(t) && t.len() <= mib()
    &&& crate::keystore::firma_sha256_cabe(im.clave)
    &&& crate::keystore::tamano_clave(im.clave) <= mib()
    &&& im.cert.len() <= mib()
    &&& im.chain.len() < 64
    &&& forall|i: int| 0 <= i < im.chain.len() ==> (#[trigger] im.chain[i]).len() <= mib()
}

/// Whether `build` owes a signature: a digest of at most a MiB less a few
/// bytes, and an identity and token that `identidad_firmable` accepts.
pub open spec fn firma_realizable(
    digest: Seq<u8>,
    im: crate::keystore::IdentidadModelo,
    token: Option<Seq<u8>>,
) -> bool {
    digest.len() + 8 <= mib() && identidad_firmable(im, token)
}

/// The token that an optional slice holds.
pub open spec fn vista_token(t: Option<&[u8]>) -> Option<Seq<u8>> {
    match t {
        Some(s) => Some(s@),
        None => None,
    }
}

/// Builds the DER `ContentInfo` of a detached `SignedData` for a message
/// digest: SHA-256, the signer's certificate and its chain, and one signer
/// with the message-digest and signing-certificate-v2 attributes, signed
/// with RSA PKCS#1 v1.5, and the time-stamp token as an unsigned attribute
/// when there is one.
pub fn build(message_digest: &[u8], identity: &Identity, timestamp: Option<&[u8]>) -> (r: core::result::Result<Vec<u8>, Error>)
    requires
        identidad_valida(identity@),
        cadena_sin_repetidos(identity@.cert, identity@.chain),
    ensures
        firma_realizable(message_digest@, identity@, vista_token(timestamp)) ==> r is Ok,
        r matches Err(e) ==> e@ is Crypto,
        r matches Ok(v) ==> v@ == cms_firmado(
            message_digest@,
            identity@.clave,
            identity@.cert,
            identity@.chain,
            vista_token(timestamp),
        ),
        r matches Ok(v) ==> crate::validate::recorte_der(v@) == crate::validate::Recorte::Prefijo(
            v@.len() as int,
        ),
        r matches Ok(v) ==> (crate::validate::lectura_cms(v@) matches Ok(t) && t == crate::validate::oid_signed_data()
            && crate::validate::lectura_signed_data(v@) is Ok
            && crate::validate::firma_primer_firmante(v@) is Some),
        r matches Ok(v) ==> lee_firmante(
            v@,
            firmante_firma(message_digest@, identity@.clave, identity@.cert, vista_token(timestamp)),
        ),
        r matches Ok(v) ==> (identity@.chain.len() == 0 ==> crate::validate::certificados_cms(v@)
            == seq![der_de_certificado(identity@.cert)]),
{
    proof {
        crate::keystore::lema_identidad(identity);
    }
    let ghost realizable = firma_realizable(message_digest@, identity@, vista_token(timestamp));
    let ghost ft = firmante_firma(message_digest@, identity@.clave, identity@.cert, vista_token(timestamp));
    let econtent = contenido_externo();
    let k = clave_rsa(&identity.key);
    let sid = identificador_de(identity.cert.as_slice());
    let md_a = match message_digest_attribute(message_digest) {
        Ok(a) => a,
        Err(e) => return Err(e),
    };
    proof {
        if message_digest@.len() <= largo_maximo() {
            lema_un_elemento(0x04, message_digest@);
        }
    }
    let md = match atributo_resumen(md_a.valor.as_slice()) {
        Ok(x) => x,
        Err(m) => return Err(Error::Crypto(m)),
    };
    let scv2_a = match signing_certificate_v2(identity.cert.as_slice()) {
        Ok(a) => a,
        Err(e) => return Err(e),
    };
    proof {
        let h = tlv(0x30, tlv(0x30, tlv(0x04, resumen_sha256(identity@.cert))));
        assert(valor_certificado_v2(identity@.cert) == tlv(0x30, h));
        lema_un_elemento(0x30, h);
    }
    let scv2 = match atributo_certificado_v2(scv2_a.valor.as_slice()) {
        Ok(x) => x,
        Err(m) => return Err(Error::Crypto(m)),
    };
    proof {
        assert(oid_resumen().len() != oid_certificado_v2().len());
        assert(contenido_atributo(md)[0] != contenido_atributo(scv2)[0]);
    }
    let mut builder = nuevo_signed_data(&econtent);
    let firmante = match timestamp {
        Some(token) => match signature_timestamp(token) {
            Ok(a) => match atributo_sello(a.valor.as_slice()) {
                Ok(sello) => agregar_firmante_sellado(&mut builder, &econtent, &k, sid, md, scv2, sello),
                Err(m) => return Err(Error::Crypto(m)),
            },
            Err(e) => return Err(e),
        },
        None => agregar_firmante(&mut builder, &econtent, &k, sid, md, scv2),
    };
    assert(firmante is Ok ==> firmantes_del_builder(builder) == seq![ft]);
    assert(realizable ==> firmante is Ok);
    match agregar_algoritmo(&mut builder) {
        Ok(()) => {},
        Err(m) => return Err(Error::Crypto(m)),
    }
    match agregar_certificado(&mut builder, identity.cert.as_slice()) {
        Ok(()) => {},
        Err(m) => return Err(Error::Crypto(String::from_str("certificado: ").concat(m.as_str()))),
    }
    let mut i: usize = 0;
    let ghost cadena = identity@.chain;
    assert forall|j: int| 0 <= j < identity.chain@.len() implies certificado_valido(
        #[trigger] identity.chain@[j]@,
    ) by {
        assert(identity@.chain[j] == identity.chain@[j]@);
    }
    assert(certificados_del_builder(builder) =~= certificados_de(identity@.cert, cadena.take(0)));
    while i < identity.chain.len()
        invariant
            i <= identity.chain@.len(),
            cadena == identity@.chain,
            cadena.len() == identity.chain@.len(),
            realizable == firma_realizable(message_digest@, identity@, vista_token(timestamp)),
            forall|j: int| 0 <= j < identity.chain@.len() ==> cadena[j] == identity.chain@[j]@,
            forall|j: int| 0 <= j < identity.chain@.len() ==> certificado_valido(#[trigger] identity.chain@[j]@),
            certificados_del_builder(builder) == certificados_de(identity@.cert, cadena.take(i as int)),
            realizable ==> forall|j: int| 0 <= j < certificados_del_builder(builder).len()
                ==> (#[trigger] certificados_del_builder(builder)[j] matches Some(d) ==> d.len() <= mib()),
            encapsulado_del_builder(builder) == seq![oid_data()],
            algoritmos_del_builder(builder) == seq![crate::tsa::oid_sha256()],
            firmante is Ok ==> firmantes_del_builder(builder) == seq![ft],
            firmante is Err ==> firmantes_del_builder(builder) == Seq::<ModeloFirmante>::empty(),
        decreases identity.chain@.len() - i,
    {
        let ghost antes = certificados_del_builder(builder);
        match agregar_certificado(&mut builder, identity.chain[i].as_slice()) {
            Ok(()) => {},
            Err(m) => return Err(Error::Crypto(String::from_str("cadena: ").concat(m.as_str()))),
        }
        assert(certificados_de(identity@.cert, cadena.take(i + 1)) =~= certificados_de(
            identity@.cert,
            cadena.take(i as int),
        ).push(der_de_certificado(identity.chain@[i as int]@)));
        proof {
            if realizable {
                assert(cadena[i as int].len() <= mib());
                assert forall|j: int| 0 <= j < certificados_del_builder(builder).len() implies
                    (#[trigger] certificados_del_builder(builder)[j] matches Some(d) ==> d.len() <= mib()) by {
                    if j < antes.len() {
                        assert(certificados_del_builder(builder)[j] == antes[j]);
                    }
                }
            }
        }
        i += 1;
    }
    assert(cadena.take(i as int) =~= cadena);
    match firmante {
        Ok(()) => {},
        Err(m) => return Err(Error::Crypto(m)),
    }
    proof {
        if realizable {
            let cs = certificados_del_builder(builder);
            assert(cs == certificados_de(identity@.cert, identity@.chain));
            assert(forall|j: int| 0 <= j < cs.len() ==> (#[trigger] cs[j]) is Some);
            assert(builder_cabe(seq![oid_data()], seq![crate::tsa::oid_sha256()], cs, seq![ft]));
        }
    }
    match construir(&mut builder) {
        Ok(v) => Ok(v),
        Err(m) => Err(Error::Crypto(m)),
    }
}

/// A detached CMS signature of a message digest.
pub fn signed_data_detached(message_digest: &[u8], identity: &Identity) -> (r: core::result::Result<Vec<u8>, Error>)
    requires
        identidad_valida(identity@),
        cadena_sin_repetidos(identity@.cert, identity@.chain),
    ensures
        firma_realizable(message_digest@, identity@, None) ==> r is Ok,
        r matches Err(e) ==> e@ is Crypto,
        r matches Ok(v) ==> v@ == cms_firmado(
            message_digest@,
            identity@.clave,
            identity@.cert,
            identity@.chain,
            None,
        ),
        r matches Ok(v) ==> crate::validate::recorte_der(v@) == crate::validate::Recorte::Prefijo(
            v@.len() as int,
        ),
        r matches Ok(v) ==> firma_legible(v@, message_digest@, identity@),
{
    build(message_digest, identity, None)
}

/// Step one of a time-stamped signature: a preliminary signature is built
/// and the request for the time-stamping authority is made over its
/// signature value. The request goes over HTTP; step two takes the reply.
pub fn preparar_sello(message_digest: &[u8], identity: &Identity) -> (r: core::result::Result<Vec<u8>, Error>)
    requires
        identidad_valida(identity@),
        cadena_sin_repetidos(identity@.cert, identity@.chain),
    ensures
        firma_realizable(message_digest@, identity@, None) ==> r is Ok,
        r matches Err(e) ==> e@ is Crypto,
        r matches Ok(v) ==> (crate::validate::firma_primer_firmante(
            cms_firmado(message_digest@, identity@.clave, identity@.cert, identity@.chain, None),
        ) matches Some(f) && v@ == crate::tsa::peticion_sello(resumen_sha256(f))),
{
    let preliminar = match build(message_digest, identity, None) {
        Ok(p) => p,
        Err(e) => return Err(e),
    };
    let firma = match crate::validate::signature_value(preliminar.as_slice()) {
        Ok(f) => f,
        Err(e) => return Err(e),
    };
    let peticion = crate::tsa::peticion(firma.as_slice());
    assert(peticion@ == crate::tsa::peticion_sello(resumen_sha256(firma@)));
    Ok(peticion)
}

/// Step two of a time-stamped signature: from the reply of the authority
/// (its status code and body, or the error of the exchange), the token, and
/// the signature with the token as an unsigned attribute.
pub fn completar_sello(
    message_digest: &[u8],
    identity: &Identity,
    respuesta: core::result::Result<(i32, Vec<u8>), String>,
) -> (r: core::result::Result<Vec<u8>, Error>)
    requires
        identidad_valida(identity@),
        cadena_sin_repetidos(identity@.cert, identity@.chain),
    ensures
        match respuesta {
            Err(m) => r matches Err(e) && e@ == ErrorModelo::Tsa(m@),
            Ok((codigo, cuerpo)) => if codigo != 200 {
                r matches Err(e) && e@ == ErrorModelo::Tsa(
                    "la TSA respondió "@ + crate::numeros::ascii_texto(
                        crate::numeros::entero_decimal(codigo as int),
                    ),
                )
            } else {
                match crate::tsa::respuesta_sello(cuerpo@) {
                    crate::tsa::RespuestaSello::Sello(t) => {
                        &&& firma_realizable(message_digest@, identity@, Some(t)) ==> r is Ok
                        &&& r matches Err(e) ==> e@ is Crypto
                        &&& r matches Ok(v) ==> v@ == cms_firmado(
                            message_digest@,
                            identity@.clave,
                            identity@.cert,
                            identity@.chain,
                            Some(t),
                        )
                    },
                    otra => crate::tsa::segun_respuesta(r, otra),
                }
            },
        },
{
    let token = match respuesta {
        Err(m) => return Err(Error::Tsa(m)),
        Ok((codigo, cuerpo)) => match crate::tsa::token_de_respuesta(codigo, cuerpo.as_slice()) {
            Ok(t) => t,
            Err(e) => return Err(e),
        },
    };
    build(message_digest, identity, Some(token.as_slice()))
}

/// What the reader of `validate` finds in a detached signature that
/// `build` wrote for the digest `d` by the identity, without time stamp: a
/// `SignedData` whose signer is `firmante_firma`, and with the signer's
/// certificate alone, that certificate.
pub open spec fn firma_legible(v: Seq<u8>, d: Seq<u8>, im: crate::keystore::IdentidadModelo) -> bool {
    &&& crate::validate::lectura_cms(v) matches Ok(t) && t == crate::validate::oid_signed_data()
    &&& crate::validate::lectura_signed_data(v) is Ok
    &&& lee_firmante(v, firmante_firma(d, im.clave, im.cert, None))
    &&& im.chain.len() == 0 ==> crate::validate::certificados_cms(v) == seq![der_de_certificado(im.cert)]
}

/// Whether the certificate `cert` carries the public key of `clave`: its
/// public key reads, and accepts every signature that `clave` makes.
pub open spec fn pareja(clave: (Seq<u8>, bool), cert: Seq<u8>) -> bool {
    &&& crate::validate::clave_publica_cert(cert) matches Ok(Some(k))
    &&& crate::validate::clave_rsa_publica(k) is Ok
    &&& forall|m: Seq<u8>| #[trigger] crate::validate::firma_verificada(
        k,
        m,
        crate::keystore::firma_de(clave, m),
    )
}

/// A signature as `build` writes it, with the signer's certificate alone
/// and no time stamp, validates against any content: it names the signer
/// of the certificate it carries, the digest that it declares is the one
/// signed (so a content whose SHA-256 digest differs does not pass), and,
/// when the certificate carries the signer's public key, its signature
/// checks.
pub proof fn ley_verificar_lo_firmado(
    v: Seq<u8>,
    contenido: Seq<u8>,
    d: Seq<u8>,
    clave: (Seq<u8>, bool),
    cert: Seq<u8>,
)
    requires
        crate::validate::lectura_cms(v) matches Ok(t) && t == crate::validate::oid_signed_data(),
        crate::validate::lectura_signed_data(v) is Ok,
        lee_firmante(v, firmante_firma(d, clave, cert, None)),
        crate::validate::certificados_cms(v) == seq![der_de_certificado(cert)],
        d.len() <= largo_maximo(),
    ensures
        ({
            let c2 = der_de_certificado(cert)->Some_0;
            der_de_certificado(cert) is Some && crate::validate::clave_publica_cert(c2) is Ok
                && crate::validate::clave_publica_cert(c2)->Ok_0 is Some
                && crate::validate::clave_rsa_publica(crate::validate::clave_publica_cert(c2)->Ok_0->Some_0) is Ok
                ==> (crate::validate::validacion(contenido, v) is Ok
                && crate::validate::validacion(contenido, v)->Ok_0.0 == crate::keystore::nombre_comun_cert(c2)
                && crate::validate::validacion(contenido, v)->Ok_0.1 == (d == resumen_sha256(contenido)))
        }),
        ({
            let c2 = der_de_certificado(cert)->Some_0;
            der_de_certificado(cert) is Some && pareja(clave, c2) ==> crate::validate::validacion(contenido, v)
                == Ok::<(Option<Seq<char>>, bool, bool), Seq<char>>(
                (crate::keystore::nombre_comun_cert(c2), d == resumen_sha256(contenido), true),
            )
        }),
{
    let f = firmante_firma(d, clave, cert, None);
    assert(oid_certificado_v2().len() != oid_resumen().len());
    assert(declara_resumen(f.firmados, d));
    let cs = crate::validate::certificados_cms(v);
    if let Some(c2) = der_de_certificado(cert) {
        assert(crate::validate::primer_certificado(cs) == Some(c2));
        let der = der_firmados(f.firmados);
        let firma = crate::keystore::firma_de(clave, der);
        if pareja(clave, c2) {
            let k = crate::validate::clave_publica_cert(c2)->Ok_0->Some_0;
            assert(crate::validate::firma_verificada(k, der, firma));
        }
    }
}

} // verus!
