//! Validation of detached CMS signatures.

use vstd::prelude::*;
use crate::error::{Error, ErrorModelo};
use crate::firma_cms::{resumen_sha256, sha256};
use crate::keystore::{nombre_comun, nombre_comun_cert};
use crate::protocol::vista_opcional;
use der::{Decode, Encode, Tagged};
use rsa::pkcs1::DecodeRsaPublicKey;
use rsa::signature::Verifier;

verus! {

/// The report of a validation.
pub struct Report {
    pub signer_common_name: Option<String>,
    pub digest_matches: bool,
    pub signature_valid: bool,
}

impl Report {
    /// A signature is valid when the signed content is intact and the
    /// signature checks against the signer's public key.
    pub fn is_valid(&self) -> (r: bool)
        ensures
            r == (self.digest_matches && self.signature_valid),
    {
        self.digest_matches && self.signature_valid
    }
}

/// The length that big-endian length bytes of DER stand for, in a
/// machine word: each byte shifts the value eight bits up.
pub open spec fn acumular_largo(s: Seq<u8>) -> usize
    decreases s.len(),
{
    if s.len() == 0 {
        0usize
    } else {
        ((acumular_largo(s.drop_last()) << 8usize) | (s.last() as usize)) as usize
    }
}

/// What `trim_der` makes of some bytes.
pub enum Recorte {
    /// The first `n` bytes: the DER SEQUENCE that starts the bytes.
    Prefijo(int),
    /// An error with this message.
    Error(Seq<char>),
    /// The total length does not fit in a machine word.
    Desborde,
}

/// The DER SEQUENCE at the start of some bytes, by its length header.
pub open spec fn recorte_der(bytes: Seq<u8>) -> Recorte {
    if bytes.len() < 2 || bytes[0] != 0x30 {
        Recorte::Error("no es una estructura DER SEQUENCE"@)
    } else {
        let first = bytes[1];
        let total: int = if first < 0x80 {
            2 + first
        } else {
            let n = first - 0x80;
            if bytes.len() < 2 + n {
                -1
            } else {
                2 + n + acumular_largo(bytes.subrange(2, 2 + n)) as int
            }
        };
        if total == -1 {
            Recorte::Error("longitud DER truncada"@)
        } else if total > usize::MAX {
            Recorte::Desborde
        } else if total > bytes.len() {
            Recorte::Error("longitud DER mayor que los datos"@)
        } else {
            Recorte::Prefijo(total)
        }
    }
}

/// Cuts some bytes down to the DER SEQUENCE with which they start, as its
/// length header gives it.
pub fn trim_der(bytes: &[u8]) -> (r: core::result::Result<&[u8], Error>)
    requires
        !(recorte_der(bytes@) is Desborde),
    ensures
        match (r, recorte_der(bytes@)) {
            (Ok(v), Recorte::Prefijo(n)) => v@ == bytes@.subrange(0, n),
            (Err(e), Recorte::Error(m)) => e@ == ErrorModelo::Crypto(m),
            _ => false,
        },
{
    if bytes.len() < 2 || bytes[0] != 0x30 {
        return Err(Error::Crypto(String::from_str("no es una estructura DER SEQUENCE")));
    }
    let first = bytes[1];
    let total = if first < 0x80 {
        2 + first as usize
    } else {
        let n = (first & 0x7f) as usize;
        assert((first & 0x7f) == first - 0x80) by (bit_vector)
            requires
                first >= 0x80,
        ;
        if bytes.len() < 2 + n {
            return Err(Error::Crypto(String::from_str("longitud DER truncada")));
        }
        let mut len: usize = 0;
        let mut i: usize = 2;
        let fin = 2 + n;
        while i < fin
            invariant
                fin == 2 + n,
                2 <= i <= 2 + n <= bytes@.len(),
                len == acumular_largo(bytes@.subrange(2, i as int)),
            decreases fin - i,
        {
            assert(bytes@.subrange(2, i + 1).drop_last() =~= bytes@.subrange(2, i as int));
            len = (len << 8) | bytes[i] as usize;
            i += 1;
        }
        2 + n + len
    };
    if total > bytes.len() {
        return Err(Error::Crypto(String::from_str("longitud DER mayor que los datos")));
    }
    Ok(vstd::slice::slice_subrange(bytes, 0, total))
}


/// Whether the length header at the start of some bytes stands for a total
/// that does not fit in a machine word.
pub fn der_desborda(bytes: &[u8]) -> (r: bool)
    ensures
        r == (recorte_der(bytes@) is Desborde),
{
    if bytes.len() < 2 || bytes[0] != 0x30 {
        return false;
    }
    let first = bytes[1];
    if first < 0x80 {
        return false;
    }
    let n = (first & 0x7f) as usize;
    assert((first & 0x7f) == first - 0x80) by (bit_vector)
        requires
            first >= 0x80,
    ;
    if bytes.len() < 2 + n {
        return false;
    }
    let mut len: usize = 0;
    let mut i: usize = 2;
    let fin = 2 + n;
    while i < fin
        invariant
            fin == 2 + n,
            2 <= i <= 2 + n <= bytes@.len(),
            len == acumular_largo(bytes@.subrange(2, i as int)),
        decreases fin - i,
    {
        assert(bytes@.subrange(2, i + 1).drop_last() =~= bytes@.subrange(2, i as int));
        len = (len << 8) | bytes[i] as usize;
        i += 1;
    }
    len > usize::MAX - fin
}

} // verus!

verus! {

/// What the `cms` crate reads from some bytes as a `ContentInfo`: the
/// contents of its content type's object identifier, or the text of its
/// error.
pub uninterp spec fn lectura_cms(cms: Seq<u8>) -> core::result::Result<Seq<u8>, Seq<char>>;

/// The contents of the object identifier `id-signedData`
/// (1.2.840.113549.1.7.2).
pub open spec fn oid_signed_data() -> Seq<u8> {
    seq![0x2au8, 0x86u8, 0x48u8, 0x86u8, 0xf7u8, 0x0du8, 0x01u8, 0x07u8, 0x02u8]
}

/// Whether the `cms` crate reads the content of a `ContentInfo` as a
/// `SignedData`, or the text of its error.
pub uninterp spec fn lectura_signed_data(cms: Seq<u8>) -> core::result::Result<(), Seq<char>>;

/// The signature value of the first signer of a `SignedData`, if it has one.
pub uninterp spec fn firma_primer_firmante(cms: Seq<u8>) -> Option<Seq<u8>>;

/// The certificates of a `SignedData`, in order: the DER of each X.509
/// certificate, none for the other kinds.
pub uninterp spec fn certificados_cms(cms: Seq<u8>) -> Seq<Option<Seq<u8>>>;

/// The signed attributes of the first signer, if there is a signer: each
/// as the contents of its object identifier and, for each value, what
/// reading it as an `OCTET STRING` gives (its contents, or the text of the
/// error).
pub uninterp spec fn atributos_primer_firmante(cms: Seq<u8>) -> Option<
    Option<Seq<(Seq<u8>, Seq<core::result::Result<Seq<u8>, Seq<char>>>)>>,
>;

/// The DER of the signed attributes of the first signer (the `SET OF`
/// that the signature covers), or the text of the error, when they are
/// there.
pub uninterp spec fn atributos_der_primer_firmante(cms: Seq<u8>) -> Option<
    core::result::Result<Seq<u8>, Seq<char>>,
>;

/// What `x509_cert::Certificate::from_der` reads from some bytes: the
/// bytes of the subject public key (none when its bit string does not fill
/// whole bytes), or the text of the error.
pub uninterp spec fn clave_publica_cert(cert: Seq<u8>) -> core::result::Result<Option<Seq<u8>>, Seq<char>>;

/// Whether `rsa::RsaPublicKey::from_pkcs1_der` reads a key from some DER,
/// or the text of its error.
pub uninterp spec fn clave_rsa_publica(der: Seq<u8>) -> core::result::Result<(), Seq<char>>;

/// Whether `VerifyingKey::<Sha256>::verify` accepts `firma` as the RSA
/// PKCS#1 v1.5 signature of `mensaje` by the key in PKCS#1 DER `clave`.
pub uninterp spec fn firma_verificada(clave: Seq<u8>, mensaje: Seq<u8>, firma: Seq<u8>) -> bool;

/// Whether `firma` is a valid RSA PKCS#1 v1.5 signature with SHA-256 of
/// `mensaje` by the public key of the certificate `cert`, or the message of
/// what failed before checking.
pub open spec fn verificacion_rsa(cert: Seq<u8>, mensaje: Seq<u8>, firma: Seq<u8>) -> core::result::Result<
    bool,
    Seq<char>,
> {
    match clave_publica_cert(cert) {
        Err(m) => Err("certificado: "@ + m),
        Ok(None) => Err("clave pública sin bytes"@),
        Ok(Some(k)) => match clave_rsa_publica(k) {
            Err(m) => Err("clave pública RSA: "@ + m),
            Ok(()) => Ok(firma_verificada(k, mensaje, firma)),
        },
    }
}

/// Reads a `ContentInfo` and tells whether it holds a `SignedData`.
///
/// Calls `cms::content_info::ContentInfo::from_der` and hands back the
/// contents of its content type (`ObjectIdentifier::as_bytes`); the
/// outcome, and the text of an error (the `der` crate's `Display`), are
/// left to the name `lectura_cms`.
#[verifier::external_body]
fn leer_cms(cms: &[u8]) -> (r: core::result::Result<Vec<u8>, String>)
    ensures
        lectura_cms(cms@) == match r {
            Ok(t) => Ok(t@),
            Err(m) => Err(m@),
        },
{
    let info = cms::content_info::ContentInfo::from_der(cms).map_err(|e| e.to_string())?;
    Ok(info.content_type.as_bytes().to_vec())
}

/// Reads the content of a `ContentInfo` as a `SignedData`.
///
/// Calls `ContentInfo::from_der` and `Any::decode_as::<SignedData>`; the
/// outcome is left to the name `lectura_signed_data`.
#[verifier::external_body]
fn leer_signed_data(cms: &[u8]) -> (r: core::result::Result<(), String>)
    requires
        lectura_cms(cms@) is Ok,
    ensures
        lectura_signed_data(cms@) == match r {
            Ok(()) => Ok(()),
            Err(m) => Err(m@),
        },
{
    let info = cms::content_info::ContentInfo::from_der(cms).map_err(|e| e.to_string())?;
    info.content.decode_as::<cms::signed_data::SignedData>().map(|_| ()).map_err(|e| e.to_string())
}

/// The signature value of the first signer.
///
/// Reads the `SignedData` as `leer_signed_data` does and hands out the
/// bytes of the `signature` of the first element of `signer_infos`; left to
/// the name `firma_primer_firmante`.
#[verifier::external_body]
fn firma_del_firmante(cms: &[u8]) -> (r: Option<Vec<u8>>)
    ensures
        firma_primer_firmante(cms@) == match r {
            Some(v) => Some(v@),
            None => None,
        },
{
    let info = cms::content_info::ContentInfo::from_der(cms).ok()?;
    let sd = info.content.decode_as::<cms::signed_data::SignedData>().ok()?;
    sd.signer_infos.0.iter().next().map(|s| s.signature.as_bytes().to_vec())
}

/// The certificates of the `SignedData`.
///
/// Reads the `SignedData` as `leer_signed_data` does and hands out, for
/// each element of `certificates`, in order, the DER of an X.509
/// certificate (`Encode::to_der`) and nothing for the other kinds; left to
/// the name `certificados_cms`.
#[verifier::external_body]
fn certificados_del_cms(cms: &[u8]) -> (r: Vec<Option<Vec<u8>>>)
    ensures
        certificados_cms(cms@) == r@.map_values(|c: Option<Vec<u8>>| vista_bytes_opcional(c)),
{
    let Some(sd) = cms::content_info::ContentInfo::from_der(cms).ok().and_then(|i| i.content.decode_as::<cms::signed_data::SignedData>().ok()) else {
        return Vec::new();
    };
    sd.certificates.map(|set| set.0.iter().map(|c| match c {
        cms::cert::CertificateChoices::Certificate(x) => x.to_der().ok(),
        _ => None,
    }).collect()).unwrap_or_default()
}

/// The signed attributes of the first signer.
///
/// Reads the `SignedData` as `leer_signed_data` does and hands out, for
/// each signed attribute of the first signer, its object identifier's
/// contents and, for each value, `Any::decode_as::<OctetString>` (its
/// contents or the text of the error); left to the name
/// `atributos_primer_firmante`.
#[verifier::external_body]
fn atributos_del_firmante(cms: &[u8]) -> (r: Option<Option<Vec<(Vec<u8>, Vec<core::result::Result<Vec<u8>, String>>)>>>)
    ensures
        atributos_primer_firmante(cms@) == vista_atributos(r),
{
    let info = cms::content_info::ContentInfo::from_der(cms).ok()?;
    let sd = info.content.decode_as::<cms::signed_data::SignedData>().ok()?;
    let s = sd.signer_infos.0.iter().next()?;
    Some(s.signed_attrs.as_ref().map(|attrs| attrs.iter().map(|a| (a.oid.as_bytes().to_vec(), a.values.iter().map(|v| {
        v.decode_as::<der::asn1::OctetString>().map(|o| o.as_bytes().to_vec()).map_err(|e| e.to_string())
    }).collect())).collect()))
}

/// The DER of the signed attributes of the first signer.
///
/// Reads the `SignedData` as `leer_signed_data` does and writes the
/// `signed_attrs` of the first signer with `Encode::to_der`; left to the
/// name `atributos_der_primer_firmante`.
#[verifier::external_body]
fn atributos_der_del_firmante(cms: &[u8]) -> (r: Option<core::result::Result<Vec<u8>, String>>)
    ensures
        atributos_der_primer_firmante(cms@) == match r {
            None => None,
            Some(Ok(v)) => Some(Ok(v@)),
            Some(Err(m)) => Some(Err(m@)),
        },
{
    let info = cms::content_info::ContentInfo::from_der(cms).ok()?;
    let sd = info.content.decode_as::<cms::signed_data::SignedData>().ok()?;
    let s = sd.signer_infos.0.iter().next()?;
    s.signed_attrs.as_ref().map(|a| a.to_der().map_err(|e| e.to_string()))
}

/// The bytes of the subject public key of a certificate.
///
/// Calls `x509_cert::Certificate::from_der` and hands back the bytes of
/// the subject public key's bit string (`BitString::as_bytes`); the outcome
/// and the text of an error are left to the name `clave_publica_cert`.
#[verifier::external_body]
fn clave_publica_del_certificado(cert: &[u8]) -> (r: core::result::Result<Option<Vec<u8>>, String>)
    ensures
        clave_publica_cert(cert@) == match r {
            Ok(Some(v)) => Ok(Some(v@)),
            Ok(None) => Ok(None),
            Err(m) => Err(m@),
        },
{
    let c = x509_cert::Certificate::from_der(cert).map_err(|e| e.to_string())?;
    Ok(c.tbs_certificate.subject_public_key_info.subject_public_key.as_bytes().map(|b| b.to_vec()))
}

/// Reads an RSA public key in PKCS#1 DER.
///
/// Calls `rsa::RsaPublicKey::from_pkcs1_der`; the outcome and the text of
/// an error are left to the name `clave_rsa_publica`.
#[verifier::external_body]
fn leer_clave_publica(der: &[u8]) -> (r: core::result::Result<(), String>)
    ensures
        clave_rsa_publica(der@) == match r {
            Ok(()) => Ok(()),
            Err(m) => Err(m@),
        },
{
    rsa::RsaPublicKey::from_pkcs1_der(der).map(|_| ()).map_err(|e| e.to_string())
}

/// Checks an RSA PKCS#1 v1.5 signature with SHA-256.
///
/// Calls `VerifyingKey::<Sha256>::verify` with the key read by
/// `RsaPublicKey::from_pkcs1_der` and the signature made by
/// `pkcs1v15::Signature::try_from`, which takes any bytes; the outcome is
/// left to the name `firma_verificada`.
#[verifier::external_body]
fn comprobar_firma(clave: &[u8], mensaje: &[u8], firma: &[u8]) -> (r: bool)
    requires
        clave_rsa_publica(clave@) is Ok,
    ensures
        r == firma_verificada(clave@, mensaje@, firma@),
{
    let k = rsa::RsaPublicKey::from_pkcs1_der(clave).unwrap();
    let s = rsa::pkcs1v15::Signature::try_from(firma).unwrap();
    rsa::pkcs1v15::VerifyingKey::<rsa::sha2::Sha256>::new(k).verify(mensaje, &s).is_ok()
}

/// Checks the signature `firma` of `mensaje` with the public key of the
/// certificate `cert`.
fn verificar_rsa(cert: &[u8], mensaje: &[u8], firma: &[u8]) -> (r: core::result::Result<bool, String>)
    ensures
        verificacion_rsa(cert@, mensaje@, firma@) == match r {
            Ok(b) => Ok(b),
            Err(m) => Err(m@),
        },
{
    let clave = match clave_publica_del_certificado(cert) {
        Err(m) => return Err(String::from_str("certificado: ").concat(m.as_str())),
        Ok(None) => return Err(String::from_str("clave pública sin bytes")),
        Ok(Some(k)) => k,
    };
    match leer_clave_publica(clave.as_slice()) {
        Err(m) => return Err(String::from_str("clave pública RSA: ").concat(m.as_str())),
        Ok(()) => {},
    }
    Ok(comprobar_firma(clave.as_slice(), mensaje, firma))
}

/// A byte vector that may be missing, as values.
pub open spec fn vista_bytes_opcional(c: Option<Vec<u8>>) -> Option<Seq<u8>> {
    match c {
        Some(v) => Some(v@),
        None => None,
    }
}

/// A reading as values.
pub open spec fn vista_lectura(v: core::result::Result<Vec<u8>, String>) -> core::result::Result<Seq<u8>, Seq<char>> {
    match v {
        Ok(b) => Ok(b@),
        Err(m) => Err(m@),
    }
}

/// An attribute as values.
pub open spec fn vista_atributo(a: (Vec<u8>, Vec<core::result::Result<Vec<u8>, String>>)) -> (Seq<u8>, Seq<core::result::Result<Seq<u8>, Seq<char>>>) {
    (a.0@, a.1@.map_values(|v: core::result::Result<Vec<u8>, String>| vista_lectura(v)))
}

/// The signed attributes as values.
pub open spec fn vista_atributos(r: Option<Option<Vec<(Vec<u8>, Vec<core::result::Result<Vec<u8>, String>>)>>>) -> Option<
    Option<Seq<(Seq<u8>, Seq<core::result::Result<Seq<u8>, Seq<char>>>)>>,
> {
    match r {
        None => None,
        Some(None) => Some(None),
        Some(Some(v)) => Some(Some(v@.map_values(|a: (Vec<u8>, Vec<core::result::Result<Vec<u8>, String>>)| vista_atributo(a)))),
    }
}

/// The object identifier of the message-digest attribute,
/// 1.2.840.113549.1.9.4, as contents.
pub open spec fn oid_message_digest() -> Seq<u8> {
    seq![0x2au8, 0x86, 0x48, 0x86, 0xf7, 0x0d, 0x01, 0x09, 0x04]
}

/// The digest that the signed attributes declare: the first value of the
/// first message-digest attribute, read as an `OCTET STRING`.
pub open spec fn resumen_declarado(attrs: Seq<(Seq<u8>, Seq<core::result::Result<Seq<u8>, Seq<char>>>)>) -> core::result::Result<Seq<u8>, Seq<char>>
    decreases attrs.len(),
{
    if attrs.len() == 0 {
        Err("falta el atributo message-digest"@)
    } else if attrs[0].0 == oid_message_digest() {
        if attrs[0].1.len() == 0 {
            Err("message-digest vacío"@)
        } else {
            match attrs[0].1[0] {
                Ok(d) => Ok(d),
                Err(m) => Err("message-digest: "@ + m),
            }
        }
    } else {
        resumen_declarado(attrs.drop_first())
    }
}

/// The first X.509 certificate of a list.
pub open spec fn primer_certificado(cs: Seq<Option<Seq<u8>>>) -> Option<Seq<u8>>
    decreases cs.len(),
{
    if cs.len() == 0 {
        None
    } else if cs[0] is Some {
        cs[0]
    } else {
        primer_certificado(cs.drop_first())
    }
}

/// The validation of a detached CMS signature of `content`: the signer's
/// common name, whether the declared digest is the content's, and whether
/// the signature checks; or the message of what stopped it.
pub open spec fn validacion(content: Seq<u8>, cms: Seq<u8>) -> core::result::Result<
    (Option<Seq<char>>, bool, bool),
    Seq<char>,
> {
    match lectura_cms(cms) {
        Err(m) => Err("ContentInfo: "@ + m),
        Ok(tipo) => if tipo != oid_signed_data() {
            Err("el CMS no es SignedData"@)
        } else { match lectura_signed_data(cms) {
            Err(m) => Err("SignedData: "@ + m),
            Ok(()) => match firma_primer_firmante(cms) {
                None => Err("el CMS no contiene firmantes"@),
                Some(firma) => match primer_certificado(certificados_cms(cms)) {
                    None => Err("el CMS no incluye el certificado del firmante"@),
                    Some(cert) => match atributos_primer_firmante(cms) {
                        Some(Some(attrs)) => match resumen_declarado(attrs) {
                            Err(m) => Err(m),
                            Ok(declarado) => match atributos_der_primer_firmante(cms) {
                                Some(Ok(der)) => match verificacion_rsa(cert, der, firma) {
                                    Err(m) => Err(m),
                                    Ok(valida) => Ok(
                                        (
                                            nombre_comun_cert(cert),
                                            declarado == resumen_sha256(content),
                                            valida,
                                        ),
                                    ),
                                },
                                Some(Err(m)) => Err("codificando atributos: "@ + m),
                                None => Err("la firma no tiene atributos firmados"@),
                            },
                        },
                        _ => Err("la firma no tiene atributos firmados"@),
                    },
                },
            },
        } },
    }
}

/// Whether a report agrees with a validation.
pub open spec fn segun_validacion(
    r: core::result::Result<Report, Error>,
    m: core::result::Result<(Option<Seq<char>>, bool, bool), Seq<char>>,
) -> bool {
    match (r, m) {
        (Ok(rep), Ok((cn, d, s))) => vista_opcional(rep.signer_common_name) == cn
            && rep.digest_matches == d && rep.signature_valid == s,
        (Err(e), Err(msg)) => e@ == ErrorModelo::Crypto(msg),
        _ => false,
    }
}

/// The digest declared by the signed attributes.
fn message_digest(attrs: &Vec<(Vec<u8>, Vec<core::result::Result<Vec<u8>, String>>)>) -> (r: core::result::Result<Vec<u8>, String>)
    ensures
        vista_lectura(r) == resumen_declarado(
            attrs@.map_values(|a: (Vec<u8>, Vec<core::result::Result<Vec<u8>, String>>)| vista_atributo(a)),
        ),
{
    let ghost vista = attrs@.map_values(|a: (Vec<u8>, Vec<core::result::Result<Vec<u8>, String>>)| vista_atributo(a));
    let md = [0x2au8, 0x86, 0x48, 0x86, 0xf7, 0x0d, 0x01, 0x09, 0x04];
    assert(md@ =~= oid_message_digest());
    let mut i: usize = 0;
    assert(vista.subrange(0, vista.len() as int) =~= vista);
    while i < attrs.len()
        invariant
            i <= attrs@.len(),
            md@ == oid_message_digest(),
            vista == attrs@.map_values(|a: (Vec<u8>, Vec<core::result::Result<Vec<u8>, String>>)| vista_atributo(a)),
            resumen_declarado(vista) == resumen_declarado(vista.subrange(i as int, vista.len() as int)),
        decreases attrs@.len() - i,
    {
        let ghost resto = vista.subrange(i as int, vista.len() as int);
        assert(resto[0] == vista_atributo(attrs@[i as int]));
        if crate::texto::iguales_bytes(attrs[i].0.as_slice(), md.as_slice()) {
            if attrs[i].1.len() == 0 {
                return Err(String::from_str("message-digest vacío"));
            }
            assert(resto[0].1[0] == vista_lectura(attrs@[i as int].1@[0]));
            return match &attrs[i].1[0] {
                Ok(d) => Ok(vstd::slice::slice_to_vec(d.as_slice())),
                Err(m) => Err(String::from_str("message-digest: ").concat(m.as_str())),
            };
        }
        assert(resto.drop_first() =~= vista.subrange(i + 1, vista.len() as int));
        i += 1;
    }
    Err(String::from_str("falta el atributo message-digest"))
}

/// The certificate of the signer: the first X.509 certificate that the
/// `SignedData` carries.
fn signer_certificate(cms: &[u8]) -> (r: Option<Vec<u8>>)
    ensures
        vista_bytes_opcional(r) == primer_certificado(certificados_cms(cms@)),
{
    let cs = certificados_del_cms(cms);
    let ghost vista = cs@.map_values(|c: Option<Vec<u8>>| vista_bytes_opcional(c));
    let mut i: usize = 0;
    assert(vista.subrange(0, vista.len() as int) =~= vista);
    while i < cs.len()
        invariant
            i <= cs@.len(),
            vista == certificados_cms(cms@),
            vista == cs@.map_values(|c: Option<Vec<u8>>| vista_bytes_opcional(c)),
            primer_certificado(vista) == primer_certificado(vista.subrange(i as int, vista.len() as int)),
        decreases cs@.len() - i,
    {
        let ghost resto = vista.subrange(i as int, vista.len() as int);
        assert(resto[0] == vista_bytes_opcional(cs@[i as int]));
        match &cs[i] {
            Some(c) => return Some(vstd::slice::slice_to_vec(c.as_slice())),
            None => {},
        }
        assert(resto.drop_first() =~= vista.subrange(i + 1, vista.len() as int));
        i += 1;
    }
    None
}

/// Validates a detached CMS signature of `content`: reads the first signer
/// and its certificate, compares the digest that its signed attributes
/// declare with the digest of the content, checks the signature of those
/// attributes with the certificate's key, and reads the signer's name.
pub fn verify_detached(content: &[u8], cms_der: &[u8]) -> (r: core::result::Result<Report, Error>)
    ensures
        segun_validacion(r, validacion(content@, cms_der@)),
{
    let tipo = match leer_cms(cms_der) {
        Ok(t) => t,
        Err(m) => return Err(Error::Crypto(String::from_str("ContentInfo: ").concat(m.as_str()))),
    };
    let signed_data = [0x2au8, 0x86u8, 0x48u8, 0x86u8, 0xf7u8, 0x0du8, 0x01u8, 0x07u8, 0x02u8];
    assert(signed_data@ == oid_signed_data());
    if !crate::texto::iguales_bytes(tipo.as_slice(), signed_data.as_slice()) {
        return Err(Error::Crypto(String::from_str("el CMS no es SignedData")));
    }
    match leer_signed_data(cms_der) {
        Ok(()) => {},
        Err(m) => return Err(Error::Crypto(String::from_str("SignedData: ").concat(m.as_str()))),
    }
    let firma = match firma_del_firmante(cms_der) {
        Some(f) => f,
        None => return Err(Error::Crypto(String::from_str("el CMS no contiene firmantes"))),
    };
    let cert = match signer_certificate(cms_der) {
        Some(c) => c,
        None => return Err(
            Error::Crypto(String::from_str("el CMS no incluye el certificado del firmante")),
        ),
    };
    let attrs = match atributos_del_firmante(cms_der) {
        Some(Some(a)) => a,
        _ => return Err(Error::Crypto(String::from_str("la firma no tiene atributos firmados"))),
    };
    let declarado = match message_digest(&attrs) {
        Ok(d) => d,
        Err(m) => return Err(Error::Crypto(m)),
    };
    let resumen = sha256(content);
    let digest_matches = crate::texto::iguales_bytes(declarado.as_slice(), resumen.as_slice());
    let der = match atributos_der_del_firmante(cms_der) {
        Some(Ok(d)) => d,
        Some(Err(m)) => return Err(
            Error::Crypto(String::from_str("codificando atributos: ").concat(m.as_str())),
        ),
        None => return Err(Error::Crypto(String::from_str("la firma no tiene atributos firmados"))),
    };
    let signature_valid = match verificar_rsa(cert.as_slice(), der.as_slice(), firma.as_slice()) {
        Ok(b) => b,
        Err(m) => return Err(Error::Crypto(m)),
    };
    Ok(Report { signer_common_name: nombre_comun(cert.as_slice()), digest_matches, signature_valid })
}

/// The signature value of the first signer of a CMS signature.
pub fn signature_value(cms_der: &[u8]) -> (r: core::result::Result<Vec<u8>, Error>)
    ensures
        match lectura_cms(cms_der@) {
            Err(m) => r matches Err(e) && e@ == ErrorModelo::Crypto(m),
            Ok(_) => match lectura_signed_data(cms_der@) {
                Err(m) => r matches Err(e) && e@ == ErrorModelo::Crypto(m),
                Ok(()) => match firma_primer_firmante(cms_der@) {
                    Some(f) => r matches Ok(v) && v@ == f,
                    None => r matches Err(e) && e@ == ErrorModelo::Crypto("sin firmante"@),
                },
            },
        },
{
    match leer_cms(cms_der) {
        Ok(_) => {},
        Err(m) => return Err(Error::Crypto(m)),
    }
    match leer_signed_data(cms_der) {
        Ok(()) => {},
        Err(m) => return Err(Error::Crypto(m)),
    }
    match firma_del_firmante(cms_der) {
        Some(f) => Ok(f),
        None => Err(Error::Crypto(String::from_str("sin firmante"))),
    }
}

/// The first X.509 certificate of a list is the one at the first position
/// that holds one; a list that holds none has no first certificate.
pub proof fn ley_primer_certificado(cs: Seq<Option<Seq<u8>>>)
    ensures
        forall|i: int|
            0 <= i < cs.len() && cs[i] is Some && (forall|j: int| 0 <= j < i ==> cs[j] is None)
                ==> #[trigger] cs[i] == primer_certificado(cs),
        (forall|j: int| 0 <= j < cs.len() ==> cs[j] is None) ==> primer_certificado(cs) is None,
    decreases cs.len(),
{
    if cs.len() > 0 {
        ley_primer_certificado(cs.drop_first());
        assert forall|i: int|
            0 <= i < cs.len() && cs[i] is Some && (forall|j: int| 0 <= j < i ==> cs[j] is None)
                implies #[trigger] cs[i] == primer_certificado(cs) by {
            if i > 0 {
                assert(cs[0] is None);
                assert(cs.drop_first()[i - 1] == cs[i]);
                assert forall|j: int| 0 <= j < i - 1 implies cs.drop_first()[j] is None by {
                    assert(cs.drop_first()[j] == cs[j + 1]);
                }
            }
        }
        if forall|j: int| 0 <= j < cs.len() ==> cs[j] is None {
            assert(cs[0] is None);
            assert forall|j: int| 0 <= j < cs.drop_first().len() implies cs.drop_first()[j] is None by {
                assert(cs.drop_first()[j] == cs[j + 1]);
            }
        }
    }
}

/// Validation speaks of the signer whose certificate is the first X.509
/// certificate of the SignedData, wherever the others stand: when the
/// certificate at position `i` is the first, an accepted validation names
/// its subject, and the signature is valid exactly when that certificate's
/// public key accepts the signature over the signed attributes. So a
/// signature by the key of that certificate validates, whatever
/// certificates of a chain follow it.
pub proof fn ley_firmante_es_el_primero(
    content: Seq<u8>,
    cms: Seq<u8>,
    i: int,
    clave_firma: (Seq<u8>, bool),
)
    requires
        0 <= i < certificados_cms(cms).len(),
        certificados_cms(cms)[i] is Some,
        forall|j: int| 0 <= j < i ==> certificados_cms(cms)[j] is None,
        validacion(content, cms) is Ok,
    ensures
        ({
            let c = certificados_cms(cms)[i]->Some_0;
            let k = clave_publica_cert(c)->Ok_0->Some_0;
            let der = atributos_der_primer_firmante(cms)->Some_0->Ok_0;
            let firma = firma_primer_firmante(cms)->Some_0;
            &&& validacion(content, cms)->Ok_0.0 == nombre_comun_cert(c)
            &&& clave_publica_cert(c) matches Ok(Some(_))
            &&& validacion(content, cms)->Ok_0.2 == firma_verificada(k, der, firma)
            &&& crate::firma_cms::pareja(clave_firma, c) && firma == crate::keystore::firma_de(
                clave_firma,
                der,
            ) ==> validacion(content, cms)->Ok_0.2
        }),
{
    ley_primer_certificado(certificados_cms(cms));
    assert(certificados_cms(cms)[i] == primer_certificado(certificados_cms(cms)));
}

} // verus!
