//! Time stamps (RFC 3161): the request sent to a time-stamping authority and
//! the reading of its reply. The exchange itself goes over HTTP and is not
//! part of the library.

use vstd::prelude::*;
use crate::asn1::{
    codificar_tlv, entero_der, entero_u32, largo_der, largo_maximo, lema_bytes_be, lema_desplazar_tlv,
    lema_entero_u32, lema_leer_tlv, leer_entero_u32, leer_tlv, leer_tlv_en, tlv,
};
use crate::firma_cms::{resumen_sha256, sha256};
use crate::error::{Error, ErrorModelo};
use crate::numeros::{ascii_texto, entero_decimal, escribir_entero, texto_ascii};
use crate::texto::tramo_bytes;

verus! {

/// The authority used when none is given.
pub open spec fn tsa_por_defecto() -> Seq<char> {
    "https://freetsa.org/tsr"@
}

/// The contents of the object identifier of SHA-256, 2.16.840.1.101.3.4.2.1.
pub open spec fn oid_sha256() -> Seq<u8> {
    seq![0x60u8, 0x86, 0x48, 0x01, 0x65, 0x03, 0x04, 0x02, 0x01]
}

/// The DER `TimeStampReq` for a SHA-256 digest: version 1, the message
/// imprint (algorithm and digest) and a request for the authority's
/// certificate.
pub open spec fn peticion_sello(resumen: Seq<u8>) -> Seq<u8> {
    tlv(
        0x30,
        tlv(0x02, seq![1u8]) + tlv(0x30, tlv(0x30, tlv(0x06, oid_sha256())) + tlv(0x04, resumen))
            + tlv(0x01, seq![0xffu8]),
    )
}

/// Writes the time-stamp request for a digest.
pub fn peticion_de_resumen(resumen: &[u8]) -> (r: Vec<u8>)
    requires
        resumen@.len() + 64 <= crate::asn1::largo_maximo(),
    ensures
        r@ == peticion_sello(resumen@),
{
    let version = codificar_tlv(0x02, [1u8].as_slice());
    let oid = codificar_tlv(0x06, [0x60u8, 0x86, 0x48, 0x01, 0x65, 0x03, 0x04, 0x02, 0x01].as_slice());
    assert([0x60u8, 0x86, 0x48, 0x01, 0x65, 0x03, 0x04, 0x02, 0x01]@ =~= oid_sha256());
    let algoritmo = codificar_tlv(0x30, oid.as_slice());
    let mut imprint_contenido = algoritmo;
    let mut octetos = codificar_tlv(0x04, resumen);
    imprint_contenido.append(&mut octetos);
    let mut imprint = codificar_tlv(0x30, imprint_contenido.as_slice());
    let mut cert_req = codificar_tlv(0x01, [0xffu8].as_slice());
    let mut cuerpo = version;
    cuerpo.append(&mut imprint);
    cuerpo.append(&mut cert_req);
    assert([1u8]@ =~= seq![1u8]);
    assert([0xffu8]@ =~= seq![0xffu8]);
    let r = codificar_tlv(0x30, cuerpo.as_slice());
    assert(r@ =~= peticion_sello(resumen@));
    r
}

/// Writes the time-stamp request for some data: the request carries their
/// SHA-256 digest.
pub fn peticion(data: &[u8]) -> (r: Vec<u8>)
    ensures
        r@ == peticion_sello(resumen_sha256(data@)),
{
    let resumen = sha256(data);
    peticion_de_resumen(resumen.as_slice())
}

/// The authority to ask: the one given, else the default one.
pub fn url_tsa(url: Option<&str>) -> (r: String)
    ensures
        r@ == match url {
            Some(u) => u@,
            None => tsa_por_defecto(),
        },
{
    match url {
        Some(u) => String::from_str(u),
        None => String::from_str("https://freetsa.org/tsr"),
    }
}

/// What a reply of a time-stamping authority says.
pub enum RespuestaSello {
    /// Not a DER `TimeStampResp` (a status and an optional token).
    Invalida,
    /// The authority refused the request with this status.
    Rechazada(nat),
    /// The request was granted but no token came.
    SinSello,
    /// The time-stamp token, as DER.
    Sello(Seq<u8>),
}

/// The reading of a DER `TimeStampResp`: a `SEQUENCE` that fills the reply
/// and holds a `PKIStatusInfo` (a `SEQUENCE` of one `INTEGER`, read as a
/// `u32`) and, optionally, one more element: the token. A status other than
/// 0 (granted) or 1 (granted with modifications) is a refusal.
pub open spec fn respuesta_sello(r: Seq<u8>) -> RespuestaSello {
    match leer_tlv(r, 0) {
        None => RespuestaSello::Invalida,
        Some((t, a, e)) => if t != 0x30 || e != r.len() {
            RespuestaSello::Invalida
        } else {
            match leer_tlv(r, a) {
                None => RespuestaSello::Invalida,
                Some((t2, a2, e2)) => match leer_tlv(r, a2) {
                    None => RespuestaSello::Invalida,
                    Some((t3, a3, e3)) => if t2 != 0x30 || t3 != 0x02 || e3 != e2 {
                        RespuestaSello::Invalida
                    } else {
                        match entero_u32(r.subrange(a3, e3)) {
                            None => RespuestaSello::Invalida,
                            Some(estado) => {
                                let token: Option<Option<Seq<u8>>> = if e2 == e {
                                    Some(None)
                                } else {
                                    match leer_tlv(r, e2) {
                                        Some((_t4, _a4, e4)) => if e4 == e {
                                            Some(Some(r.subrange(e2, e)))
                                        } else {
                                            None
                                        },
                                        None => None,
                                    }
                                };
                                match token {
                                    None => RespuestaSello::Invalida,
                                    Some(tok) => if estado != 0 && estado != 1 {
                                        RespuestaSello::Rechazada(estado as nat)
                                    } else {
                                        match tok {
                                            None => RespuestaSello::SinSello,
                                            Some(s) => RespuestaSello::Sello(s),
                                        }
                                    },
                                }
                            },
                        }
                    },
                },
            }
        },
    }
}

/// The error, or the token, that a reply gives.
pub open spec fn segun_respuesta(r: core::result::Result<Vec<u8>, Error>, m: RespuestaSello) -> bool {
    match m {
        RespuestaSello::Invalida => r matches Err(e) && e@ == ErrorModelo::Tsa("respuesta inválida"@),
        RespuestaSello::Rechazada(s) => r matches Err(e) && e@ == ErrorModelo::Tsa(
            "la TSA rechazó la petición (estado "@ + ascii_texto(entero_decimal(s as int)) + ")"@,
        ),
        RespuestaSello::SinSello => r matches Err(e) && e@ == ErrorModelo::Tsa(
            "la respuesta no incluye sello"@,
        ),
        RespuestaSello::Sello(t) => r matches Ok(v) && v@ == t,
    }
}

/// Reads the token out of the reply of a time-stamping authority.
pub fn extract_token(resp: &[u8]) -> (r: core::result::Result<Vec<u8>, Error>)
    ensures
        segun_respuesta(r, respuesta_sello(resp@)),
{
    let invalida = Err(Error::Tsa(String::from_str("respuesta inválida")));
    let (t, a, e) = match leer_tlv_en(resp, 0) {
        None => return invalida,
        Some(x) => x,
    };
    if t != 0x30 || e != resp.len() {
        return invalida;
    }
    let (t2, a2, e2) = match leer_tlv_en(resp, a) {
        None => return invalida,
        Some(x) => x,
    };
    let (t3, a3, e3) = match leer_tlv_en(resp, a2) {
        None => return invalida,
        Some(x) => x,
    };
    if t2 != 0x30 || t3 != 0x02 || e3 != e2 {
        return invalida;
    }
    let valor = tramo_bytes(resp, a3, e3);
    let estado = match leer_entero_u32(valor.as_slice()) {
        None => return invalida,
        Some(s) => s,
    };
    let token = if e2 == e {
        None
    } else {
        match leer_tlv_en(resp, e2) {
            Some((_t4, _a4, e4)) => if e4 == e {
                Some(tramo_bytes(resp, e2, e))
            } else {
                return invalida;
            },
            None => return invalida,
        }
    };
    if estado != 0 && estado != 1 {
        let numero = escribir_entero(estado as i64);
        let m = String::from_str("la TSA rechazó la petición (estado ").concat(
            texto_ascii(numero.as_slice()).as_str(),
        ).concat(")");
        return Err(Error::Tsa(m));
    }
    match token {
        None => Err(Error::Tsa(String::from_str("la respuesta no incluye sello"))),
        Some(tok) => Ok(tok),
    }
}

/// What the HTTP exchange with the authority gives: the token when it
/// answered 200 with a reply that holds one, else the error.
pub fn token_de_respuesta(codigo: i32, cuerpo: &[u8]) -> (r: core::result::Result<Vec<u8>, Error>)
    ensures
        codigo != 200 ==> (r matches Err(e) && e@ == ErrorModelo::Tsa(
            "la TSA respondió "@ + ascii_texto(entero_decimal(codigo as int)),
        )),
        codigo == 200 ==> segun_respuesta(r, respuesta_sello(cuerpo@)),
{
    if codigo != 200 {
        let numero = escribir_entero(codigo as i64);
        return Err(
            Error::Tsa(
                String::from_str("la TSA respondió ").concat(texto_ascii(numero.as_slice()).as_str()),
            ),
        );
    }
    extract_token(cuerpo)
}

} // verus!

verus! {

/// A reply made of a status and a DER token reads back: the token when the
/// status grants the request (0 or 1), the refusal with that status
/// otherwise.
#[verifier::rlimit(100)]
#[verifier::spinoff_prover]
pub proof fn ley_respuesta_sello(estado: nat, token: Seq<u8>)
    requires
        estado <= u32::MAX,
        leer_tlv(token, 0) matches Some((_t, _a, e)) && e == token.len(),
        token.len() + 20 <= largo_maximo(),
    ensures
        respuesta_sello(tlv(0x30, tlv(0x30, tlv(0x02, entero_der(estado))) + token)) == if estado
            <= 1 {
            RespuestaSello::Sello(token)
        } else {
            RespuestaSello::Rechazada(estado)
        },
{
    let v = entero_der(estado);
    let i = tlv(0x02, v);
    let s = tlv(0x30, i);
    let c = s + token;
    let r = tlv(0x30, c);
    lema_bytes_be(estado);
    assert(v.len() <= 5);
    lema_leer_tlv(Seq::empty(), 0x30, c, Seq::empty());
    assert(Seq::<u8>::empty() + r + Seq::<u8>::empty() =~= r);
    let pre = seq![0x30u8] + largo_der(c.len());
    let a = pre.len() as int;
    assert(r =~= pre + s + token);
    lema_leer_tlv(pre, 0x30, i, token);
    let pre2 = pre + seq![0x30u8] + largo_der(i.len());
    assert(r =~= pre2 + i + token);
    lema_leer_tlv(pre2, 0x02, v, token);
    let a3 = pre2.len() + 1 + largo_der(v.len()).len();
    assert(r.subrange(a3 as int, (a3 + v.len()) as int) =~= v);
    lema_entero_u32(estado);
    let e2 = a + s.len();
    assert(r =~= (pre + s) + token);
    lema_desplazar_tlv(pre + s, token, 0);
    assert(r.subrange(e2, r.len() as int) =~= token);
}

} // verus!
