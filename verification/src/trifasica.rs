//! The three-step signing of the carFirma portals: the server gives the
//! document's identifier, then the hash to sign for the signer's
//! certificate (pre-signature), and finally receives the signature
//! (post-signature). The exchanges with the server are HTTP requests made
//! outside; here are the decisions between them.

use vstd::prelude::*;
use crate::keystore::{firma_de, identidad_valida, Identity};
use crate::numeros::{ascii_texto, decimal, escribir_decimal, texto_ascii};
use crate::proveedores::{ResultadoFirma, Solicitud};

verus! {

/// Where the three-step signing stands.
pub enum EstadoTrifasico {
    /// Nothing asked yet.
    Inicio,
    /// Waiting for the document's identifier.
    EsperandoDocumento,
    /// Waiting for the hash of the pre-signature of this document.
    EsperandoResumen(String),
    /// Waiting for the server to take the signature.
    EsperandoCierre,
    /// Done.
    Terminado,
}

/// What happened outside.
pub enum EventoTrifasico {
    /// The signing starts.
    Comenzar,
    /// The server answered with the document's identifier, or did not.
    Documento(Option<String>),
    /// The pre-signature gave the hash to sign, or failed with a message.
    Resumen(core::result::Result<Vec<u8>, String>),
    /// The post-signature succeeded, or failed with a message.
    Cierre(core::result::Result<(), String>),
}

/// What to do next.
pub enum AccionTrifasica {
    /// Ask the server for the identifier of the session's document.
    PedirDocumento(String),
    /// Send the pre-signature: the document, the signer's certificate and
    /// the root of its chain, if any.
    EnviarPrefirma(String, Vec<u8>, Option<Vec<u8>>),
    /// Send the signature of the document.
    EnviarFirma(String, Vec<u8>),
    /// Stop with this outcome.
    Terminar(ResultadoFirma),
}

/// Whether an event is the one that a state waits for.
pub open spec fn evento_esperado(estado: EstadoTrifasico, evento: EventoTrifasico) -> bool {
    match (estado, evento) {
        (EstadoTrifasico::Inicio, EventoTrifasico::Comenzar) => true,
        (EstadoTrifasico::EsperandoDocumento, EventoTrifasico::Documento(_)) => true,
        (EstadoTrifasico::EsperandoResumen(_), EventoTrifasico::Resumen(_)) => true,
        (EstadoTrifasico::EsperandoCierre, EventoTrifasico::Cierre(_)) => true,
        _ => false,
    }
}

/// A line of the trace with a number of bytes.
pub open spec fn linea_bytes(prefijo: Seq<char>, n: nat) -> Seq<char> {
    prefijo + ascii_texto(decimal(n)) + " bytes"@
}

fn escribir_linea_bytes(prefijo: &str, n: usize) -> (r: String)
    ensures
        r@ == linea_bytes(prefijo@, n as nat),
{
    let d = escribir_decimal(n as u64);
    String::from_str(prefijo).concat(texto_ascii(d.as_slice()).as_str()).concat(" bytes")
}

/// One step of the three-step signing: from the state and what happened,
/// the next state, what to do and the lines for the trace.
pub fn paso_carfirma(
    estado: EstadoTrifasico,
    evento: EventoTrifasico,
    solicitud: &Solicitud,
    identity: &Identity,
) -> (r: (EstadoTrifasico, AccionTrifasica, Vec<String>))
    requires
        identidad_valida(identity@),
        crate::keystore::firma_sha256_cabe(identity@.clave),
        evento_esperado(estado, evento),
    ensures
        match (estado, evento) {
            (EstadoTrifasico::Inicio, EventoTrifasico::Comenzar) => {
                &&& r.0 is EsperandoDocumento
                &&& r.1 matches AccionTrifasica::PedirDocumento(s) && s@ == solicitud.sesion@
                &&& r.2@.len() == 1 && r.2@[0]@ == "inicio firma trifásica"@
            },
            (EstadoTrifasico::EsperandoDocumento, EventoTrifasico::Documento(None)) => {
                &&& r.0 is Terminado
                &&& r.1 matches AccionTrifasica::Terminar(f) && !f.correcto && f.mensaje@
                    == "sesión no válida o caducada"@
                &&& r.2@.len() == 1 && r.2@[0]@
                    == "FALLO: id_documento (sesión caducada o servidor no responde)"@
            },
            (EstadoTrifasico::EsperandoDocumento, EventoTrifasico::Documento(Some(id))) => {
                &&& r.0 matches EstadoTrifasico::EsperandoResumen(d) && d@ == id@
                &&& r.1 matches AccionTrifasica::EnviarPrefirma(d, cert, raiz) && d@ == id@
                    && cert@ == identity@.cert && match raiz {
                    Some(v) => identity@.chain.len() > 0 && v@ == identity@.chain.last(),
                    None => identity@.chain.len() == 0,
                }
                &&& r.2@.len() == 2 && r.2@[0]@ == "doc_id obtenido: "@ + id@ && r.2@[1]@
                    == "enviando pre-firma (POST hash) con el certificado..."@
            },
            (EstadoTrifasico::EsperandoResumen(_), EventoTrifasico::Resumen(Err(e))) => {
                &&& r.0 is Terminado
                &&& r.1 matches AccionTrifasica::Terminar(f) && !f.correcto && f.mensaje@
                    == "pre-firma: "@ + e@
                &&& r.2@.len() == 1 && r.2@[0]@ == "FALLO en pre-firma: "@ + e@
            },
            (EstadoTrifasico::EsperandoResumen(doc), EventoTrifasico::Resumen(Ok(hash))) => {
                &&& r.0 is EsperandoCierre
                &&& r.1 matches AccionTrifasica::EnviarFirma(d, firma) && d@ == doc@ && firma@
                    == firma_de(identity@.clave, hash@)
                &&& r.2@.len() == 2 && r.2@[0]@ == linea_bytes(
                    "hash recibido del servidor: "@,
                    hash@.len(),
                ) && r.2@[1]@ == linea_bytes(
                    "firma generada localmente: "@,
                    firma_de(identity@.clave, hash@).len(),
                )
            },
            (EstadoTrifasico::EsperandoCierre, EventoTrifasico::Cierre(Ok(()))) => {
                &&& r.0 is Terminado
                &&& r.1 matches AccionTrifasica::Terminar(f) && f.correcto && f.mensaje@
                    == "documento firmado y devuelto a la sede"@
                &&& r.2@.len() == 1 && r.2@[0]@
                    == "post-firma OK: documento firmado y devuelto a la sede"@
            },
            (EstadoTrifasico::EsperandoCierre, EventoTrifasico::Cierre(Err(e))) => {
                &&& r.0 is Terminado
                &&& r.1 matches AccionTrifasica::Terminar(f) && !f.correcto && f.mensaje@
                    == "post-firma: "@ + e@
                &&& r.2@.len() == 1 && r.2@[0]@ == "FALLO en post-firma: "@ + e@
            },
            _ => false,
        },
{
    match (estado, evento) {
        (EstadoTrifasico::Inicio, EventoTrifasico::Comenzar) => (
            EstadoTrifasico::EsperandoDocumento,
            AccionTrifasica::PedirDocumento(solicitud.sesion.clone()),
            vec![String::from_str("inicio firma trifásica")],
        ),
        (EstadoTrifasico::EsperandoDocumento, EventoTrifasico::Documento(None)) => (
            EstadoTrifasico::Terminado,
            AccionTrifasica::Terminar(ResultadoFirma::error("sesión no válida o caducada")),
            vec![String::from_str("FALLO: id_documento (sesión caducada o servidor no responde)")],
        ),
        (EstadoTrifasico::EsperandoDocumento, EventoTrifasico::Documento(Some(doc_id))) => {
            let cert = match identity.cert_der() {
                Ok(c) => c,
                Err(_) => Vec::new(),
            };
            let raiz = identity.root_der();
            let trazas = vec![
                String::from_str("doc_id obtenido: ").concat(doc_id.as_str()),
                String::from_str("enviando pre-firma (POST hash) con el certificado..."),
            ];
            let d = doc_id.clone();
            (EstadoTrifasico::EsperandoResumen(doc_id), AccionTrifasica::EnviarPrefirma(d, cert, raiz), trazas)
        },
        (EstadoTrifasico::EsperandoResumen(_), EventoTrifasico::Resumen(Err(e))) => (
            EstadoTrifasico::Terminado,
            AccionTrifasica::Terminar(ResultadoFirma::error(String::from_str("pre-firma: ").concat(e.as_str()).as_str())),
            vec![String::from_str("FALLO en pre-firma: ").concat(e.as_str())],
        ),
        (EstadoTrifasico::EsperandoResumen(doc_id), EventoTrifasico::Resumen(Ok(hash))) => {
            let firma = match identity.firmar_sha256(hash.as_slice()) {
                Ok(f) => f,
                Err(_) => Vec::new(),
            };
            let trazas = vec![
                escribir_linea_bytes("hash recibido del servidor: ", hash.len()),
                escribir_linea_bytes("firma generada localmente: ", firma.len()),
            ];
            (EstadoTrifasico::EsperandoCierre, AccionTrifasica::EnviarFirma(doc_id, firma), trazas)
        },
        (EstadoTrifasico::EsperandoCierre, EventoTrifasico::Cierre(Ok(()))) => (
            EstadoTrifasico::Terminado,
            AccionTrifasica::Terminar(ResultadoFirma::ok("documento firmado y devuelto a la sede")),
            vec![String::from_str("post-firma OK: documento firmado y devuelto a la sede")],
        ),
        (EstadoTrifasico::EsperandoCierre, EventoTrifasico::Cierre(Err(e))) => (
            EstadoTrifasico::Terminado,
            AccionTrifasica::Terminar(ResultadoFirma::error(String::from_str("post-firma: ").concat(e.as_str()).as_str())),
            vec![String::from_str("FALLO en post-firma: ").concat(e.as_str())],
        ),
        _ => (EstadoTrifasico::Terminado, AccionTrifasica::Terminar(ResultadoFirma::error("")), Vec::new()),
    }
}

} // verus!
