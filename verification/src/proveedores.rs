//! Portal providers: each administration with a protocol of its own has a
//! provider, chosen by the scheme of the invocation URL (`carfirma://`,
//! `idazki://`, `afirma://`).

use vstd::prelude::*;
use vstd::utf8::encode_utf8;
use crate::codificacion::{base64_decodificado, decodificar_base64};
use crate::protocol::{
    id_from_carfirma_string, sesion_de_id, servidor_de_id, url_base_from_id, vista_opcional,
    Invocation, ModeloInvocacion,
};
use crate::texto::{caracteres, empieza_con, empieza_con_chars};

verus! {

/// Result of preparing a signing operation from an invocation.
pub struct Solicitud {
    /// Server of the portal with which the data are exchanged.
    pub servidor: String,
    /// Session identifier of the operation.
    pub sesion: String,
    /// Document to sign, if it was obtained.
    pub documento: Option<Vec<u8>>,
}

/// A request as values.
pub struct ModeloSolicitud {
    pub servidor: Seq<char>,
    pub sesion: Seq<char>,
    pub documento: Option<Seq<u8>>,
}

impl View for Solicitud {
    type V = ModeloSolicitud;

    open spec fn view(&self) -> ModeloSolicitud {
        ModeloSolicitud {
            servidor: self.servidor@,
            sesion: self.sesion@,
            documento: match self.documento {
                Some(d) => Some(d@),
                None => None,
            },
        }
    }
}

/// A text, or the empty text.
pub open spec fn o_vacio(o: Option<Seq<char>>) -> Seq<char> {
    match o {
        Some(s) => s,
        None => Seq::empty(),
    }
}

/// The document that an invocation carries in its `dat` parameter.
pub open spec fn documento_embebido(inv: ModeloInvocacion) -> Option<Seq<u8>> {
    match inv.data {
        Some(d) => base64_decodificado(encode_utf8(d)),
        None => None,
    }
}

/// The request that a provider which receives the document inside the
/// invocation prepares.
pub open spec fn solicitud_embebida(inv: ModeloInvocacion) -> ModeloSolicitud {
    ModeloSolicitud {
        servidor: o_vacio(inv.id),
        sesion: o_vacio(inv.id),
        documento: documento_embebido(inv),
    }
}

/// The request that the carFirma provider prepares: server and session come
/// from the carFirma `id`; the document is fetched from that server later.
pub open spec fn solicitud_carfirma(inv: ModeloInvocacion) -> ModeloSolicitud {
    ModeloSolicitud {
        servidor: match inv.id {
            Some(id) => o_vacio(servidor_de_id(id)),
            None => Seq::empty(),
        },
        sesion: match inv.id {
            Some(id) => o_vacio(sesion_de_id(id)),
            None => Seq::empty(),
        },
        documento: None,
    }
}

/// Behaviour common to all portals: each provider knows its protocol.
pub trait ProveedorSede {
    /// Readable name of the provider.
    spec fn nombre_de(&self) -> Seq<char>;

    /// The request that the provider prepares from an invocation.
    spec fn solicitud_de(&self, inv: ModeloInvocacion) -> ModeloSolicitud;

    /// Readable name of the provider (to show to the user).
    fn nombre(&self) -> (r: &'static str)
        ensures
            r@ == self.nombre_de(),
    ;

    /// Prepares the signing request from the invocation received: server,
    /// session and, where the invocation carries it, the document.
    fn preparar(&self, invocation: &Invocation) -> (s: Solicitud)
        ensures
            s@ == self.solicitud_de(invocation@),
    ;
}

/// The standard AutoFirma protocol (`afirma://`).
pub struct AfirmaProvider;

/// The carFirma protocol of La Rioja (`carfirma://`).
pub struct CarFirmaProvider;

/// The Idazki Desktop protocol of the Basque Country (`idazki://`).
pub struct IdazkiProvider;

/// The request of a provider that receives the document in base64 inside
/// the invocation.
fn preparar_embebido(invocation: &Invocation) -> (s: Solicitud)
    ensures
        s@ == solicitud_embebida(invocation@),
{
    let documento = match &invocation.data {
        Some(d) => decodificar_base64(d.as_str().as_bytes()),
        None => None,
    };
    let id = match &invocation.id {
        Some(id) => id.clone(),
        None => String::new(),
    };
    Solicitud { servidor: id.clone(), sesion: id, documento }
}

impl ProveedorSede for AfirmaProvider {
    open spec fn nombre_de(&self) -> Seq<char> {
        "AutoFirma (@firma)"@
    }

    open spec fn solicitud_de(&self, inv: ModeloInvocacion) -> ModeloSolicitud {
        solicitud_embebida(inv)
    }

    fn nombre(&self) -> (r: &'static str) {
        "AutoFirma (@firma)"
    }

    fn preparar(&self, invocation: &Invocation) -> (s: Solicitud) {
        preparar_embebido(invocation)
    }
}

impl ProveedorSede for IdazkiProvider {
    open spec fn nombre_de(&self) -> Seq<char> {
        "Idazki (País Vasco)"@
    }

    open spec fn solicitud_de(&self, inv: ModeloInvocacion) -> ModeloSolicitud {
        solicitud_embebida(inv)
    }

    fn nombre(&self) -> (r: &'static str) {
        "Idazki (País Vasco)"
    }

    fn preparar(&self, invocation: &Invocation) -> (s: Solicitud) {
        preparar_embebido(invocation)
    }
}

impl ProveedorSede for CarFirmaProvider {
    open spec fn nombre_de(&self) -> Seq<char> {
        "carFirma (La Rioja)"@
    }

    open spec fn solicitud_de(&self, inv: ModeloInvocacion) -> ModeloSolicitud {
        solicitud_carfirma(inv)
    }

    fn nombre(&self) -> (r: &'static str) {
        "carFirma (La Rioja)"
    }

    fn preparar(&self, invocation: &Invocation) -> (s: Solicitud) {
        let servidor = match &invocation.id {
            Some(id) => match url_base_from_id(id.as_str()) {
                Some(s) => s,
                None => String::new(),
            },
            None => String::new(),
        };
        let sesion = match &invocation.id {
            Some(id) => match id_from_carfirma_string(id.as_str()) {
                Some(s) => s,
                None => String::new(),
            },
            None => String::new(),
        };
        Solicitud { servidor, sesion, documento: None }
    }
}

impl CarFirmaProvider {
    /// Whether the document of a carFirma request must be fetched from the
    /// portal's server: only when both the server and the session are known.
    pub fn requiere_descarga(solicitud: &Solicitud) -> (r: bool)
        ensures
            r == (solicitud.servidor@.len() > 0 && solicitud.sesion@.len() > 0),
    {
        let a = caracteres(solicitud.servidor.as_str());
        let b = caracteres(solicitud.sesion.as_str());
        a.len() > 0 && b.len() > 0
    }
}

/// The provider for the scheme of an invocation URL.
pub enum Proveedor {
    Afirma(AfirmaProvider),
    CarFirma(CarFirmaProvider),
    Idazki(IdazkiProvider),
}

impl ProveedorSede for Proveedor {
    open spec fn nombre_de(&self) -> Seq<char> {
        match self {
            Proveedor::Afirma(p) => p.nombre_de(),
            Proveedor::CarFirma(p) => p.nombre_de(),
            Proveedor::Idazki(p) => p.nombre_de(),
        }
    }

    open spec fn solicitud_de(&self, inv: ModeloInvocacion) -> ModeloSolicitud {
        match self {
            Proveedor::Afirma(p) => p.solicitud_de(inv),
            Proveedor::CarFirma(p) => p.solicitud_de(inv),
            Proveedor::Idazki(p) => p.solicitud_de(inv),
        }
    }

    fn nombre(&self) -> (r: &'static str) {
        match self {
            Proveedor::Afirma(p) => p.nombre(),
            Proveedor::CarFirma(p) => p.nombre(),
            Proveedor::Idazki(p) => p.nombre(),
        }
    }

    fn preparar(&self, invocation: &Invocation) -> (s: Solicitud) {
        match self {
            Proveedor::Afirma(p) => p.preparar(invocation),
            Proveedor::CarFirma(p) => p.preparar(invocation),
            Proveedor::Idazki(p) => p.preparar(invocation),
        }
    }
}

/// The provider that a URL's scheme selects.
pub open spec fn proveedor_de_esquema(url: Seq<char>) -> Proveedor {
    if empieza_con(url, "carfirma://"@) {
        Proveedor::CarFirma(CarFirmaProvider)
    } else if empieza_con(url, "idazki://"@) {
        Proveedor::Idazki(IdazkiProvider)
    } else {
        Proveedor::Afirma(AfirmaProvider)
    }
}

/// Returns the provider for the scheme of the invocation URL.
pub fn para_esquema(url: &str) -> (p: Proveedor)
    ensures
        p == proveedor_de_esquema(url@),
{
    let u = caracteres(url);
    if empieza_con_chars(u.as_slice(), caracteres("carfirma://").as_slice()) {
        Proveedor::CarFirma(CarFirmaProvider)
    } else if empieza_con_chars(u.as_slice(), caracteres("idazki://").as_slice()) {
        Proveedor::Idazki(IdazkiProvider)
    } else {
        Proveedor::Afirma(AfirmaProvider)
    }
}

} // verus!

verus! {

/// The outcome of a signing operation, shown to the user.
pub struct ResultadoFirma {
    /// Whether the document was signed.
    pub correcto: bool,
    /// What happened.
    pub mensaje: String,
}

impl ResultadoFirma {
    /// A successful outcome.
    pub fn ok(mensaje: &str) -> (r: ResultadoFirma)
        ensures
            r.correcto && r.mensaje@ == mensaje@,
    {
        ResultadoFirma { correcto: true, mensaje: String::from_str(mensaje) }
    }

    /// A failed outcome.
    pub fn error(mensaje: &str) -> (r: ResultadoFirma)
        ensures
            !r.correcto && r.mensaje@ == mensaje@,
    {
        ResultadoFirma { correcto: false, mensaje: String::from_str(mensaje) }
    }
}

/// Whether the document of a request can be signed without overflowing the
/// numbering of a PDF's objects.
pub open spec fn documento_firmable(s: ModeloSolicitud) -> bool {
    match s.documento {
        Some(d) => crate::web::es_pdf(d) ==> crate::pades::numeracion_cabe(d),
        None => true,
    }
}

/// Signs the document of a request here, with PAdES for a PDF and with a
/// detached CAdES signature otherwise. Gives the outcome and the signed
/// bytes, which are kept in the user's home folder.
pub fn firmar_local(solicitud: &Solicitud, identity: &crate::keystore::Identity) -> (r: (
    ResultadoFirma,
    Option<Vec<u8>>,
))
    requires
        crate::keystore::identidad_valida(identity@),
        crate::firma_cms::cadena_sin_repetidos(identity@.cert, identity@.chain),
        documento_firmable(solicitud@),
    ensures
        match solicitud@.documento {
            None => !r.0.correcto && r.0.mensaje@ == "no se recibió el documento a firmar"@
                && r.1 is None,
            Some(d) => {
                &&& match r.1 {
                    Some(bytes) => r.0.correcto && r.0.mensaje@ == "firmado ("@
                        + crate::numeros::ascii_texto(crate::numeros::decimal(bytes@.len()))
                        + " bytes)"@ && crate::web::firmado_esperado(d, identity@) == Ok::<
                        Seq<u8>,
                        crate::error::ErrorModelo,
                    >(bytes@),
                    None => !r.0.correcto,
                }
                &&& crate::firma_cms::identidad_firmable(identity@, None) ==> match crate::web::firmado_esperado(d, identity@) {
                    Ok(_) => r.1 is Some,
                    Err(e) => r.1 is None && r.0.mensaje@ == crate::error::mensaje_de(e),
                }
            },
        },
{
    let datos = match &solicitud.documento {
        None => return (ResultadoFirma::error("no se recibió el documento a firmar"), None),
        Some(d) => d,
    };
    let firmado = if crate::web::is_pdf(datos.as_slice()) {
        crate::pades::sign(datos.as_slice(), identity)
    } else {
        crate::cades::sign(datos.as_slice(), identity)
    };
    assert(firmado matches Ok(s) ==> crate::web::firmado_esperado(datos@, identity@) == Ok::<
        Seq<u8>,
        crate::error::ErrorModelo,
    >(s@));
    match firmado {
        Ok(bytes) => {
            let n = crate::numeros::escribir_decimal(bytes.len() as u64);
            let m = String::from_str("firmado (").concat(
                crate::numeros::texto_ascii(n.as_slice()).as_str(),
            ).concat(" bytes)");
            (ResultadoFirma { correcto: true, mensaje: m }, Some(bytes))
        },
        Err(e) => (ResultadoFirma { correcto: false, mensaje: e.mensaje() }, None),
    }
}

} // verus!
