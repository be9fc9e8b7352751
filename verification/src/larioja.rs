//! Client of the signing service of the portals of La Rioja (carFirma).
//!
//! The server offers a REST interface under `<urlBase>/servicioFirma/firmas`.
//! The base URL comes inside the `carfirma://` invocation (field `id`).

use vstd::prelude::*;
use crate::numeros::{ascii_texto, entero_decimal, escribir_entero, texto_ascii};
use crate::protocol::{campo_json, json_campo, vista_opcional};
use crate::texto::{caracteres, largo_sin_finales, sin_finales, texto_de, tramo};

verus! {

/// Path of the signing service below the base URL.
pub open spec fn ruta_raiz() -> Seq<char> {
    "servicioFirma/firmas"@
}

/// Path of the status resource below the signing service.
pub open spec fn ruta_estado() -> Seq<char> {
    "status"@
}

/// A client of the signing service at one base URL.
pub struct Cliente {
    url_base: String,
}

impl View for Cliente {
    type V = Seq<char>;

    /// The base URL, without trailing slashes.
    closed spec fn view(&self) -> Seq<char> {
        self.url_base@
    }
}

/// The state of the signing service.
#[derive(Debug)]
pub struct Estado {
    pub bloqueada: bool,
    pub version_actual: String,
    pub version_minima: String,
}

/// The texts of an optional text, or an empty text.
pub open spec fn o_vacio(o: Option<Seq<char>>) -> Seq<char> {
    match o {
        Some(s) => s,
        None => Seq::empty(),
    }
}

/// The state that a status reply of the service reports.
pub open spec fn estado_de_json(json: Seq<char>) -> (bool, Seq<char>, Seq<char>) {
    (
        campo_json(json, "bloqueada"@) == Some("true"@),
        o_vacio(campo_json(json, "versionActual"@)),
        o_vacio(campo_json(json, "versionMinimaPermitida"@)),
    )
}

impl Cliente {
    /// A client of the service at `url_base`; trailing slashes are dropped.
    pub fn new(url_base: &str) -> (c: Self)
        ensures
            c@ == sin_finales(url_base@, '/'),
    {
        let v = caracteres(url_base);
        let n = largo_sin_finales(v.as_slice(), '/');
        Cliente { url_base: texto_de(tramo(v.as_slice(), 0, n).as_slice()) }
    }

    /// The URL of resource `path` of the signing service.
    pub fn url(&self, path: &str) -> (r: String)
        ensures
            r@ == self@ + seq!['/'] + ruta_raiz() + seq!['/'] + path@,
    {
        let mut r = self.url_base.clone();
        r.append("/");
        r.append("servicioFirma/firmas");
        r.append("/");
        r.append(path);
        proof {
            reveal_strlit("/");
            assert(r@ =~= self@ + seq!['/'] + ruta_raiz() + seq!['/'] + path@);
        }
        r
    }

    /// The URL of the status resource, which needs no session.
    pub fn url_estado(&self) -> (r: String)
        ensures
            r@ == self@ + seq!['/'] + ruta_raiz() + seq!['/'] + ruta_estado(),
    {
        self.url("status")
    }
}

/// Reads the state of the service from the JSON text of a status reply.
pub fn parse_estado(json: &str) -> (e: Estado)
    ensures
        (e.bloqueada, e.version_actual@, e.version_minima@) == estado_de_json(json@),
{
    let bloqueada = match campo(json, "bloqueada") {
        Some(v) => {
            let t = String::from_str("true");
            v == t
        },
        None => false,
    };
    let version_actual = match campo(json, "versionActual") {
        Some(v) => v,
        None => String::new(),
    };
    let version_minima = match campo(json, "versionMinimaPermitida") {
        Some(v) => v,
        None => String::new(),
    };
    Estado { bloqueada, version_actual, version_minima }
}

fn campo(json: &str, clave: &str) -> (r: Option<String>)
    ensures
        vista_opcional(r) == campo_json(json@, clave@),
{
    json_campo(json, clave)
}

/// The error that a reply with an unexpected status code gives.
pub open spec fn error_de_codigo(codigo: int) -> Seq<char> {
    "el servicio respondió "@ + ascii_texto(entero_decimal(codigo))
}

/// The outcome of a status request: the state for a reply with code 200
/// whose body is text, and an error otherwise.
pub fn estado_de_respuesta(codigo: i32, cuerpo: Result<String, String>) -> (r: Result<
    Estado,
    String,
>)
    ensures
        codigo != 200 ==> (r matches Err(m) && m@ == error_de_codigo(codigo as int)),
        codigo == 200 ==> match (cuerpo, r) {
            (Ok(texto), Ok(e)) => (e.bloqueada, e.version_actual@, e.version_minima@)
                == estado_de_json(texto@),
            (Err(m1), Err(m2)) => m1 == m2,
            _ => false,
        },
{
    if codigo != 200 {
        let mut m = String::from_str("el servicio respondió ");
        let d = escribir_entero(codigo as i64);
        m.append(texto_ascii(d.as_slice()).as_str());
        return Err(m);
    }
    match cuerpo {
        Ok(texto) => Ok(parse_estado(texto.as_str())),
        Err(m) => Err(m),
    }
}

} // verus!
