//! The local bridge of the `afirma://` protocol: the replies to portal
//! messages, and the page that shows an invocation to the user.

use vstd::prelude::*;
use vstd::utf8::encode_utf8;
use crate::certificados::Certificado;
use crate::larioja::{Estado, o_vacio};
use crate::numeros::{ascii_texto, decimal, escribir_decimal, texto_ascii};
use crate::protocol::{
    id_from_carfirma_string, invocacion_de, parse, sesion_de_id, servidor_de_id, url_base_from_id,
    vista_opcional, Invocation,
};
use crate::texto::{buscar_chars, buscar_desde, caracteres, empieza_con, empieza_con_chars, lema_buscar_desde, texto_de, tramo};

verus! {

/// The message with which a portal checks that the client is there.
pub open spec fn prefijo_eco() -> Seq<char> {
    "echo="@
}

/// The reply that a portal message gets: `OK` to a detection message
/// (`echo=...`), an acknowledgement of the operation otherwise.
pub open spec fn respuesta_a(mensaje: Seq<char>) -> Seq<char> {
    if empieza_con(mensaje, prefijo_eco()) {
        "OK"@
    } else {
        "RUBRICA_RECEIVED:"@ + invocacion_de(mensaje).operation
    }
}

/// Answers a message received on the WebSocket.
pub fn handle(message: &str) -> (r: String)
    ensures
        r@ == respuesta_a(message@),
{
    let m = caracteres(message);
    if empieza_con_chars(m.as_slice(), caracteres("echo=").as_slice()) {
        return String::from_str("OK");
    }
    process_operation(message)
}

/// Acknowledges an operation request.
pub fn process_operation(message: &str) -> (r: String)
    ensures
        r@ == "RUBRICA_RECEIVED:"@ + invocacion_de(message@).operation,
{
    let invocation = parse(message);
    String::from_str("RUBRICA_RECEIVED:").concat(invocation.operation.as_str())
}

/// What HTML escaping makes of one character.
pub open spec fn escape_char(c: char) -> Seq<char> {
    if c == '&' {
        "&amp;"@
    } else if c == '<' {
        "&lt;"@
    } else if c == '>' {
        "&gt;"@
    } else {
        seq![c]
    }
}

/// A text with `&`, `<` and `>` written as HTML entities.
pub open spec fn escapado(s: Seq<char>) -> Seq<char>
    decreases s.len(),
{
    if s.len() == 0 {
        seq![]
    } else {
        escapado(s.drop_last()) + escape_char(s.last())
    }
}

/// Escapes `&`, `<` and `>` for HTML.
pub fn escape(s: &str) -> (r: String)
    ensures
        r@ == escapado(s@),
{
    let cs = caracteres(s);
    let mut r = String::new();
    let mut i: usize = 0;
    while i < cs.len()
        invariant
            i <= cs@.len(),
            r@ == escapado(cs@.subrange(0, i as int)),
        decreases cs@.len() - i,
    {
        let c = cs[i];
        assert(cs@.subrange(0, i + 1).drop_last() =~= cs@.subrange(0, i as int));
        if c == '&' {
            r.append("&amp;");
        } else if c == '<' {
            r.append("&lt;");
        } else if c == '>' {
            r.append("&gt;");
        } else {
            let uno = [c];
            r.append(texto_de(uno.as_slice()).as_str());
            assert(uno@ =~= seq![c]);
        }
        i += 1;
    }
    assert(cs@.subrange(0, cs@.len() as int) =~= cs@);
    r
}

/// Every occurrence of `de` in `s`, from left to right and without
/// overlapping, replaced by `por`, as `str::replace` does.
pub open spec fn reemplazado(s: Seq<char>, de: Seq<char>, por: Seq<char>) -> Seq<char>
    decreases s.len(),
{
    if de.len() == 0 {
        s
    } else {
        match buscar_desde(s, de, 0) {
            Some(p) => if 0 <= p && p + de.len() <= s.len() {
                s.subrange(0, p) + por + reemplazado(s.subrange(p + de.len(), s.len() as int), de, por)
            } else {
                s
            },
            None => s,
        }
    }
}

/// Replaces every occurrence of a marker in a text.
pub fn reemplazar(s: &str, de: &str, por: &str) -> (r: String)
    requires
        de@.len() > 0,
    ensures
        r@ == reemplazado(s@, de@, por@),
{
    let d = caracteres(de);
    let mut resto = caracteres(s);
    let mut r = String::new();
    loop
        invariant
            d@ == de@,
            de@.len() > 0,
            r@ + reemplazado(resto@, de@, por@) == reemplazado(s@, de@, por@),
        decreases resto@.len(),
    {
        proof {
            lema_buscar_desde(resto@, de@, 0);
        }
        match buscar_chars(resto.as_slice(), d.as_slice(), 0) {
            Some(p) => {
                assert(p + d@.len() <= resto.len());
                let antes = tramo(resto.as_slice(), 0, p);
                let despues = tramo(resto.as_slice(), p + d.len(), resto.len());
                let ghost r0 = r@;
                r.append(texto_de(antes.as_slice()).as_str());
                r.append(por);
                assert(r0 + reemplazado(resto@, de@, por@) =~= r@ + reemplazado(despues@, de@, por@));
                resto = despues;
            },
            None => {
                r.append(texto_de(resto.as_slice()).as_str());
                return r;
            },
        }
    }
}

} // verus!

verus! {

/// The `<option>` of one certificate: its path as value, its name as text.
pub open spec fn opcion(c: Certificado) -> Seq<char> {
    "<option value=\""@ + escapado(c.ruta@) + "\">"@ + escapado(c.nombre@) + "</option>"@
}

/// The options of the certificates, one per line.
pub open spec fn lista_opciones(cs: Seq<Certificado>) -> Seq<char>
    decreases cs.len(),
{
    if cs.len() == 0 {
        seq![]
    } else if cs.len() == 1 {
        opcion(cs[0])
    } else {
        lista_opciones(cs.drop_last()) + "\n"@ + opcion(cs.last())
    }
}

/// The option shown when no certificate was found.
pub open spec fn sin_certificados() -> Seq<char> {
    "<option value=\"\">No se encontró ningún certificado (.p12/.pfx)</option>"@
}

/// The options of the certificate selector.
pub open spec fn opciones_de(cs: Seq<Certificado>) -> Seq<char> {
    if cs.len() == 0 {
        sin_certificados()
    } else {
        lista_opciones(cs)
    }
}

fn texto_opcion(c: &Certificado) -> (r: String)
    ensures
        r@ == opcion(*c),
{
    String::from_str("<option value=\"").concat(escape(c.ruta.as_str()).as_str()).concat(
        "\">",
    ).concat(escape(c.nombre.as_str()).as_str()).concat("</option>")
}

/// The options of the certificate selector: one per certificate found, or a
/// single empty one that says that none was found.
pub fn opciones_certificados(certs: &[Certificado]) -> (r: String)
    ensures
        r@ == opciones_de(certs@),
{
    if certs.len() == 0 {
        return String::from_str(
            "<option value=\"\">No se encontró ningún certificado (.p12/.pfx)</option>",
        );
    }
    let mut r = texto_opcion(&certs[0]);
    assert(certs@.subrange(0, 1).drop_last() =~= Seq::<Certificado>::empty());
    let mut i: usize = 1;
    while i < certs.len()
        invariant
            1 <= i <= certs@.len(),
            r@ == lista_opciones(certs@.subrange(0, i as int)),
        decreases certs@.len() - i,
    {
        let ghost antes = certs@.subrange(0, i as int);
        assert(certs@.subrange(0, i + 1).drop_last() =~= antes);
        r.append("\n");
        r.append(texto_opcion(&certs[i]).as_str());
        i += 1;
    }
    assert(certs@.subrange(0, certs@.len() as int) =~= certs@);
    r
}

/// The page shown to the user: the template with its markers replaced by
/// the operation, the signing server, the session, the certificate options
/// and the report, the texts escaped for HTML.
pub open spec fn pagina(
    plantilla: Seq<char>,
    operacion: Seq<char>,
    servidor: Seq<char>,
    sesion: Seq<char>,
    certs: Seq<Certificado>,
    report: Seq<char>,
) -> Seq<char> {
    reemplazado(
        reemplazado(
            reemplazado(
                reemplazado(
                    reemplazado(plantilla, "{{OPERACION}}"@, escapado(operacion)),
                    "{{SERVIDOR}}"@,
                    escapado(servidor),
                ),
                "{{SESION}}"@,
                escapado(sesion),
            ),
            "{{OPCIONES_CERT}}"@,
            opciones_de(certs),
        ),
        "{{DETALLE}}"@,
        escapado(report),
    )
}

/// Fills the template of the page shown to the user.
pub fn ventana_html(
    plantilla: &str,
    operacion: &str,
    servidor: &str,
    sesion: &str,
    certs: &[Certificado],
    report: &str,
) -> (r: String)
    ensures
        r@ == pagina(plantilla@, operacion@, servidor@, sesion@, certs@, report@),
{
    proof {
        reveal_strlit("{{OPERACION}}");
        reveal_strlit("{{SERVIDOR}}");
        reveal_strlit("{{SESION}}");
        reveal_strlit("{{OPCIONES_CERT}}");
        reveal_strlit("{{DETALLE}}");
    }
    let r = reemplazar(plantilla, "{{OPERACION}}", escape(operacion).as_str());
    let r = reemplazar(r.as_str(), "{{SERVIDOR}}", escape(servidor).as_str());
    let r = reemplazar(r.as_str(), "{{SESION}}", escape(sesion).as_str());
    let r = reemplazar(r.as_str(), "{{OPCIONES_CERT}}", opciones_certificados(certs).as_str());
    reemplazar(r.as_str(), "{{DETALLE}}", escape(report).as_str())
}

/// The signing server and the session shown in the page: those carried by
/// the `id` of the invocation, else `(desconocido)` and nothing.
pub open spec fn datos_ventana(inv: crate::protocol::ModeloInvocacion) -> (Seq<char>, Seq<char>) {
    let servidor = match inv.id {
        Some(id) => match servidor_de_id(id) {
            Some(s) => s,
            None => "(desconocido)"@,
        },
        None => "(desconocido)"@,
    };
    let sesion = match inv.id {
        Some(id) => match sesion_de_id(id) {
            Some(s) => s,
            None => seq![],
        },
        None => seq![],
    };
    (servidor, sesion)
}

/// The signing server and the session to show for an invocation.
pub fn servidor_y_sesion(invocation: &Invocation) -> (r: (String, String))
    ensures
        (r.0@, r.1@) == datos_ventana(invocation@),
{
    let servidor = match &invocation.id {
        Some(id) => match url_base_from_id(id.as_str()) {
            Some(s) => s,
            None => String::from_str("(desconocido)"),
        },
        None => String::from_str("(desconocido)"),
    };
    let sesion = match &invocation.id {
        Some(id) => match id_from_carfirma_string(id.as_str()) {
            Some(s) => s,
            None => String::new(),
        },
        None => String::new(),
    };
    (servidor, sesion)
}

/// The HTTP reply that serves the page: status 200, HTML, its length in
/// bytes (as `str::len` gives it), and the page.
pub open spec fn respuesta_pagina(pagina: Seq<char>) -> Seq<char> {
    "HTTP/1.1 200 OK\r\nContent-Type: text/html; charset=utf-8\r\nContent-Length: "@
        + ascii_texto(decimal((encode_utf8(pagina).len() as usize) as nat))
        + "\r\nConnection: close\r\n\r\n"@ + pagina
}

/// The HTTP reply that serves the page.
pub fn respuesta_http(page: &str) -> (r: String)
    ensures
        r@ == respuesta_pagina(page@),
{
    let largo = page.len();
    let numero = escribir_decimal(largo as u64);
    String::from_str(
        "HTTP/1.1 200 OK\r\nContent-Type: text/html; charset=utf-8\r\nContent-Length: ",
    ).concat(texto_ascii(numero.as_slice()).as_str()).concat("\r\nConnection: close\r\n\r\n").concat(
        page,
    )
}

/// `Some` text, or nothing.
pub open spec fn o_nada(o: Option<Seq<char>>) -> Seq<char> {
    match o {
        Some(s) => s,
        None => seq![],
    }
}

/// The server whose status the report shows: the one carried by the `id`.
pub open spec fn servidor_consultado(inv: crate::protocol::ModeloInvocacion) -> Option<Seq<char>> {
    match inv.id {
        Some(id) => servidor_de_id(id),
        None => None,
    }
}

/// The line of the report about the status of the signing service.
pub open spec fn linea_estado(consulta: Option<core::result::Result<Estado, String>>) -> Seq<char> {
    match consulta {
        Some(Ok(e)) => "estado del servicio: bloqueada="@ + (if e.bloqueada {
            "true"@
        } else {
            "false"@
        }) + ", versión="@ + e.version_actual@ + "\n"@,
        Some(Err(m)) => "no se pudo contactar el servicio: "@ + m@ + "\n"@,
        None => seq![],
    }
}

/// What the report says of an `id`: the raw `id`, the signing server and
/// the session that it carries, and the status of the service when there is
/// a server.
pub open spec fn bloque_id(id: Seq<char>, consulta: Option<core::result::Result<Estado, String>>) -> Seq<char> {
    "id (crudo): "@ + id + "\n"@ + match servidor_de_id(id) {
        Some(base) => "servidor de firma (urlBase): "@ + base + "\n"@,
        None => seq![],
    } + match sesion_de_id(id) {
        Some(sesion) => "id de sesión: "@ + sesion + "\n"@,
        None => seq![],
    } + match servidor_de_id(id) {
        Some(_) => linea_estado(consulta),
        None => seq![],
    }
}

/// The report of an invocation: the URL, the operation, what the `id`
/// carries and the format.
pub open spec fn informe_de(
    url: Seq<char>,
    inv: crate::protocol::ModeloInvocacion,
    consulta: Option<core::result::Result<Estado, String>>,
) -> Seq<char> {
    "=== Invocación recibida desde la sede ===\n"@ + "URL completa:\n"@ + url + "\n\n"@
        + "operación: "@ + inv.operation + "\n"@ + match inv.id {
        Some(id) => bloque_id(id, consulta),
        None => seq![],
    } + match inv.format {
        Some(f) => "formato: "@ + f + "\n"@,
        None => seq![],
    }
}

fn linea_de_estado(consulta: &Option<core::result::Result<Estado, String>>) -> (r: String)
    ensures
        r@ == linea_estado(*consulta),
{
    match consulta {
        Some(Ok(estado)) => String::from_str("estado del servicio: bloqueada=").concat(
            if estado.bloqueada {
                "true"
            } else {
                "false"
            },
        ).concat(", versión=").concat(estado.version_actual.as_str()).concat("\n"),
        Some(Err(m)) => String::from_str("no se pudo contactar el servicio: ").concat(
            m.as_str(),
        ).concat("\n"),
        None => String::new(),
    }
}

fn escribir_bloque_id(id: &str, consulta: &Option<core::result::Result<Estado, String>>) -> (r: String)
    ensures
        r@ == bloque_id(id@, *consulta),
{
    let base = url_base_from_id(id);
    let servidor = match &base {
        Some(b) => String::from_str("servidor de firma (urlBase): ").concat(b.as_str()).concat("\n"),
        None => String::new(),
    };
    let sesion = match id_from_carfirma_string(id) {
        Some(real_id) => String::from_str("id de sesión: ").concat(real_id.as_str()).concat("\n"),
        None => String::new(),
    };
    let estado = match &base {
        Some(_) => linea_de_estado(consulta),
        None => String::new(),
    };
    String::from_str("id (crudo): ").concat(id).concat("\n").concat(servidor.as_str()).concat(
        sesion.as_str(),
    ).concat(estado.as_str())
}

/// The server whose status the report of an invocation shows, if any.
pub fn servidor_a_consultar(invocation: &Invocation) -> (r: Option<String>)
    ensures
        vista_opcional(r) == servidor_consultado(invocation@),
{
    match &invocation.id {
        Some(id) => url_base_from_id(id.as_str()),
        None => None,
    }
}

/// Writes the report of an invocation; `consulta` is what the status
/// request to the server of `servidor_a_consultar` gave.
pub fn informe(url: &str, invocation: &Invocation, consulta: Option<core::result::Result<Estado, String>>) -> (r: String)
    ensures
        r@ == informe_de(url@, invocation@, consulta),
{
    let cabecera = String::from_str("=== Invocación recibida desde la sede ===\n").concat(
        "URL completa:\n",
    ).concat(url).concat("\n\n").concat("operación: ").concat(invocation.operation.as_str()).concat(
        "\n",
    );
    let del_id = match &invocation.id {
        Some(id) => escribir_bloque_id(id.as_str(), &consulta),
        None => String::new(),
    };
    let formato = match &invocation.format {
        Some(fmt) => String::from_str("formato: ").concat(fmt.as_str()).concat("\n"),
        None => String::new(),
    };
    let r = cabecera.concat(del_id.as_str()).concat(formato.as_str());
    assert(r@ =~= informe_de(url@, invocation@, consulta));
    r
}

} // verus!
