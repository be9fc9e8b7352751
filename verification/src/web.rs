//! The local web interface: reading the signing request that the page
//! sends as JSON, and writing the reply.

use vstd::prelude::*;
use crate::error::ErrorModelo;
use crate::codificacion::{base64_codificado, base64_decodificado, codificar_base64, decodificar_base64};
use crate::protocol::{resto_tras_clave, tras_clave, vista_opcional};
use crate::texto::{buscar_ultimo, buscar_ultimo_chars, caracteres, como_int, texto_de, tramo};
use crate::numeros::{ascii, bytes_ascii};

verus! {

/// The characters of a JSON string up to its closing quote, with each
/// backslash dropped and the character after it kept; none when the
/// closing quote is missing.
pub open spec fn cadena_json(s: Seq<char>) -> Option<Seq<char>>
    decreases s.len(),
{
    if s.len() == 0 {
        None
    } else if s[0] == '"' {
        Some(seq![])
    } else if s[0] == '\\' {
        if s.len() == 1 {
            None
        } else {
            match cadena_json(s.subrange(2, s.len() as int)) {
                Some(o) => Some(seq![s[1]] + o),
                None => None,
            }
        }
    } else {
        match cadena_json(s.drop_first()) {
            Some(o) => Some(seq![s[0]] + o),
            None => None,
        }
    }
}

/// Reads a JSON string up to its closing quote.
fn leer_cadena(s: &[char]) -> (r: Option<Vec<char>>)
    ensures
        match r {
            Some(v) => cadena_json(s@) == Some(v@),
            None => cadena_json(s@) is None,
        },
{
    let mut out: Vec<char> = Vec::new();
    let mut i: usize = 0;
    assert(s@.subrange(0, s@.len() as int) =~= s@);
    while i < s.len()
        invariant
            i <= s@.len(),
            cadena_json(s@) == match cadena_json(s@.subrange(i as int, s@.len() as int)) {
                Some(o) => Some(out@ + o),
                None => None,
            },
        decreases s@.len() - i,
    {
        let ghost t = s@.subrange(i as int, s@.len() as int);
        let c = s[i];
        if c == '"' {
            assert(out@ + Seq::<char>::empty() =~= out@);
            return Some(out);
        } else if c == '\\' {
            if i + 1 < s.len() {
                assert(t.subrange(2, t.len() as int) =~= s@.subrange(i + 2, s@.len() as int));
                let ghost antes = out@;
                out.push(s[i + 1]);
                assert(forall|o: Seq<char>| antes + (seq![t[1]] + o) =~= out@ + o);
                i += 2;
            } else {
                return None;
            }
        } else {
            assert(t.drop_first() =~= s@.subrange(i + 1, s@.len() as int));
            let ghost antes = out@;
            out.push(c);
            assert(forall|o: Seq<char>| antes + (seq![t[0]] + o) =~= out@ + o);
            i += 1;
        }
    }
    None
}

/// The value of the string field `key` of the request: what follows
/// `"key"`, a colon, white space and a quote, up to the closing quote, with
/// backslash escapes resolved.
pub open spec fn campo_de(body: Seq<char>, key: Seq<char>) -> Option<Seq<char>> {
    match tras_clave(body, key) {
        Some(resto) => cadena_json(resto),
        None => None,
    }
}

/// Reads the string field `key` of the request.
pub fn field(body: &str, key: &str) -> (r: Option<String>)
    ensures
        vista_opcional(r) == campo_de(body@, key@),
{
    let resto = match resto_tras_clave(body, key) {
        Some(v) => v,
        None => return None,
    };
    match leer_cadena(resto.as_slice()) {
        Some(v) => Some(texto_de(v.as_slice())),
        None => None,
    }
}

/// What a character becomes inside a JSON string.
pub open spec fn escape_json(c: char) -> Seq<char> {
    if c == '"' {
        seq!['\\', '"']
    } else if c == '\\' {
        seq!['\\', '\\']
    } else if c == '\n' {
        seq!['\\', 'n']
    } else {
        seq![c]
    }
}

/// The characters of a text, escaped for a JSON string.
pub open spec fn escapado_json(s: Seq<char>) -> Seq<char>
    decreases s.len(),
{
    if s.len() == 0 {
        seq![]
    } else {
        escapado_json(s.drop_last()) + escape_json(s.last())
    }
}

/// A text as a JSON string: between quotes, with quotes, backslashes and
/// line feeds escaped.
pub open spec fn citado(s: Seq<char>) -> Seq<char> {
    seq!['"'] + escapado_json(s) + seq!['"']
}

/// Writes a text as a JSON string.
pub fn quote(s: &str) -> (r: String)
    ensures
        r@ == citado(s@),
{
    let cs = caracteres(s);
    let mut out: Vec<char> = vec!['"'];
    let mut i: usize = 0;
    while i < cs.len()
        invariant
            i <= cs@.len(),
            cs@ == s@,
            out@ == seq!['"'] + escapado_json(cs@.subrange(0, i as int)),
        decreases cs@.len() - i,
    {
        let c = cs[i];
        assert(cs@.subrange(0, i + 1).drop_last() =~= cs@.subrange(0, i as int));
        if c == '"' {
            out.push('\\');
            out.push('"');
        } else if c == '\\' {
            out.push('\\');
            out.push('\\');
        } else if c == '\n' {
            out.push('\\');
            out.push('n');
        } else {
            out.push(c);
        }
        i += 1;
        assert(out@ =~= seq!['"'] + escapado_json(cs@.subrange(0, i as int)));
    }
    out.push('"');
    assert(cs@.subrange(0, cs@.len() as int) =~= cs@);
    assert(out@ =~= citado(s@));
    texto_de(out.as_slice())
}

/// The name of the signed file: the name without its last extension, then
/// `-firmado.pdf` for a PDF and `-firmado.p7s` otherwise.
pub open spec fn nombre_firmado(name: Seq<char>, is_pdf: bool) -> Seq<char> {
    let stem = match buscar_ultimo(name, seq!['.']) {
        Some(p) => name.subrange(0, p),
        None => name,
    };
    if is_pdf {
        stem + "-firmado.pdf"@
    } else {
        stem + "-firmado.p7s"@
    }
}

/// The name under which the signed file is offered.
pub fn signed_name(name: &str, is_pdf: bool) -> (r: String)
    ensures
        r@ == nombre_firmado(name@, is_pdf),
{
    let cs = caracteres(name);
    let punto = ['.'];
    assert(punto@ == seq!['.']);
    let stem = match buscar_ultimo_chars(cs.as_slice(), punto.as_slice()) {
        Some(p) => {
            proof {
                crate::pades::lema_buscar_ultimo(cs@, seq!['.'], cs@.len() + 1int);
            }
            texto_de(tramo(cs.as_slice(), 0, p).as_slice())
        },
        None => texto_de(cs.as_slice()),
    };
    if is_pdf {
        stem.concat("-firmado.pdf")
    } else {
        stem.concat("-firmado.p7s")
    }
}

/// Whether some bytes are a PDF document: they start with `%PDF-`.
pub open spec fn es_pdf(data: Seq<u8>) -> bool {
    data.len() >= 5 && data.subrange(0, 5) == bytes_ascii("%PDF-"@)
}

/// Whether some bytes are a PDF document.
pub fn is_pdf(data: &[u8]) -> (r: bool)
    ensures
        r == es_pdf(data@),
{
    proof {
        reveal_strlit("%PDF-");
    }
    crate::texto::empieza_con_bytes(data, ascii("%PDF-"))
}

/// What the page asks to sign.
pub struct PeticionFirma {
    /// The document.
    pub documento: Vec<u8>,
    /// The PKCS#12 store.
    pub certificado: Vec<u8>,
    /// Its password (empty when not given).
    pub password: String,
    /// The document's name (`documento` when not given).
    pub name: String,
}

/// A request as values: the document, the store, the password and the name.
pub open spec fn modelo_peticion(p: PeticionFirma) -> (Seq<u8>, Seq<u8>, Seq<char>, Seq<char>) {
    (p.documento@, p.certificado@, p.password@, p.name@)
}

/// What the request says, or the error that the page is told: the document
/// and the store must come, in base64.
pub open spec fn peticion_de(body: Seq<char>) -> core::result::Result<
    (Seq<u8>, Seq<u8>, Seq<char>, Seq<char>),
    Seq<char>,
> {
    match campo_de(body, "document"@) {
        None => Err("falta el documento"@),
        Some(document) => match campo_de(body, "certificate"@) {
            None => Err("falta el certificado"@),
            Some(certificate) => {
                let password = match campo_de(body, "password"@) {
                    Some(p) => p,
                    None => seq![],
                };
                let name = match campo_de(body, "name"@) {
                    Some(n) => n,
                    None => "documento"@,
                };
                match base64_decodificado(bytes_utf8(document)) {
                    None => Err("documento no es base64"@),
                    Some(doc) => match base64_decodificado(bytes_utf8(certificate)) {
                        None => Err("certificado no es base64"@),
                        Some(cert) => Ok((doc, cert, password, name)),
                    },
                }
            },
        },
    }
}

/// The UTF-8 bytes of a text.
pub open spec fn bytes_utf8(s: Seq<char>) -> Seq<u8> {
    vstd::utf8::encode_utf8(s)
}

/// Reads the signing request that the page sends.
pub fn leer_peticion(body: &str) -> (r: core::result::Result<PeticionFirma, String>)
    ensures
        match (r, peticion_de(body@)) {
            (Ok(p), Ok(m)) => modelo_peticion(p) == m,
            (Err(e), Err(m)) => e@ == m,
            _ => false,
        },
{
    let document = match field(body, "document") {
        Some(d) => d,
        None => return Err(String::from_str("falta el documento")),
    };
    let certificate = match field(body, "certificate") {
        Some(c) => c,
        None => return Err(String::from_str("falta el certificado")),
    };
    let password = match field(body, "password") {
        Some(p) => p,
        None => String::new(),
    };
    let name = match field(body, "name") {
        Some(n) => n,
        None => String::from_str("documento"),
    };
    let documento = match decodificar_base64(document.as_str().as_bytes()) {
        Some(d) => d,
        None => return Err(String::from_str("documento no es base64")),
    };
    let certificado = match decodificar_base64(certificate.as_str().as_bytes()) {
        Some(c) => c,
        None => return Err(String::from_str("certificado no es base64")),
    };
    Ok(PeticionFirma { documento, certificado, password, name })
}

/// The reply to a signed document: the signed bytes in base64, the name of
/// the file and the signer.
pub open spec fn respuesta_firmado(signed: Seq<u8>, filename: Seq<char>, signer: Seq<char>) -> Seq<char> {
    "{\"signed\":"@ + citado(base64_codificado(signed)) + ",\"filename\":"@ + citado(filename)
        + ",\"signer\":"@ + citado(signer) + "}"@
}

/// Writes the reply to a signed document.
pub fn respuesta_json(signed: &[u8], filename: &str, signer: &str) -> (r: String)
    ensures
        r@ == respuesta_firmado(signed@, filename@, signer@),
{
    let b64 = codificar_base64(signed);
    String::from_str("{\"signed\":").concat(quote(b64.as_str()).as_str()).concat(
        ",\"filename\":",
    ).concat(quote(filename).as_str()).concat(",\"signer\":").concat(quote(signer).as_str()).concat(
        "}",
    )
}

/// The reply to a refused request.
pub open spec fn respuesta_fallida(e: Seq<char>) -> Seq<char> {
    "{\"error\":"@ + citado(e) + "}"@
}

/// Writes the reply to a refused request.
pub fn respuesta_error(e: &str) -> (r: String)
    ensures
        r@ == respuesta_fallida(e@),
{
    String::from_str("{\"error\":").concat(quote(e).as_str()).concat("}")
}

/// The signer shown in the reply: the common name of the certificate, or
/// nothing.
pub open spec fn firmante_de(cert: Seq<u8>) -> Seq<char> {
    match crate::keystore::nombre_comun_cert(cert) {
        Some(n) => n,
        None => seq![],
    }
}

/// Whether a request can be signed without overflowing the numbering of a
/// PDF's objects.
pub open spec fn firmable(body: Seq<char>) -> bool {
    match peticion_de(body) {
        Ok((documento, cert, password, _n)) => {
            &&& es_pdf(documento) ==> crate::pades::numeracion_cabe(documento)
            &&& crate::keystore::identidad_pkcs12(cert, password) matches Ok(im)
                ==> crate::firma_cms::cadena_sin_repetidos(im.cert, im.chain)
        },
        Err(_) => true,
    }
}

/// What signing a document gives, when the identity can sign: a PDF signed
/// with PAdES (refused when it lacks the anchors of the update, or when its
/// CMS signature does not fit the room in `/Contents`), and anything else
/// with its detached CAdES signature.
pub open spec fn firmado_esperado(
    documento: Seq<u8>,
    im: crate::keystore::IdentidadModelo,
) -> core::result::Result<Seq<u8>, ErrorModelo> {
    if es_pdf(documento) {
        match crate::pades::anclas_de(documento) {
            Err(m) => Err(ErrorModelo::Pdf(m)),
            Ok(a) => {
                let cms = crate::pades::cms_pades(documento, a, im);
                if 2 * cms.len() <= crate::pades::CONTENTS_CAPACITY {
                    Ok(crate::pades::firmado_con(documento, a, cms))
                } else {
                    Err(ErrorModelo::SignatureTooLarge)
                }
            },
        }
    } else {
        Ok(
            crate::firma_cms::cms_firmado(
                crate::firma_cms::resumen_sha256(documento),
                im.clave,
                im.cert,
                im.chain,
                None,
            ),
        )
    }
}

/// Whether the reply to a signed document agrees with the request: the
/// signed bytes that `firmado_esperado` gives, the file name and the signer.
pub open spec fn respuesta_de_firma(json: Seq<char>, documento: Seq<u8>, name: Seq<char>, im: crate::keystore::IdentidadModelo) -> bool {
    firmado_esperado(documento, im) matches Ok(s) && json == respuesta_firmado(
        s,
        nombre_firmado(name, es_pdf(documento)),
        firmante_de(im.cert),
    )
}

/// The outcome of signing a request: the error of a request that cannot be
/// read, an error for a store that cannot be read, and for an identity that
/// can sign, the reply of `firmado_esperado` or its error's message; a
/// reply is always the one of the request.
pub open spec fn segun_peticion(body: Seq<char>, r: core::result::Result<String, String>) -> bool {
    match peticion_de(body) {
        Err(m) => r matches Err(e) && e@ == m,
        Ok((documento, cert, password, name)) => match crate::keystore::identidad_pkcs12(cert, password) {
            Err(_) => r is Err,
            Ok(im) => {
                &&& r matches Ok(json) ==> respuesta_de_firma(json@, documento, name, im)
                &&& crate::firma_cms::identidad_firmable(im, None) ==> match firmado_esperado(documento, im) {
                    Ok(_) => r is Ok,
                    Err(e) => r matches Err(m) && m@ == crate::error::mensaje_de(e),
                }
            },
        },
    }
}

/// Signs the document of a request with the identity in its PKCS#12 store:
/// a PDF with PAdES, anything else with a detached CAdES signature. Gives
/// the JSON reply, or the message of the error.
pub fn sign(body: &str) -> (r: core::result::Result<String, String>)
    requires
        firmable(body@),
    ensures
        segun_peticion(body@, r),
{
    let peticion = match leer_peticion(body) {
        Ok(p) => p,
        Err(m) => return Err(m),
    };
    let identity = match crate::keystore::parse_pkcs12(peticion.certificado.as_slice(), peticion.password.as_str()) {
        Ok(i) => i,
        Err(e) => return Err(e.mensaje()),
    };
    let pdf = is_pdf(peticion.documento.as_slice());
    let firmado = if pdf {
        crate::pades::sign(peticion.documento.as_slice(), &identity)
    } else {
        crate::cades::sign(peticion.documento.as_slice(), &identity)
    };
    let ghost esperado = firmado_esperado(peticion.documento@, identity@);
    assert(firmado matches Ok(s) ==> esperado == Ok::<Seq<u8>, ErrorModelo>(s@));
    let signed = match firmado {
        Ok(s) => s,
        Err(e) => return Err(e.mensaje()),
    };
    let signer = match identity.common_name() {
        Some(n) => n,
        None => String::new(),
    };
    let filename = signed_name(peticion.name.as_str(), pdf);
    let json = respuesta_json(signed.as_slice(), filename.as_str(), signer.as_str());
    assert(json@ == respuesta_firmado(signed@, filename@, signer@));
    assert(signer@ == match crate::keystore::nombre_comun_cert(identity@.cert) {
        Some(n) => n,
        None => seq![],
    });
    let ghost firmante = firmante_de(identity@.cert);
    assert(json@ == respuesta_firmado(signed@, nombre_firmado(peticion.name@, pdf), firmante));
    Ok(json)
}

/// The reply to a signing request whose outcome is `r`: 200 with the JSON
/// of the signed document, or 400 with the error.
pub open spec fn respuesta_http_de(r: core::result::Result<String, String>, resp: (u16, String)) -> bool {
    match r {
        Ok(json) => resp.0 == 200 && resp.1@ == json@,
        Err(m) => resp.0 == 400 && resp.1@ == respuesta_fallida(m@),
    }
}

/// The reply to a signing request: 200 with the signed document, or 400
/// with the error.
pub fn handle_sign(body: &str) -> (r: (u16, String))
    requires
        firmable(body@),
    ensures
        exists|s: core::result::Result<String, String>| segun_peticion(body@, s)
            && #[trigger] respuesta_http_de(s, r),
{
    let s = sign(body);
    let r = match s {
        Ok(json) => (200, json),
        Err(e) => {
            let r = respuesta_error(e.as_str());
            assert(r@ == respuesta_fallida(e@));
            (400, r)
        },
    };
    assert(respuesta_http_de(s, r));
    r
}

/// The reply to any signing request: a request that could not be signed
/// without overflowing the numbering of its PDF's objects, or whose store
/// repeats a certificate, is answered 400; any other as `handle_sign` does.
pub fn responder(body: &str) -> (r: (u16, String))
    ensures
        firmable(body@) ==> exists|s: core::result::Result<String, String>| segun_peticion(body@, s)
            && #[trigger] respuesta_http_de(s, r),
        !firmable(body@) ==> r.0 == 400,
{
    match leer_peticion(body) {
        Err(_) => {},
        Ok(p) => {
            if is_pdf(p.documento.as_slice()) && !crate::pades::numeracion_suficiente(p.documento.as_slice()) {
                return (400, respuesta_error("el documento agota la numeración de objetos"));
            }
            match crate::keystore::parse_pkcs12(p.certificado.as_slice(), p.password.as_str()) {
                Err(_) => {},
                Ok(identity) => {
                    proof {
                        crate::keystore::lema_identidad(&identity);
                        assert(identity@.chain =~= crate::keystore::vista_bytes(identity.chain@));
                    }
                    if !crate::firma_cms::certificados_distintos(identity.cert.as_slice(), identity.chain.as_slice()) {
                        return (400, respuesta_error("la cadena repite un certificado"));
                    }
                },
            }
        },
    }
    handle_sign(body)
}

/// Escaping a text for JSON, seen from its first character.
pub proof fn lema_escapado_delante(s: Seq<char>)
    requires
        s.len() > 0,
    ensures
        escapado_json(s) == escape_json(s[0]) + escapado_json(s.drop_first()),
    decreases s.len(),
{
    if s.len() == 1 {
        assert(s.drop_last() =~= Seq::<char>::empty());
        assert(s.drop_first() =~= Seq::<char>::empty());
        assert(escapado_json(Seq::<char>::empty()) == Seq::<char>::empty());
        assert(escapado_json(s) == escapado_json(s.drop_last()) + escape_json(s.last()));
        assert(escapado_json(s) =~= escape_json(s[0]));
    } else {
        lema_escapado_delante(s.drop_last());
        assert(s.drop_last().drop_first() =~= s.drop_first().drop_last());
        assert(s.drop_first().last() == s.last());
        assert(escapado_json(s.drop_first()) == escapado_json(s.drop_first().drop_last())
            + escape_json(s.drop_first().last()));
        assert(escapado_json(s) =~= escape_json(s[0]) + escapado_json(s.drop_first()));
    }
}

/// An escaped text followed by a quote reads back as the text, when it has
/// no line feed.
pub proof fn lema_cadena_escapada(s: Seq<char>, t: Seq<char>)
    requires
        forall|i: int| 0 <= i < s.len() ==> #[trigger] s[i] != '\n',
    ensures
        cadena_json(escapado_json(s) + seq!['"'] + t) == Some(s),
    decreases s.len(),
{
    if s.len() == 0 {
        assert(escapado_json(s) + seq!['"'] + t =~= seq!['"'] + t);
    } else {
        let c = s[0];
        let r = s.drop_first();
        lema_escapado_delante(s);
        assert forall|i: int| 0 <= i < r.len() implies #[trigger] r[i] != '\n' by {
            assert(r[i] == s[i + 1]);
        }
        lema_cadena_escapada(r, t);
        let x = escapado_json(s) + seq!['"'] + t;
        let y = escapado_json(r) + seq!['"'] + t;
        assert(x =~= escape_json(c) + y);
        if c == '"' || c == '\\' {
            assert(x.subrange(2, x.len() as int) =~= y);
            assert(x[1] == c);
        } else {
            assert(x.drop_first() =~= y);
        }
        assert(seq![c] + r =~= s);
    }
}

/// A text written with `quote` as the value of a field reads back with
/// `field`, after any beginning without quotes (such as the `{` of an
/// object), when it has no line feed (`quote` writes a line feed as `\n`,
/// which the reader takes as `n`).
pub proof fn ley_campo_citado(antes: Seq<char>, clave: Seq<char>, s: Seq<char>, resto: Seq<char>)
    requires
        forall|i: int| 0 <= i < antes.len() ==> #[trigger] antes[i] != '"',
        forall|i: int| 0 <= i < s.len() ==> #[trigger] s[i] != '\n',
    ensures
        campo_de(
            antes + (seq!['"'] + clave + seq!['"']) + (seq![':'] + citado(s) + resto),
            clave,
        ) == Some(s),
{
    let needle = seq!['"'] + clave + seq!['"'];
    let cola = seq![':'] + citado(s) + resto;
    let body = antes + needle + cola;
    crate::protocol::lema_clave_tras_prefijo(antes, clave, cola);
    let start = (antes.len() + needle.len()) as int;
    let tail = body.subrange(start, body.len() as int);
    assert(tail =~= cola);
    assert(tail.subrange(0, 1) =~= seq![':']);
    crate::texto::lema_buscar_hasta(tail, seq![':'], 0, 0);
    let tras0 = body.subrange(start + 1, body.len() as int);
    assert(tras0 =~= citado(s) + resto);
    assert(tras0[0] == '"');
    assert(!crate::texto::es_espacio('"'));
    assert(crate::texto::sin_espacio_inicial(tras0) == tras0);
    assert(tras0.drop_first() =~= escapado_json(s) + seq!['"'] + resto);
    lema_cadena_escapada(s, resto);
}

} // verus!
