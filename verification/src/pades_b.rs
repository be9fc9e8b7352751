//! PAdES-B signing in one pass: the incremental update of the document, the
//! digest of its byte range and the embedding of the CMS signature. Errors
//! are messages for the user.

use vstd::prelude::*;
use crate::firma_cms::{resumen_sha256, sha256};
use crate::codificacion::{hex_de, hex_encode};
use crate::numeros::{
    ascii, ascii_texto, bytes_ascii, decimal, escribir_decimal, leer_digitos_usize,
    leer_usize_bytes, texto_ascii,
};
use crate::pades::{
    clave_rango, digitos_iniciales, digitos_tras, ensamblar, entero_tras, escribir_rango,
    escribir_sobre, escrito_en, first_page_ref, inicio_hex, lema_buscar_ultimo,
    lema_clave_tras_cabecera, lema_largo_hex, lema_largo_rango, marcador_rango, mayor_objeto_de,
    obj_ref_after as referencia_pdf, parse_uint_after, preparado, primera_pagina_de,
    rango_de, referencia_tras, sin_espacios_iniciales, texto_rango, Anclas, CONTENTS_CAPACITY,
    ceros, max_obj_number as mayor_objeto, con_salto, texto_firma, actualizacion,
};
use crate::texto::{
    buscar_bytes, buscar_desde, buscar_ultimo, buscar_ultimo_bytes, como_int, lema_buscar_desde,
    tramo_bytes,
};

verus! {

/// The byte range that the signature covers: `[a, a + b)` and `[c, c + d)`.
pub struct ByteRange {
    pub a: usize,
    pub b: usize,
    pub c: usize,
    pub d: usize,
}

/// The room for the hexadecimal signature inside `/Contents`.
pub struct ContentsSpan {
    pub hex_start: usize,
    pub hex_len: usize,
}

/// The four numbers of a byte range.
pub open spec fn rango_b(br: ByteRange) -> Seq<int> {
    seq![br.a as int, br.b as int, br.c as int, br.d as int]
}

/// The first position at or after `from` where `needle` occurs in `hay`.
pub fn find_from(hay: &[u8], needle: &[u8], from: usize) -> (r: Option<usize>)
    requires
        from <= hay@.len(),
        needle@.len() > 0,
    ensures
        como_int(r) == buscar_desde(hay@, needle@, from as int),
{
    buscar_bytes(hay, needle, from)
}

/// The last position where `needle` occurs in `hay`.
pub fn rfind(hay: &[u8], needle: &[u8]) -> (r: Option<usize>)
    requires
        needle@.len() > 0,
    ensures
        como_int(r) == buscar_ultimo(hay@, needle@),
{
    buscar_ultimo_bytes(hay, needle)
}

/// The offset written after the last `startxref`, as a machine-sized
/// number.
pub open spec fn startxref_b(pdf: Seq<u8>) -> core::result::Result<usize, Seq<char>> {
    match buscar_ultimo(pdf, bytes_ascii("startxref"@)) {
        None => Err("PDF sin startxref"@),
        Some(pos) => match leer_usize_bytes(
            digitos_iniciales(sin_espacios_iniciales(pdf.subrange(pos + 9, pdf.len() as int))),
        ) {
            Some(n) => Ok(n),
            None => Err("startxref no numérico"@),
        },
    }
}

/// The offset of the previous cross-reference section.
pub fn find_startxref(pdf: &[u8]) -> (r: core::result::Result<usize, String>)
    ensures
        match (r, startxref_b(pdf@)) {
            (Ok(a), Ok(b)) => a == b,
            (Err(m), Err(n)) => m@ == n,
            _ => false,
        },
{
    proof {
        reveal_strlit("startxref");
        lema_buscar_ultimo(pdf@, bytes_ascii("startxref"@), pdf@.len() + 1int);
    }
    let needle = ascii("startxref");
    assert(needle@.len() == 9);
    match rfind(pdf, needle) {
        None => Err(String::from_str("PDF sin startxref")),
        Some(pos) => {
            assert(pos + 9 <= pdf.len());
            let tail = tramo_bytes(pdf, pos + 9, pdf.len());
            let digitos = digitos_tras(tail.as_slice());
            match leer_digitos_usize(digitos.as_slice()) {
                Some(n) => Ok(n),
                None => Err(String::from_str("startxref no numérico")),
            }
        },
    }
}

/// The object number written after the first `key`.
pub open spec fn referencia_b(hay: Seq<u8>, key: Seq<u8>) -> core::result::Result<u32, Seq<char>> {
    match buscar_desde(hay, key, 0) {
        None => Err("clave no encontrada"@),
        Some(pos) => match entero_tras(hay.subrange(pos + key.len(), hay.len() as int)) {
            Some(n) => Ok(n),
            None => Err("referencia de objeto no numérica"@),
        },
    }
}

/// Whether an outcome agrees with its model.
pub open spec fn segun_b<T>(r: core::result::Result<T, String>, m: core::result::Result<T, Seq<char>>) -> bool {
    match (r, m) {
        (Ok(a), Ok(b)) => a == b,
        (Err(e), Err(n)) => e@ == n,
        _ => false,
    }
}

/// The object number written after the first occurrence of `key`.
pub fn obj_ref_after(hay: &[u8], key: &[u8]) -> (r: core::result::Result<u32, String>)
    requires
        key@.len() > 0,
    ensures
        segun_b(r, referencia_b(hay@, key@)),
{
    proof {
        lema_buscar_desde(hay@, key@, 0);
    }
    match find_from(hay, key, 0) {
        None => Err(String::from_str("clave no encontrada")),
        Some(pos) => {
            assert(pos + key.len() <= hay.len());
            let tail = tramo_bytes(hay, pos + key.len(), hay.len());
            match parse_uint_after(tail.as_slice()) {
                Some(n) => Ok(n),
                None => Err(String::from_str("referencia de objeto no numérica")),
            }
        },
    }
}

/// The object number of the catalog, written after `/Root`.
pub open spec fn raiz_b(pdf: Seq<u8>) -> core::result::Result<u32, Seq<char>> {
    match referencia_b(pdf, bytes_ascii("/Root"@)) {
        Ok(n) => Ok(n),
        Err(_) => Err("trailer sin /Root"@),
    }
}

/// The object number of the catalog.
pub fn find_root_ref(pdf: &[u8]) -> (r: core::result::Result<u32, String>)
    ensures
        segun_b(r, raiz_b(pdf@)),
{
    proof {
        reveal_strlit("/Root");
    }
    match obj_ref_after(pdf, ascii("/Root")) {
        Ok(n) => Ok(n),
        Err(_) => Err(String::from_str("trailer sin /Root")),
    }
}

/// The object number of the page tree, written after `/Pages`.
pub open spec fn paginas_b(pdf: Seq<u8>) -> core::result::Result<u32, Seq<char>> {
    match referencia_b(pdf, bytes_ascii("/Pages"@)) {
        Ok(n) => Ok(n),
        Err(_) => Err("catálogo sin /Pages"@),
    }
}

/// The object number of the page tree.
pub fn find_pages_ref(pdf: &[u8]) -> (r: core::result::Result<u32, String>)
    ensures
        segun_b(r, paginas_b(pdf@)),
{
    proof {
        reveal_strlit("/Pages");
    }
    match obj_ref_after(pdf, ascii("/Pages")) {
        Ok(n) => Ok(n),
        Err(_) => Err(String::from_str("catálogo sin /Pages")),
    }
}

/// The object number of the first page, the first one in `/Kids`.
pub fn find_first_page_ref(pdf: &[u8]) -> (r: core::result::Result<u32, String>)
    ensures
        segun_b(r, primera_pagina_de(pdf@)),
{
    match first_page_ref(pdf) {
        Ok(n) => Ok(n),
        Err(e) => Err(
            match e {
                crate::error::Error::Pdf(m) => m,
                _ => String::new(),
            },
        ),
    }
}

/// The largest object number of the document, if it has any object.
pub open spec fn mayor_objeto_b(pdf: Seq<u8>) -> core::result::Result<u32, Seq<char>> {
    match mayor_objeto_de(pdf) {
        Ok(n) => Ok(n),
        Err(_) => Err("no se encontró ningún objeto en el PDF"@),
    }
}

/// The largest object number of the document.
pub fn max_obj_number(pdf: &[u8]) -> (r: core::result::Result<u32, String>)
    ensures
        segun_b(r, mayor_objeto_b(pdf@)),
{
    match mayor_objeto(pdf) {
        Ok(n) => Ok(n),
        Err(_) => Err(String::from_str("no se encontró ningún objeto en el PDF")),
    }
}

/// The numbers that the update reads from the document, in the order in
/// which they are looked for: the previous cross-reference section, the
/// catalog (which must be there, though the update writes a new one), the
/// largest object number, the first page and the page tree.
pub open spec fn anclas_b(pdf: Seq<u8>) -> core::result::Result<Anclas, Seq<char>> {
    match startxref_b(pdf) {
        Err(m) => Err(m),
        Ok(prev) => match raiz_b(pdf) {
            Err(m) => Err(m),
            Ok(_) => match mayor_objeto_b(pdf) {
                Err(m) => Err(m),
                Ok(max) => match primera_pagina_de(pdf) {
                    Err(m) => Err(m),
                    Ok(page) => match paginas_b(pdf) {
                        Err(m) => Err(m),
                        Ok(pages) => Ok(
                            Anclas {
                                prev: prev as nat,
                                pages: pages as nat,
                                page: page as nat,
                                max: max as nat,
                            },
                        ),
                    },
                },
            },
        },
    }
}

/// Whether the numbers of the four new objects and the `/Size` after them
/// fit in a `u32`.
pub open spec fn numeracion_cabe_b(pdf: Seq<u8>) -> bool {
    anclas_b(pdf) matches Ok(a) ==> a.max + 5 <= u32::MAX
}

/// Whether an outcome of the preparation agrees with the anchors of the
/// document: the update, its byte range and the room for the signature, or
/// the message of the first anchor that is missing.
pub open spec fn segun_anclas_b(
    r: core::result::Result<(Vec<u8>, ByteRange, ContentsSpan), String>,
    pdf: Seq<u8>,
) -> bool {
    match (r, anclas_b(pdf)) {
        (Ok((out, br, span)), Ok(a)) => {
            &&& out@ == preparado(pdf, a)
            &&& rango_b(br) == rango_de(pdf, a)
            &&& span.hex_start == inicio_hex(pdf, a)
            &&& span.hex_len == CONTENTS_CAPACITY
            &&& br.a == 0
            &&& br.b + 1 == span.hex_start
            &&& br.c == span.hex_start + span.hex_len + 1
            &&& br.c + br.d == out@.len()
        },
        (Err(m), Err(n)) => m@ == n,
        _ => false,
    }
}

/// Appends to the document an incremental update with a signature whose
/// `/Contents` is reserved, a signature field on the first page, a form, a
/// new catalog, the cross-reference section and the trailer, and writes the
/// byte range.
pub fn prepare_incremental(pdf: &[u8]) -> (r: core::result::Result<
    (Vec<u8>, ByteRange, ContentsSpan),
    String,
>)
    requires
        numeracion_cabe_b(pdf@),
    ensures
        segun_anclas_b(r, pdf@),
{
    let prev_startxref = match find_startxref(pdf) {
        Ok(v) => v,
        Err(e) => return Err(e),
    };
    match find_root_ref(pdf) {
        Ok(_) => {},
        Err(e) => return Err(e),
    }
    let max = match max_obj_number(pdf) {
        Ok(v) => v,
        Err(e) => return Err(e),
    };
    let page_ref = match find_first_page_ref(pdf) {
        Ok(v) => v,
        Err(e) => return Err(e),
    };
    let pages_ref = match find_pages_ref(pdf) {
        Ok(v) => v,
        Err(e) => return Err(e),
    };
    let ghost a = Anclas {
        prev: prev_startxref as nat,
        pages: pages_ref as nat,
        page: page_ref as nat,
        max: max as nat,
    };
    assert(anclas_b(pdf@) == Ok::<Anclas, Seq<char>>(a));
    let ensamblado = ensamblar(pdf, prev_startxref as u64, pages_ref, page_ref, max, Ghost(a));
    let sig_obj_offset = ensamblado.1;
    let hex_start = ensamblado.2;
    let mut out = ensamblado.0;
    let hex_len = CONTENTS_CAPACITY;
    assert(hex_start + hex_len + 12 <= out@.len());
    let total = out.len();
    let after_contents = hex_start + hex_len + 1;
    let byte_range = ByteRange { a: 0, b: hex_start - 1, c: after_contents, d: total - after_contents };
    proof {
        reveal_strlit("/ByteRange [");
        reveal_strlit("/ByteRange [0000000000 0000000000 0000000000 0000000000] /Contents <");
        assert(clave_rango().len() == 12);
        assert(marcador_rango().len() == 68);
        lema_clave_tras_cabecera(pdf@, a);
        lema_largo_rango(rango_b(byte_range));
    }
    let ghost antes = out@;
    match write_byte_range(&mut out, sig_obj_offset, &byte_range) {
        Ok(()) => {},
        Err(e) => return Err(e),
    }
    assert(out@.len() == antes.len());
    assert(rango_b(byte_range) == rango_de(pdf@, a));
    Ok((out, byte_range, ContentsSpan { hex_start, hex_len }))
}

/// Writes the byte range over the placeholder that follows the first
/// `/ByteRange [` at or after `search_from`.
pub fn write_byte_range(out: &mut Vec<u8>, search_from: usize, br: &ByteRange) -> (r: core::result::Result<(), String>)
    requires
        search_from <= old(out)@.len(),
        buscar_desde(old(out)@, clave_rango(), search_from as int) matches Some(pos) ==> pos
            + clave_rango().len() + texto_rango(rango_b(*br)).len() <= old(out)@.len(),
    ensures
        match buscar_desde(old(out)@, clave_rango(), search_from as int) {
            Some(pos) => r is Ok && final(out)@ == escrito_en(
                old(out)@,
                pos + clave_rango().len(),
                texto_rango(rango_b(*br)),
            ),
            None => (r matches Err(m) && m@ == "no se encontró /ByteRange para reescribir"@)
                && final(out)@ == old(out)@,
        },
{
    proof {
        reveal_strlit("/ByteRange [");
        lema_buscar_desde(out@, clave_rango(), search_from as int);
    }
    let needle = ascii("/ByteRange [");
    assert(needle@ == clave_rango());
    let pos = match find_from(out.as_slice(), needle, search_from) {
        None => return Err(String::from_str("no se encontró /ByteRange para reescribir")),
        Some(p) => p,
    };
    let n = out.len();
    assert(pos + needle@.len() <= n);
    let start = pos + needle.len();
    let value = escribir_rango([br.a, br.b, br.c, br.d]);
    assert(value@ == texto_rango(rango_b(*br)));
    escribir_sobre(out, start, value.as_slice());
    Ok(())
}

/// The SHA-256 digest of the bytes that the byte range covers.
pub fn digest_byte_range(prepared: &[u8], br: &ByteRange) -> (r: Vec<u8>)
    requires
        br.a + br.b <= prepared@.len(),
        br.c + br.d <= prepared@.len(),
    ensures
        r@ == resumen_sha256(
            prepared@.subrange(br.a as int, br.a + br.b) + prepared@.subrange(
                br.c as int,
                br.c + br.d,
            ),
        ),
        r@.len() == 32,
{
    let n = prepared.len();
    let mut cubiertos = tramo_bytes(prepared, br.a, br.a + br.b);
    let mut segundo = tramo_bytes(prepared, br.c, br.c + br.d);
    cubiertos.append(&mut segundo);
    sha256(cubiertos.as_slice())
}

/// The message when the signature does not fit in `/Contents`.
pub open spec fn mensaje_no_cabe(hex: nat, reservados: nat) -> Seq<char> {
    "el CMS no cabe en /Contents: "@ + ascii_texto(decimal(hex)) + " hex > "@ + ascii_texto(
        decimal(reservados),
    ) + " reservados (subir CONTENTS_CAPACITY)"@
}

/// Writes the hexadecimal signature at the start of the room in
/// `/Contents` and fills the rest of the room with `0`.
pub fn embed_contents(prepared: Vec<u8>, span: ContentsSpan, cms: &[u8]) -> (r: core::result::Result<Vec<u8>, String>)
    requires
        span.hex_start + span.hex_len <= prepared@.len(),
    ensures
        2 * cms@.len() > span.hex_len ==> (r matches Err(m) && m@ == mensaje_no_cabe(
            2 * cms@.len(),
            span.hex_len as nat,
        )),
        2 * cms@.len() <= span.hex_len ==> (r matches Ok(v) && v@ == escrito_en(
            prepared@,
            span.hex_start as int,
            hex_de(cms@) + ceros((span.hex_len - 2 * cms@.len()) as nat),
        )),
{
    let hex = hex_encode(cms);
    proof {
        lema_largo_hex(cms@);
    }
    if hex.len() > span.hex_len {
        let m = String::from_str("el CMS no cabe en /Contents: ").concat(
            texto_ascii(escribir_decimal(hex.len() as u64).as_slice()).as_str(),
        ).concat(" hex > ").concat(
            texto_ascii(escribir_decimal(span.hex_len as u64).as_slice()).as_str(),
        ).concat(" reservados (subir CONTENTS_CAPACITY)");
        return Err(m);
    }
    let mut relleno = hex;
    let n = relleno.len();
    while relleno.len() < span.hex_len
        invariant
            n <= relleno@.len() <= span.hex_len,
            relleno@ == hex_de(cms@) + ceros((relleno@.len() - n) as nat),
            n == 2 * cms@.len(),
        decreases span.hex_len - relleno@.len(),
    {
        relleno.push(0x30);
        assert(relleno@ =~= hex_de(cms@) + ceros((relleno@.len() - n) as nat));
    }
    let mut bytes = prepared;
    escribir_sobre(&mut bytes, span.hex_start, relleno.as_slice());
    Ok(bytes)
}

/// The signer of a PAdES-B signature: an RSA key and its certificate.
pub struct Signer {
    pub key: crate::keystore::ClaveRsa,
    pub cert: Vec<u8>,
}

impl Signer {
    /// The key can sign and the certificate can be read.
    pub open spec fn wf(&self) -> bool {
        &&& crate::keystore::clave_valida(self.key@)
        &&& crate::keystore::certificado_valido(self.cert@)
    }
}

/// The signer that a PKCS#12 store holds, as the `p12` crate reads it: its
/// first private key and its first certificate; or the message of what is
/// missing.
pub open spec fn firmante_pkcs12(raw: Seq<u8>, password: Seq<char>) -> core::result::Result<
    ((Seq<u8>, bool), Seq<u8>),
    Seq<char>,
> {
    if !crate::pkcs12::almacen_legible(raw) {
        Err("PKCS#12 inválido"@)
    } else {
    match crate::keystore::claves_pkcs12(raw, password) {
        None => Err("PKCS#12 inválido"@),
        Some(ks) => if ks.len() == 0 {
            Err("el PKCS#12 no contiene clave privada"@)
        } else {
            match crate::keystore::clave_de(ks[0]) {
                Err(_) => Err("clave RSA no reconocida (PKCS#8 ni PKCS#1)"@),
                Ok(clave) => match crate::keystore::certificados_pkcs12(raw, password) {
                    None => Err("extrayendo certificados"@),
                    Some(cs) => if cs.len() == 0 {
                        Err("el PKCS#12 no contiene certificado"@)
                    } else if !crate::keystore::certificado_valido(cs[0]) {
                        Err("certificado inválido"@)
                    } else {
                        Ok((clave, cs[0]))
                    },
                },
            }
        },
    }
    }
}

impl Signer {
    /// Reads the signer from the bytes of a PKCS#12 store.
    pub fn from_pkcs12_bytes(raw: &[u8], password: &str) -> (r: core::result::Result<Signer, String>)
        ensures
            match (r, firmante_pkcs12(raw@, password@)) {
                (Ok(s), Ok((k, c))) => s.key@ == k && s.cert@ == c && s.wf(),
                (Err(m), Err(n)) => n != "certificado inválido"@ ==> m@ == n,
                _ => false,
            },
    {
        if !crate::pkcs12::es_almacen_legible(raw) {
            return Err(String::from_str("PKCS#12 inválido"));
        }
        let claves = match crate::keystore::bolsas_de_claves(raw, password) {
            None => return Err(String::from_str("PKCS#12 inválido")),
            Some(ks) => ks,
        };
        if claves.len() == 0 {
            return Err(String::from_str("el PKCS#12 no contiene clave privada"));
        }
        assert(crate::keystore::vista_bytes(claves@)[0] == claves@[0]@);
        let key = match crate::keystore::parse_private_key(claves[0].as_slice()) {
            Ok(k) => k,
            Err(_) => return Err(String::from_str("clave RSA no reconocida (PKCS#8 ni PKCS#1)")),
        };
        let certs = match crate::keystore::bolsas_de_certificados(raw, password) {
            None => return Err(String::from_str("extrayendo certificados")),
            Some(cs) => cs,
        };
        if certs.len() == 0 {
            return Err(String::from_str("el PKCS#12 no contiene certificado"));
        }
        assert(crate::keystore::vista_bytes(certs@)[0] == certs@[0]@);
        match crate::keystore::leer_certificado(certs[0].as_slice()) {
            Ok(()) => {},
            Err(m) => return Err(String::from_str("certificado inválido: ").concat(m.as_str())),
        }
        Ok(Signer { key, cert: vstd::slice::slice_to_vec(certs[0].as_slice()) })
    }
}

/// The signer as an identity without chain.
pub open spec fn identidad_de_firmante(key: (Seq<u8>, bool), cert: Seq<u8>) -> crate::keystore::IdentidadModelo {
    crate::keystore::IdentidadModelo { clave: key, cert, chain: Seq::empty() }
}

/// A detached CMS signature of a message digest by the signer.
pub fn build_cms_detached(message_digest: &[u8], signer: &Signer) -> (r: core::result::Result<Vec<u8>, String>)
    requires
        signer.wf(),
        crate::firma_cms::cadena_sin_repetidos(signer.cert@, Seq::empty()),
    ensures
        crate::firma_cms::firma_realizable(
            message_digest@,
            identidad_de_firmante(signer.key@, signer.cert@),
            None,
        ) ==> r is Ok,
        r matches Ok(v) ==> v@ == crate::firma_cms::cms_firmado(
            message_digest@,
            signer.key@,
            signer.cert@,
            Seq::empty(),
            None,
        ),
        r matches Ok(v) ==> crate::validate::recorte_der(v@) == crate::validate::Recorte::Prefijo(
            v@.len() as int,
        ),
        r matches Err(m) ==> exists|x: Seq<char>| m@ == #[trigger] crate::error::mensaje_de(
            crate::error::ErrorModelo::Crypto(x),
        ),
{
    let identity = crate::keystore::Identity {
        key: crate::keystore::copia_clave(&signer.key),
        cert: vstd::slice::slice_to_vec(signer.cert.as_slice()),
        chain: Vec::new(),
    };
    proof {
        crate::keystore::lema_identidad(&identity);
        assert(crate::keystore::todos_validos(identity@.chain));
        assert(identity@.chain =~= Seq::<Seq<u8>>::empty());
        assert(identity@ == identidad_de_firmante(signer.key@, signer.cert@));
    }
    match crate::firma_cms::signed_data_detached(message_digest, &identity) {
        Ok(v) => Ok(v),
        Err(e) => {
            let m = e.mensaje();
            assert(m@ == crate::error::mensaje_de(crate::error::ErrorModelo::Crypto(e@->Crypto_0)));
            Err(m)
        },
    }
}

/// The CMS signature that `sign_b` embeds in a document with anchors `a`:
/// the detached signature by the signer of the SHA-256 digest of the bytes
/// that the byte range covers.
pub open spec fn cms_b(pdf: Seq<u8>, a: Anclas, key: (Seq<u8>, bool), cert: Seq<u8>) -> Seq<u8> {
    crate::firma_cms::cms_firmado(
        resumen_sha256(crate::relectura::cubierto(pdf, a)),
        key,
        cert,
        Seq::empty(),
        None,
    )
}

/// Signs a PDF document (PAdES-B): prepares the incremental update, signs
/// the digest of its byte range and embeds the signature.
pub fn sign_b(pdf: &[u8], signer: &Signer) -> (r: core::result::Result<Vec<u8>, String>)
    requires
        numeracion_cabe_b(pdf@),
        signer.wf(),
        crate::firma_cms::cadena_sin_repetidos(signer.cert@, Seq::empty()),
    ensures
        match anclas_b(pdf@) {
            Err(m) => r matches Err(e) && e@ == m,
            Ok(a) => {
                let cms = cms_b(pdf@, a, signer.key@, signer.cert@);
                let firmable = crate::firma_cms::identidad_firmable(
                    identidad_de_firmante(signer.key@, signer.cert@),
                    None,
                );
                &&& r matches Ok(v) ==> 2 * cms.len() <= CONTENTS_CAPACITY && v@ == escrito_en(
                    preparado(pdf@, a),
                    inicio_hex(pdf@, a) as int,
                    hex_de(cms) + ceros((CONTENTS_CAPACITY - 2 * cms.len()) as nat),
                )
                &&& r matches Err(m) ==> (2 * cms.len() > CONTENTS_CAPACITY && m@ == mensaje_no_cabe(
                    2 * cms.len(),
                    CONTENTS_CAPACITY as nat,
                )) || (!firmable && exists|x: Seq<char>| m@ == #[trigger] crate::error::mensaje_de(
                    crate::error::ErrorModelo::Crypto(x),
                ))
                &&& firmable && 2 * cms.len() <= CONTENTS_CAPACITY ==> r is Ok
            },
        },
{
    let (prepared, byte_range, contents_span) = match prepare_incremental(pdf) {
        Ok(x) => x,
        Err(e) => return Err(e),
    };
    let ghost a = anclas_b(pdf@)->Ok_0;
    let digest = digest_byte_range(prepared.as_slice(), &byte_range);
    assert(prepared@.subrange(byte_range.a as int, byte_range.a + byte_range.b) + prepared@.subrange(
        byte_range.c as int,
        byte_range.c + byte_range.d,
    ) =~= crate::relectura::cubierto(pdf@, a));
    let cms = match build_cms_detached(digest.as_slice(), signer) {
        Ok(c) => c,
        Err(e) => return Err(e),
    };
    assert(cms@ == cms_b(pdf@, a, signer.key@, signer.cert@));
    let r = embed_contents(prepared, contents_span, cms.as_slice());
    match r {
        Ok(v) => {
            assert(v@ == escrito_en(
                preparado(pdf@, a),
                inicio_hex(pdf@, a) as int,
                hex_de(cms@) + ceros((CONTENTS_CAPACITY - 2 * cms@.len()) as nat),
            ));
            Ok(v)
        },
        Err(e) => Err(e),
    }
}

/// Whether the numbers of the new objects fit, as `numeracion_cabe_b`
/// says.
pub fn numeracion_suficiente_b(pdf: &[u8]) -> (r: bool)
    ensures
        r == numeracion_cabe_b(pdf@),
{
    let a = find_startxref(pdf);
    let b = find_root_ref(pdf);
    let c = max_obj_number(pdf);
    let d = find_first_page_ref(pdf);
    let e = find_pages_ref(pdf);
    match (a, b, c, d, e) {
        (Ok(_), Ok(_), Ok(m), Ok(_), Ok(_)) => m <= u32::MAX - 5,
        _ => true,
    }
}

} // verus!
