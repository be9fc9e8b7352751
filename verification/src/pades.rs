//! PAdES: signatures embedded in a PDF through an incremental update that
//! adds a signature dictionary whose `/Contents` holds a detached CMS.

use vstd::prelude::*;
use crate::codificacion::{bytes_de_hex, hex_de, hex_decode, hex_encode, texto_utf8};
use crate::validate::{der_desborda, recorte_der, trim_der, Recorte};
use vstd::utf8::{decode_utf8, valid_utf8};
use crate::error::{Error, ErrorModelo, error_pdf_de};
use crate::numeros::{
    leer_usize, parse_usize, lema_largo_decimal_u64, lema_leer_decimal, ascii, bytes_ascii, decimal, decimal_relleno, es_digito, escribir_decimal,
    escribir_decimal_relleno, leer_digitos_u32, leer_u32,
};
use crate::protocol::{texto_utf8_con_perdida, utf8_con_perdida};
use crate::texto::{
    caracteres, palabras, partir_palabras, lema_buscar_en_medio, buscar_bytes, buscar_desde, buscar_ultimo, buscar_ultimo_bytes, como_int, lema_buscar_desde,
    tramo_bytes,
};

verus! {

/// What `format!("{:?}", s)` writes for a text: the text between double
/// quotes, with the escapes of `str::escape_debug`.
pub uninterp spec fn depuracion(s: Seq<char>) -> Seq<char>;

/// The `Debug` form of a text.
///
/// Calls `format!("{:?}", s)`; the escaping is left to the name
/// `depuracion`.
#[verifier::external_body]
pub(crate) fn texto_depurado(s: &str) -> (r: String)
    ensures
        r@ == depuracion(s@),
{
    format!("{:?}", s)
}

/// White space in the sense of `u8::is_ascii_whitespace`.
pub open spec fn es_espacio_ascii(b: u8) -> bool {
    b == 0x20 || b == 0x09 || b == 0x0a || b == 0x0c || b == 0x0d
}

/// `s` without its leading ASCII white space.
pub open spec fn sin_espacios_iniciales(s: Seq<u8>) -> Seq<u8>
    decreases s.len(),
{
    if s.len() > 0 && es_espacio_ascii(s[0]) {
        sin_espacios_iniciales(s.drop_first())
    } else {
        s
    }
}

/// The ASCII digits with which `s` starts.
pub open spec fn digitos_iniciales(s: Seq<u8>) -> Seq<u8>
    decreases s.len(),
{
    if s.len() > 0 && es_digito(s[0]) {
        seq![s[0]] + digitos_iniciales(s.drop_first())
    } else {
        seq![]
    }
}

/// The unsigned number written after optional white space at the start of
/// `tail`.
pub open spec fn entero_tras(tail: Seq<u8>) -> Option<u32> {
    leer_u32(digitos_iniciales(sin_espacios_iniciales(tail)))
}

/// The ASCII digits written after optional white space at the start of
/// `tail`.
pub fn digitos_tras(tail: &[u8]) -> (r: Vec<u8>)
    ensures
        r@ == digitos_iniciales(sin_espacios_iniciales(tail@)),
        forall|i: int| 0 <= i < r@.len() ==> es_digito(#[trigger] r@[i]),
{
    let mut n: usize = 0;
    assert(tail@.subrange(0, tail@.len() as int) =~= tail@);
    while n < tail.len() && (tail[n] == 0x20 || tail[n] == 0x09 || tail[n] == 0x0a || tail[n]
        == 0x0c || tail[n] == 0x0d)
        invariant
            n <= tail@.len(),
            sin_espacios_iniciales(tail@) == sin_espacios_iniciales(
                tail@.subrange(n as int, tail@.len() as int),
            ),
        decreases tail@.len() - n,
    {
        assert(tail@.subrange(n as int, tail@.len() as int).drop_first() =~= tail@.subrange(
            n + 1,
            tail@.len() as int,
        ));
        n += 1;
    }
    let ghost resto = tail@.subrange(n as int, tail@.len() as int);
    assert(sin_espacios_iniciales(resto) == resto);
    let mut m = n;
    assert(tail@.subrange(n as int, m as int) =~= Seq::<u8>::empty());
    while m < tail.len() && 0x30 <= tail[m] && tail[m] <= 0x39
        invariant
            n <= m <= tail@.len(),
            resto == tail@.subrange(n as int, tail@.len() as int),
            digitos_iniciales(resto) == tail@.subrange(n as int, m as int) + digitos_iniciales(
                tail@.subrange(m as int, tail@.len() as int),
            ),
            forall|i: int| n <= i < m ==> es_digito(#[trigger] tail@[i]),
        decreases tail@.len() - m,
    {
        let ghost r = tail@.subrange(m as int, tail@.len() as int);
        assert(r.drop_first() =~= tail@.subrange(m + 1, tail@.len() as int));
        assert(tail@.subrange(n as int, m + 1) =~= tail@.subrange(n as int, m as int) + seq![
            tail@[m as int],
        ]);
        m += 1;
    }
    assert(digitos_iniciales(tail@.subrange(m as int, tail@.len() as int)) =~= Seq::<
        u8,
    >::empty());
    assert(tail@.subrange(n as int, m as int) + Seq::<u8>::empty() =~= tail@.subrange(
        n as int,
        m as int,
    ));
    tramo_bytes(tail, n, m)
}

/// Reads the unsigned number written after optional white space at the
/// start of `tail`.
pub fn parse_uint_after(tail: &[u8]) -> (r: Option<u32>)
    ensures
        r == entero_tras(tail@),
{
    let digitos = digitos_tras(tail);
    leer_digitos_u32(digitos.as_slice())
}

/// Whether an outcome agrees with its model, where a model's error is the
/// message of a `Pdf` error.
pub open spec fn segun_modelo_u32(r: core::result::Result<u32, Error>, m: core::result::Result<u32, Seq<char>>) -> bool {
    match (r, m) {
        (Ok(a), Ok(b)) => a == b,
        (Err(e), Err(msg)) => e@ == ErrorModelo::Pdf(msg),
        _ => false,
    }
}

/// The last `startxref` keyword and the offset written after it.
pub open spec fn startxref_de(pdf: Seq<u8>) -> core::result::Result<u32, Seq<char>> {
    match buscar_ultimo(pdf, bytes_ascii("startxref"@)) {
        None => Err("sin startxref"@),
        Some(pos) => match entero_tras(pdf.subrange(pos + 9, pdf.len() as int)) {
            Some(n) => Ok(n),
            None => Err("startxref no numérico"@),
        },
    }
}

/// The offset of the previous cross-reference section, written after the
/// last `startxref`.
pub fn find_startxref(pdf: &[u8]) -> (r: core::result::Result<u32, Error>)
    ensures
        segun_modelo_u32(r, startxref_de(pdf@)),
{
    proof {
        reveal_strlit("startxref");
        lema_buscar_ultimo(pdf@, bytes_ascii("startxref"@), pdf@.len() + 1int);
    }
    let needle = ascii("startxref");
    assert(needle@.len() == 9);
    match buscar_ultimo_bytes(pdf, needle) {
        None => Err(error_pdf_de("sin startxref")),
        Some(pos) => {
            assert(pos + 9 <= pdf.len());
            let tail = tramo_bytes(pdf, pos + 9, pdf.len());
            match parse_uint_after(tail.as_slice()) {
                Some(n) => Ok(n),
                None => Err(error_pdf_de("startxref no numérico")),
            }
        },
    }
}

/// What a backward search finds lies within the sequence.
pub proof fn lema_buscar_ultimo<T>(hay: Seq<T>, needle: Seq<T>, end: int)
    ensures
        crate::texto::buscar_antes_de(hay, needle, end) matches Some(p) ==> 0 <= p < end && p
            + needle.len() <= hay.len() && hay.subrange(p, p + needle.len()) == needle,
    decreases end,
{
    if end > 0 {
        lema_buscar_ultimo(hay, needle, end - 1);
    }
}

/// The object number written after the first `key`.
pub open spec fn referencia_tras(hay: Seq<u8>, key: Seq<u8>) -> core::result::Result<u32, Seq<char>> {
    match buscar_desde(hay, key, 0) {
        None => Err("clave "@ + depuracion(utf8_con_perdida(key)) + " no encontrada"@),
        Some(pos) => match entero_tras(hay.subrange(pos + key.len(), hay.len() as int)) {
            Some(n) => Ok(n),
            None => Err("referencia no numérica"@),
        },
    }
}

/// The object number written after the first occurrence of `key`.
pub fn obj_ref_after(hay: &[u8], key: &[u8]) -> (r: core::result::Result<u32, Error>)
    requires
        key@.len() > 0,
    ensures
        segun_modelo_u32(r, referencia_tras(hay@, key@)),
{
    proof {
        lema_buscar_desde(hay@, key@, 0);
    }
    match buscar_bytes(hay, key, 0) {
        None => {
            let mut m = String::from_str("clave ");
            let nombre = texto_utf8_con_perdida(key);
            m.append(texto_depurado(nombre.as_str()).as_str());
            m.append(" no encontrada");
            Err(Error::Pdf(m))
        },
        Some(pos) => {
            assert(pos + key.len() <= hay.len());
            let tail = tramo_bytes(hay, pos + key.len(), hay.len());
            match parse_uint_after(tail.as_slice()) {
                Some(n) => Ok(n),
                None => Err(error_pdf_de("referencia no numérica")),
            }
        },
    }
}

/// The first object number in the `/Kids` array: the first page.
pub open spec fn primera_pagina_de(pdf: Seq<u8>) -> core::result::Result<u32, Seq<char>> {
    match buscar_desde(pdf, bytes_ascii("/Kids"@), 0) {
        None => Err("Pages sin /Kids"@),
        Some(kids) => match buscar_desde(pdf.subrange(kids, pdf.len() as int), seq![0x5bu8], 0) {
            None => Err("/Kids sin ["@),
            Some(open) => match entero_tras(pdf.subrange(kids + open + 1, pdf.len() as int)) {
                Some(n) => Ok(n),
                None => Err("/Kids vacío"@),
            },
        },
    }
}

/// The object number of the first page of the document.
pub fn first_page_ref(pdf: &[u8]) -> (r: core::result::Result<u32, Error>)
    ensures
        segun_modelo_u32(r, primera_pagina_de(pdf@)),
{
    proof {
        reveal_strlit("/Kids");
        lema_buscar_desde(pdf@, bytes_ascii("/Kids"@), 0);
    }
    let needle = ascii("/Kids");
    let kids = match buscar_bytes(pdf, needle, 0) {
        None => return Err(error_pdf_de("Pages sin /Kids")),
        Some(k) => k,
    };
    let tail = tramo_bytes(pdf, kids, pdf.len());
    let corchete = [0x5bu8];
    assert(corchete@ == seq![0x5bu8]);
    proof {
        lema_buscar_desde(tail@, seq![0x5bu8], 0);
    }
    let open = match buscar_bytes(tail.as_slice(), corchete.as_slice(), 0) {
        None => return Err(error_pdf_de("/Kids sin [")),
        Some(o) => o,
    };
    assert(kids + open + 1 <= pdf.len());
    let resto = tramo_bytes(pdf, kids + open + 1, pdf.len());
    match parse_uint_after(resto.as_slice()) {
        Some(n) => Ok(n),
        None => Err(error_pdf_de("/Kids vacío")),
    }
}

/// The bytes that end the header of an indirect object: ` 0 obj`.
pub open spec fn marca_objeto() -> Seq<u8> {
    bytes_ascii(" 0 obj"@)
}

/// Where the digits that end right before position `p` begin.
pub open spec fn inicio_digitos(pdf: Seq<u8>, p: int) -> int
    decreases p,
{
    if 0 < p <= pdf.len() && es_digito(pdf[p - 1]) {
        inicio_digitos(pdf, p - 1)
    } else {
        p
    }
}

/// The object number written right before position `p`, or zero when none
/// can be read.
pub open spec fn numero_antes(pdf: Seq<u8>, p: int) -> nat {
    match leer_u32(pdf.subrange(inicio_digitos(pdf, p), p)) {
        Some(n) => n as nat,
        None => 0,
    }
}

/// The largest object number among the object headers at or after `i`.
pub open spec fn mayor_objeto_desde(pdf: Seq<u8>, i: int) -> nat
    decreases pdf.len() + 1 - i,
{
    match buscar_desde(pdf, marca_objeto(), i) {
        Some(p) => if i <= p && p + 6 <= pdf.len() {
            let n = numero_antes(pdf, p);
            let resto = mayor_objeto_desde(pdf, p + 6);
            if n >= resto {
                n
            } else {
                resto
            }
        } else {
            0
        },
        None => 0,
    }
}

/// The largest object number of the document, if there is any object.
pub open spec fn mayor_objeto_de(pdf: Seq<u8>) -> core::result::Result<u32, Seq<char>> {
    let m = mayor_objeto_desde(pdf, 0);
    if m == 0 {
        Err("sin objetos"@)
    } else {
        Ok(m as u32)
    }
}

proof fn lema_mayor_objeto_acotado(pdf: Seq<u8>, i: int)
    ensures
        mayor_objeto_desde(pdf, i) <= u32::MAX,
    decreases pdf.len() + 1 - i,
{
    match buscar_desde(pdf, marca_objeto(), i) {
        Some(p) => if i <= p && p + 6 <= pdf.len() {
            lema_mayor_objeto_acotado(pdf, p + 6);
        },
        None => {},
    }
}

/// Whether an object header ` 0 obj` starts at position `p`.
pub open spec fn marca_en(pdf: Seq<u8>, p: int) -> bool {
    0 <= p && p + 6 <= pdf.len() && pdf.subrange(p, p + 6) == marca_objeto()
}

/// Two object headers never overlap.
proof fn lema_marcas_separadas(pdf: Seq<u8>, p: int, q: int)
    requires
        marca_en(pdf, p),
        marca_en(pdf, q),
        p < q,
    ensures
        p + 6 <= q,
{
    reveal_strlit(" 0 obj");
    let m = marca_objeto();
    assert(m =~= seq![0x20u8, 0x30, 0x20, 0x6f, 0x62, 0x6a]);
    if q < p + 6 {
        let d = q - p;
        assert(pdf[q] == pdf.subrange(q, q + 6)[0]);
        assert(pdf[q] == pdf.subrange(p, p + 6)[d]);
        if d == 2 {
            assert(pdf[q + 1] == pdf.subrange(q, q + 6)[1]);
            assert(pdf[q + 1] == pdf.subrange(p, p + 6)[3]);
        }
    }
}

/// The largest object number from position `i` on is the largest of the
/// numbers before the object headers at or after `i`.
proof fn lema_mayor_objeto_desde(pdf: Seq<u8>, i: int)
    requires
        0 <= i,
    ensures
        forall|q: int| i <= q && marca_en(pdf, q) ==> #[trigger] numero_antes(pdf, q)
            <= mayor_objeto_desde(pdf, i),
        mayor_objeto_desde(pdf, i) > 0 ==> exists|q: int|
            i <= q && marca_en(pdf, q) && #[trigger] numero_antes(pdf, q) == mayor_objeto_desde(
                pdf,
                i,
            ),
    decreases pdf.len() + 1 - i,
{
    crate::texto::lema_buscar_desde(pdf, marca_objeto(), i);
    reveal_strlit(" 0 obj");
    assert(marca_objeto().len() == 6);
    match buscar_desde(pdf, marca_objeto(), i) {
        Some(p) => {
            lema_mayor_objeto_desde(pdf, p + 6);
            assert forall|q: int| i <= q && marca_en(pdf, q) implies #[trigger] numero_antes(pdf, q)
                <= mayor_objeto_desde(pdf, i) by {
                if q < p {
                    assert(pdf.subrange(q, q + 6) != marca_objeto());
                } else if q > p {
                    lema_marcas_separadas(pdf, p, q);
                }
            }
            if mayor_objeto_desde(pdf, i) > 0 {
                if numero_antes(pdf, p) >= mayor_objeto_desde(pdf, p + 6) {
                    assert(marca_en(pdf, p));
                    assert(numero_antes(pdf, p) == mayor_objeto_desde(pdf, i));
                } else {
                    let q = choose|q: int|
                        p + 6 <= q && marca_en(pdf, q) && #[trigger] numero_antes(pdf, q)
                            == mayor_objeto_desde(pdf, p + 6);
                    assert(numero_antes(pdf, q) == mayor_objeto_desde(pdf, i));
                }
            }
        },
        None => {
            assert forall|q: int| i <= q && marca_en(pdf, q) implies #[trigger] numero_antes(pdf, q)
                <= mayor_objeto_desde(pdf, i) by {
                assert(pdf.subrange(q, q + 6) != marca_objeto());
            }
        },
    }
}

/// The largest object number is the largest of the numbers written before
/// the object headers ` 0 obj` of the document: no header has a larger
/// one, and some header has it; the document has no object when every
/// header has the number 0 or none.
pub proof fn ley_mayor_objeto(pdf: Seq<u8>)
    ensures
        forall|q: int| marca_en(pdf, q) && mayor_objeto_de(pdf) is Ok ==> #[trigger] numero_antes(
            pdf,
            q,
        ) <= mayor_objeto_de(pdf)->Ok_0,
        mayor_objeto_de(pdf) matches Ok(m) ==> exists|q: int|
            marca_en(pdf, q) && #[trigger] numero_antes(pdf, q) == m,
        mayor_objeto_de(pdf) is Err <==> forall|q: int| #[trigger] marca_en(pdf, q) ==> numero_antes(
            pdf,
            q,
        ) == 0,
{
    lema_mayor_objeto_desde(pdf, 0);
    lema_mayor_objeto_acotado(pdf, 0);
}

/// Where the digits that end right before position `p` begin.
fn inicio_de_digitos(pdf: &[u8], p: usize) -> (j: usize)
    requires
        p <= pdf@.len(),
    ensures
        j as int == inicio_digitos(pdf@, p as int),
        j <= p,
        forall|k: int| j <= k < p ==> es_digito(#[trigger] pdf@[k]),
{
    let mut j = p;
    while j > 0 && 0x30 <= pdf[j - 1] && pdf[j - 1] <= 0x39
        invariant
            j <= p <= pdf@.len(),
            inicio_digitos(pdf@, p as int) == inicio_digitos(pdf@, j as int),
            forall|k: int| j <= k < p ==> es_digito(#[trigger] pdf@[k]),
        decreases j,
    {
        j -= 1;
    }
    j
}

/// The largest object number of the document.
pub fn max_obj_number(pdf: &[u8]) -> (r: core::result::Result<u32, Error>)
    ensures
        segun_modelo_u32(r, mayor_objeto_de(pdf@)),
{
    proof {
        reveal_strlit(" 0 obj");
    }
    let needle = ascii(" 0 obj");
    assert(needle@ == marca_objeto());
    assert(needle@.len() == 6);
    let mut max: u32 = 0;
    let mut i: usize = 0;
    proof {
        lema_mayor_objeto_acotado(pdf@, 0);
    }
    loop
        invariant
            i <= pdf@.len(),
            needle@ == marca_objeto(),
            needle@.len() == 6,
            mayor_objeto_desde(pdf@, 0) == if max as nat >= mayor_objeto_desde(pdf@, i as int) {
                max as nat
            } else {
                mayor_objeto_desde(pdf@, i as int)
            },
        ensures
            mayor_objeto_desde(pdf@, 0) == max as nat,
        decreases pdf@.len() - i,
    {
        proof {
            lema_buscar_desde(pdf@, needle@, i as int);
            lema_mayor_objeto_acotado(pdf@, i as int);
        }
        match buscar_bytes(pdf, needle, i) {
            None => {
                break ;
            },
            Some(p) => {
                let j = inicio_de_digitos(pdf, p);
                let digitos = tramo_bytes(pdf, j, p);
                if let Some(n) = leer_digitos_u32(digitos.as_slice()) {
                    if n > max {
                        max = n;
                    }
                }
                assert(p + 6 <= pdf.len());
                proof {
                    lema_mayor_objeto_acotado(pdf@, p + 6);
                }
                i = p + 6;
            },
        }
    }
    if max == 0 {
        return Err(error_pdf_de("sin objetos"));
    }
    Ok(max)
}


/// Room reserved for the hexadecimal signature in `/Contents`.
pub const CONTENTS_CAPACITY: usize = 16384;

/// `pdf` ending in a line feed: one is added when it is missing.
pub open spec fn con_salto(pdf: Seq<u8>) -> Seq<u8> {
    if pdf.len() > 0 && pdf.last() == 0x0a {
        pdf
    } else {
        pdf.push(0x0a)
    }
}

/// `n` bytes `0`.
pub open spec fn ceros(n: nat) -> Seq<u8> {
    Seq::new(n, |i: int| 0x30u8)
}

/// Header of the signature dictionary, up to the byte range.
pub open spec fn texto_firma(sig: nat) -> Seq<u8> {
    decimal(sig) + bytes_ascii(
        " 0 obj\n<< /Type /Sig /Filter /Adobe.PPKLite /SubFilter /ETSI.CAdES.detached "@,
    )
}

/// The byte range placeholder and the opening of `/Contents`.
pub open spec fn marcador_rango() -> Seq<u8> {
    bytes_ascii("/ByteRange [0000000000 0000000000 0000000000 0000000000] /Contents <"@)
}

/// What closes the signature dictionary.
pub open spec fn cierre_firma() -> Seq<u8> {
    bytes_ascii("> >>\nendobj\n"@)
}

/// The signature dictionary with the reserved room.
#[verifier::opaque]
pub open spec fn bloque_firma(sig: nat) -> Seq<u8> {
    texto_firma(sig) + marcador_rango() + ceros(CONTENTS_CAPACITY as nat) + cierre_firma()
}

/// The signature field (a widget annotation on the first page).
#[verifier::opaque]
pub open spec fn texto_anotacion(annot: nat, sig: nat, page: nat) -> Seq<u8> {
    decimal(annot) + bytes_ascii(
        " 0 obj\n<< /Type /Annot /Subtype /Widget /FT /Sig /Rect [0 0 0 0] /T (Rubrica Signature) /V "@,
    ) + decimal(sig) + bytes_ascii(" 0 R /P "@) + decimal(page) + bytes_ascii(
        " 0 R /F 132 >>\nendobj\n"@,
    )
}

/// The interactive form that holds the signature field.
#[verifier::opaque]
pub open spec fn texto_acroform(acroform: nat, annot: nat) -> Seq<u8> {
    decimal(acroform) + bytes_ascii(" 0 obj\n<< /Fields ["@) + decimal(annot) + bytes_ascii(
        " 0 R] /SigFlags 3 >>\nendobj\n"@,
    )
}

/// The new catalog, which points at the pages and at the form.
#[verifier::opaque]
pub open spec fn texto_catalogo(catalog: nat, pages: nat, acroform: nat) -> Seq<u8> {
    decimal(catalog) + bytes_ascii(" 0 obj\n<< /Type /Catalog /Pages "@) + decimal(pages)
        + bytes_ascii(" 0 R /AcroForm "@) + decimal(acroform) + bytes_ascii(
        " 0 R >>\nendobj\n"@,
    )
}

/// One subsection of the cross-reference section: object `num` at `off`.
#[verifier::opaque]
pub open spec fn entrada_xref(num: nat, off: nat) -> Seq<u8> {
    decimal(num) + bytes_ascii(" 1\n"@) + decimal_relleno(off, 10) + bytes_ascii(
        " 00000 n \n"@,
    )
}

/// The trailer of the update.
#[verifier::opaque]
pub open spec fn texto_trailer(catalog: nat, prev: nat, xref: nat) -> Seq<u8> {
    bytes_ascii("trailer\n<< /Size "@) + decimal(catalog + 1) + bytes_ascii(" /Root "@)
        + decimal(catalog) + bytes_ascii(" 0 R /Prev "@) + decimal(prev) + bytes_ascii(
        " >>\nstartxref\n"@,
    ) + decimal(xref) + bytes_ascii("\n%%EOF\n"@)
}

/// The numbers that an incremental update reads from the document.
pub struct Anclas {
    /// Offset of the previous cross-reference section.
    pub prev: nat,
    /// Object number of the page tree.
    pub pages: nat,
    /// Object number of the first page.
    pub page: nat,
    /// Largest object number in use.
    pub max: nat,
}

/// The anchors of the update, when the document has them all.
pub open spec fn anclas_de(pdf: Seq<u8>) -> core::result::Result<Anclas, Seq<char>> {
    match startxref_de(pdf) {
        Err(m) => Err(m),
        Ok(prev) => match referencia_tras(pdf, bytes_ascii("/Pages"@)) {
            Err(m) => Err(m),
            Ok(pages) => match primera_pagina_de(pdf) {
                Err(m) => Err(m),
                Ok(page) => match mayor_objeto_de(pdf) {
                    Err(m) => Err(m),
                    Ok(max) => Ok(
                        Anclas { prev: prev as nat, pages: pages as nat, page: page as nat, max: max as nat },
                    ),
                },
            },
        },
    }
}

/// Whether the numbers of the new objects fit in a `u32`: the update needs
/// four new objects and the `/Size` that follows them.
pub open spec fn numeracion_cabe(pdf: Seq<u8>) -> bool {
    anclas_de(pdf) matches Ok(a) ==> a.max + 5 <= u32::MAX
}

/// Offsets within the update: the signature dictionary, the annotation, the
/// form, the catalog and the cross-reference section.
pub open spec fn desplazamientos(pdf: Seq<u8>, a: Anclas) -> (nat, nat, nat, nat, nat) {
    let o1 = con_salto(pdf).len();
    let o2 = o1 + bloque_firma(a.max + 1).len();
    let o3 = o2 + texto_anotacion(a.max + 2, a.max + 1, a.page).len();
    let o4 = o3 + texto_acroform(a.max + 3, a.max + 2).len();
    let ox = o4 + texto_catalogo(a.max + 4, a.pages, a.max + 3).len();
    (o1, o2, o3, o4, ox)
}

/// What follows the signature dictionary in the update: the field, the
/// form, the catalog, the cross-reference section and the trailer.
pub open spec fn cola(pdf: Seq<u8>, a: Anclas) -> Seq<u8> {
    let (o1, o2, o3, o4, ox) = desplazamientos(pdf, a);
    let sig = a.max + 1;
    let annot = a.max + 2;
    let acroform = a.max + 3;
    let catalog = a.max + 4;
    texto_anotacion(annot, sig, a.page) + texto_acroform(acroform, annot) + texto_catalogo(
        catalog,
        a.pages,
        acroform,
    ) + bytes_ascii("xref\n"@) + entrada_xref(sig, o1) + entrada_xref(annot, o2) + entrada_xref(
        acroform,
        o3,
    ) + entrada_xref(catalog, o4) + texto_trailer(catalog, a.prev, ox)
}

/// The document with the incremental update appended, before its byte range
/// is written.
pub open spec fn actualizacion(pdf: Seq<u8>, a: Anclas) -> Seq<u8> {
    con_salto(pdf) + bloque_firma(a.max + 1) + cola(pdf, a)
}

/// Where the hexadecimal signature starts.
pub open spec fn inicio_hex(pdf: Seq<u8>, a: Anclas) -> nat {
    con_salto(pdf).len() + texto_firma(a.max + 1).len() + marcador_rango().len()
}

/// The byte range that the signature covers: everything but the
/// hexadecimal `/Contents` and its angle brackets.
pub open spec fn rango_de(pdf: Seq<u8>, a: Anclas) -> Seq<int> {
    let h = inicio_hex(pdf, a) as int;
    let after = h + CONTENTS_CAPACITY + 1;
    let total = actualizacion(pdf, a).len() as int;
    seq![0, h - 1, after, total - after]
}

/// The text of a byte range: four numbers of at least ten digits.
pub open spec fn texto_rango(r: Seq<int>) -> Seq<u8> {
    decimal_relleno(r[0] as nat, 10) + seq![0x20u8] + decimal_relleno(r[1] as nat, 10) + seq![
        0x20u8,
    ] + decimal_relleno(r[2] as nat, 10) + seq![0x20u8] + decimal_relleno(r[3] as nat, 10)
}

/// `b` with `v` written over it at position `at`.
pub open spec fn escrito_en(b: Seq<u8>, at: int, v: Seq<u8>) -> Seq<u8> {
    b.subrange(0, at) + v + b.subrange(at + v.len(), b.len() as int)
}

/// The key before the byte range.
pub open spec fn clave_rango() -> Seq<u8> {
    bytes_ascii("/ByteRange ["@)
}

/// The document prepared for signing: the update with its byte range
/// written in place of the placeholder.
pub open spec fn preparado(pdf: Seq<u8>, a: Anclas) -> Seq<u8> {
    escrito_en(
        actualizacion(pdf, a),
        (con_salto(pdf).len() + texto_firma(a.max + 1).len() + clave_rango().len()) as int,
        texto_rango(rango_de(pdf, a)),
    )
}

/// A document prepared for signing.
pub struct Prepared {
    bytes: Vec<u8>,
    hex_start: usize,
    hex_len: usize,
    range: [usize; 4],
}

impl Prepared {
    /// The bytes of the prepared document.
    pub closed spec fn bytes_de(&self) -> Seq<u8> {
        self.bytes@
    }

    /// Where the hexadecimal signature starts.
    pub closed spec fn hex_start_de(&self) -> nat {
        self.hex_start as nat
    }

    /// The room reserved for the hexadecimal signature.
    pub closed spec fn hex_len_de(&self) -> nat {
        self.hex_len as nat
    }

    /// The byte range that the signature covers.
    pub closed spec fn rango(&self) -> Seq<int> {
        seq![
            self.range[0] as int,
            self.range[1] as int,
            self.range[2] as int,
            self.range[3] as int,
        ]
    }

    /// The room for the signature lies inside the document, between the two
    /// parts of the byte range.
    pub closed spec fn wf(&self) -> bool {
        &&& self.range[0] == 0
        &&& self.range[1] + 1 == self.hex_start
        &&& self.range[2] == self.hex_start + self.hex_len + 1
        &&& self.range[2] + self.range[3] == self.bytes@.len()
    }
}

/// Appends `s` to `out`.
pub(crate) fn agregar(out: &mut Vec<u8>, s: &[u8])
    ensures
        final(out)@ == old(out)@ + s@,
{
    out.extend_from_slice(s);
    assert(out@ =~= old(out)@ + s@);
}

/// Appends the decimal numeral of `n` to `out`.
fn agregar_decimal(out: &mut Vec<u8>, n: u64)
    ensures
        final(out)@ == old(out)@ + decimal(n as nat),
{
    let d = escribir_decimal(n);
    agregar(out, d.as_slice());
}

/// Appends `n` in decimal with at least ten digits to `out`.
fn agregar_relleno(out: &mut Vec<u8>, n: u64)
    ensures
        final(out)@ == old(out)@ + decimal_relleno(n as nat, 10),
{
    let d = escribir_decimal_relleno(n, 10);
    agregar(out, d.as_slice());
}


/// In the signature dictionary, the first byte range key after its start is
/// the one of the placeholder.
pub(crate) proof fn lema_clave_en_bloque(sig: nat)
    ensures
        ({
            let b = bloque_firma(sig);
            let j = texto_firma(sig).len() as int;
            &&& j + clave_rango().len() <= b.len()
            &&& b.subrange(j, j + clave_rango().len()) == clave_rango()
            &&& forall|q: int| 0 <= q < j ==> #[trigger] b.subrange(q, q + clave_rango().len()) != clave_rango()
        }),
{
    reveal(bloque_firma);
    reveal_strlit(" 0 obj\n<< /Type /Sig /Filter /Adobe.PPKLite /SubFilter /ETSI.CAdES.detached ");
    reveal_strlit("/ByteRange [0000000000 0000000000 0000000000 0000000000] /Contents <");
    reveal_strlit("/ByteRange [");
    let l1 = " 0 obj\n<< /Type /Sig /Filter /Adobe.PPKLite /SubFilter /ETSI.CAdES.detached "@;
    let m = "/ByteRange [0000000000 0000000000 0000000000 0000000000] /Contents <"@;
    let c = "/ByteRange ["@;
    assert(l1.len() == 76);
    assert(m.len() == 68);
    assert(c.len() == 12);
    assert forall|k: int| 0 <= k < 76 && #[trigger] l1[k] == '/' implies k + 1 < 76 && l1[k + 1]
        != 'B' by {}
    let d = decimal(sig);
    lema_leer_decimal(sig);
    let b = bloque_firma(sig);
    let j = texto_firma(sig).len() as int;
    let cr = clave_rango();
    let mr = marcador_rango();
    let tf = texto_firma(sig);
    assert(tf =~= d + bytes_ascii(l1));
    assert(j == d.len() + 76);
    assert(b =~= tf + mr + ceros(CONTENTS_CAPACITY as nat) + cierre_firma());
    assert(cr =~= mr.subrange(0, 12));
    assert(b.subrange(j, j + 12) =~= mr.subrange(0, 12));
    assert(cr[0] == 0x2f);
    assert(cr[1] == 0x42);
    assert forall|q: int| 0 <= q < j implies #[trigger] b.subrange(q, q + cr.len()) != cr by {
        let w = b.subrange(q, q + cr.len());
        if q < d.len() {
            assert(w[0] == d[q]);
            assert(es_digito(d[q]));
        } else {
            let k = q - d.len();
            assert(w[0] == l1[k] as u8);
            if l1[k] == '/' {
                assert(k + 1 < 76);
                assert(w[1] == l1[k + 1] as u8);
            }
        }
    }
}


/// Writes `v` over `b` from position `at`.
pub(crate) fn escribir_sobre(b: &mut Vec<u8>, at: usize, v: &[u8])
    requires
        at + v@.len() <= old(b)@.len(),
    ensures
        final(b)@ == escrito_en(old(b)@, at as int, v@),
{
    let n = b.len();
    let mut k: usize = 0;
    while k < v.len()
        invariant
            n == b@.len(),
            at + v@.len() <= b@.len(),
            b@.len() == old(b)@.len(),
            k <= v@.len(),
            b@ == old(b)@.subrange(0, at as int) + v@.subrange(0, k as int) + old(b)@.subrange(
                at + k,
                old(b)@.len() as int,
            ),
        decreases v@.len() - k,
    {
        b[at + k] = v[k];
        k += 1;
        assert(b@ =~= old(b)@.subrange(0, at as int) + v@.subrange(0, k as int) + old(b)@.subrange(
            at + k,
            old(b)@.len() as int,
        ));
    }
    assert(v@.subrange(0, v@.len() as int) =~= v@);
}

/// The text of a byte range.
pub(crate) fn escribir_rango(r: [usize; 4]) -> (t: Vec<u8>)
    ensures
        t@ == texto_rango(seq![r[0] as int, r[1] as int, r[2] as int, r[3] as int]),
{
    let mut t: Vec<u8> = Vec::new();
    agregar_relleno(&mut t, r[0] as u64);
    t.push(0x20);
    agregar_relleno(&mut t, r[1] as u64);
    t.push(0x20);
    agregar_relleno(&mut t, r[2] as u64);
    t.push(0x20);
    agregar_relleno(&mut t, r[3] as u64);
    t
}

impl Prepared {
    /// Writes the byte range over the placeholder that follows the first
    /// `/ByteRange [` at or after `from`.
    pub fn write_byte_range(&mut self, from: usize) -> (r: core::result::Result<(), Error>)
        requires
            from <= old(self).bytes_de().len(),
            buscar_desde(old(self).bytes_de(), clave_rango(), from as int) matches Some(pos) ==> pos
                + clave_rango().len() + texto_rango(old(self).rango()).len() <= old(
                self,
            ).bytes_de().len(),
        ensures
            final(self).hex_start_de() == old(self).hex_start_de(),
            final(self).hex_len_de() == old(self).hex_len_de(),
            final(self).rango() == old(self).rango(),
            final(self).bytes_de().len() == old(self).bytes_de().len(),
            old(self).wf() ==> final(self).wf(),
            match buscar_desde(old(self).bytes_de(), clave_rango(), from as int) {
                Some(pos) => r is Ok && final(self).bytes_de() == escrito_en(
                    old(self).bytes_de(),
                    pos + clave_rango().len(),
                    texto_rango(old(self).rango()),
                ),
                None => (r matches Err(e) && e@ == ErrorModelo::Pdf(
                    "no se encontró /ByteRange"@,
                )) && final(self).bytes_de() == old(self).bytes_de(),
            },
    {
        proof {
            reveal_strlit("/ByteRange [");
            lema_buscar_desde(self.bytes@, clave_rango(), from as int);
        }
        let needle = ascii("/ByteRange [");
        assert(needle@ == clave_rango());
        let pos = match buscar_bytes(self.bytes.as_slice(), needle, from) {
            None => return Err(error_pdf_de("no se encontró /ByteRange")),
            Some(p) => p,
        };
        let n = self.bytes.len();
        assert(pos + needle@.len() <= n);
        let start = pos + needle.len();
        let value = escribir_rango(self.range);
        assert(value@ == texto_rango(self.rango()));
        escribir_sobre(&mut self.bytes, start, value.as_slice());
        Ok(())
    }

    /// The bytes that the signature covers: the document without the
    /// hexadecimal `/Contents` and its angle brackets.
    pub fn signed_bytes(&self) -> (v: Vec<u8>)
        requires
            self.wf(),
        ensures
            v@ == self.bytes_de().subrange(0, self.rango()[1]) + self.bytes_de().subrange(
                self.rango()[2],
                self.rango()[2] + self.rango()[3],
            ),
            v@ == self.bytes_de().subrange(0, self.hex_start_de() - 1) + self.bytes_de().subrange(
                (self.hex_start_de() + self.hex_len_de() + 1) as int,
                self.bytes_de().len() as int,
            ),
            v@.len() == self.bytes_de().len() - self.hex_len_de() - 2,
    {
        proof {
            self.ley_bytes_firmados();
        }
        let a = self.range[0];
        let b = self.range[1];
        let c = self.range[2];
        let d = self.range[3];
        let n = self.bytes.len();
        let mut v = tramo_bytes(self.bytes.as_slice(), a, a + b);
        let mut w = tramo_bytes(self.bytes.as_slice(), c, c + d);
        v.append(&mut w);
        v
    }

    /// Writes the hexadecimal signature into the reserved room and gives
    /// back the signed document.
    pub fn embed(self, signature: &[u8]) -> (r: core::result::Result<Vec<u8>, Error>)
        requires
            self.wf(),
        ensures
            2 * signature@.len() > self.hex_len_de() ==> (r matches Err(e) && e@
                == ErrorModelo::SignatureTooLarge),
            2 * signature@.len() <= self.hex_len_de() ==> (r matches Ok(v) && v@ == escrito_en(
                self.bytes_de(),
                self.hex_start_de() as int,
                hex_de(signature@),
            )),
    {
        let hex = hex_encode(signature);
        proof {
            lema_largo_hex(signature@);
        }
        if hex.len() > self.hex_len {
            return Err(Error::SignatureTooLarge);
        }
        let mut bytes = self.bytes;
        escribir_sobre(&mut bytes, self.hex_start, hex.as_slice());
        Ok(bytes)
    }
}

/// The hexadecimal text has two digits per byte.
pub proof fn lema_largo_hex(d: Seq<u8>)
    ensures
        hex_de(d).len() == 2 * d.len(),
    decreases d.len(),
{
    if d.len() > 0 {
        lema_largo_hex(d.drop_last());
    }
}


/// Whether an outcome agrees with the anchors that the document has.
pub open spec fn segun_anclas(r: core::result::Result<Prepared, Error>, pdf: Seq<u8>) -> bool {
    match (r, anclas_de(pdf)) {
        (Ok(p), Ok(a)) => {
            &&& p.wf()
            &&& p.bytes_de() == preparado(pdf, a)
            &&& p.hex_start_de() == inicio_hex(pdf, a)
            &&& p.hex_len_de() == CONTENTS_CAPACITY
            &&& p.rango() == rango_de(pdf, a)
        },
        (Err(e), Err(m)) => e@ == ErrorModelo::Pdf(m),
        _ => false,
    }
}

impl Prepared {
    /// Appends to the document an incremental update with a signature
    /// dictionary whose `/Contents` is reserved for the signature, a
    /// signature field on the first page, a form, a new catalog, the
    /// cross-reference section and the trailer, and writes the byte range.
    pub fn build(pdf: &[u8]) -> (r: core::result::Result<Prepared, Error>)
        requires
            numeracion_cabe(pdf@),
        ensures
            segun_anclas(r, pdf@),
    {
        proof {
            reveal_strlit("/Pages");
        }
        let prev_xref = match find_startxref(pdf) {
            Ok(v) => v,
            Err(e) => return Err(e),
        };
        let pages_ref = match obj_ref_after(pdf, ascii("/Pages")) {
            Ok(v) => v,
            Err(e) => return Err(e),
        };
        let page_ref = match first_page_ref(pdf) {
            Ok(v) => v,
            Err(e) => return Err(e),
        };
        let max = match max_obj_number(pdf) {
            Ok(v) => v,
            Err(e) => return Err(e),
        };
        let ghost a = Anclas {
            prev: prev_xref as nat,
            pages: pages_ref as nat,
            page: page_ref as nat,
            max: max as nat,
        };
        assert(anclas_de(pdf@) == Ok::<Anclas, Seq<char>>(a));
        let (out, sig_offset, hex_start) = ensamblar(pdf, prev_xref as u64, pages_ref, page_ref, max, Ghost(a));
        let hex_len = CONTENTS_CAPACITY;
        let total = out.len();
        let after = hex_start + hex_len + 1;
        let range = [0, hex_start - 1, after, total - after];

        let mut prepared = Prepared { bytes: out, hex_start, hex_len, range };
        proof {
            reveal_strlit("/ByteRange [");
            reveal_strlit("/ByteRange [0000000000 0000000000 0000000000 0000000000] /Contents <");
            assert(clave_rango().len() == 12);
            assert(marcador_rango().len() == 68);
            lema_clave_tras_cabecera(pdf@, a);
            assert(prepared.rango()[0] <= u64::MAX);
            lema_largo_rango(prepared.rango());
        }
        match prepared.write_byte_range(sig_offset) {
            Ok(()) => {},
            Err(e) => return Err(e),
        }
        Ok(prepared)
    }
}

/// Builds the update of a document whose anchors are known; gives back the
/// bytes, where the signature dictionary starts and where its reserved room
/// starts.
pub(crate) fn ensamblar(pdf: &[u8], prev_xref: u64, pages_ref: u32, page_ref: u32, max: u32, Ghost(a): Ghost<Anclas>) -> (r: (Vec<u8>, usize, usize))
    requires
        a == (Anclas { prev: prev_xref as nat, pages: pages_ref as nat, page: page_ref as nat, max: max as nat }),
        max + 5 <= u32::MAX,
    ensures
        r.0@ == actualizacion(pdf@, a),
        r.1 == con_salto(pdf@).len(),
        r.2 == inicio_hex(pdf@, a),
        r.2 + CONTENTS_CAPACITY + 12 <= r.0@.len(),
{
    let mut next = max + 1;
    let sig = next;
    next += 1;
    let annot = next;
    next += 1;
    let acroform = next;
    next += 1;
    let catalog = next;

    let mut out: Vec<u8> = Vec::new();
    agregar(&mut out, pdf);
    if !(out.len() > 0 && out[out.len() - 1] == 0x0a) {
        out.push(0x0a);
    }
    assert(out@ == con_salto(pdf@));

    let sig_offset = out.len();
    let hex_start = agregar_bloque_firma(&mut out, sig);
    let ghost base = out@;
    proof {
        lema_largo_bloque(sig as nat);
    }
    let annot_offset = out.len();
    agregar_anotacion(&mut out, annot, sig, page_ref);
    let acroform_offset = out.len();
    agregar_acroform(&mut out, acroform, annot);
    let catalog_offset = out.len();
    agregar_catalogo(&mut out, catalog, pages_ref, acroform);
    let xref_offset = out.len();
    agregar_xref(&mut out, [sig, annot, acroform, catalog], [sig_offset, annot_offset, acroform_offset, catalog_offset]);
    agregar_trailer(&mut out, catalog, prev_xref, xref_offset);
    assert(desplazamientos(pdf@, a) == (
        sig_offset as nat,
        annot_offset as nat,
        acroform_offset as nat,
        catalog_offset as nat,
        xref_offset as nat,
    ));
    assert(out@ =~= base + cola(pdf@, a));
    (out, sig_offset, hex_start)
}

/// In the update, the first byte range key after the start of the signature
/// dictionary is the one of its placeholder.
pub(crate) proof fn lema_largo_bloque(sig: nat)
    ensures
        bloque_firma(sig).len() == texto_firma(sig).len() + marcador_rango().len()
            + CONTENTS_CAPACITY + 12,
{
    reveal(bloque_firma);
    reveal_strlit("> >>\nendobj\n");
}

pub(crate) proof fn lema_clave_tras_cabecera(pdf: Seq<u8>, a: Anclas)
    ensures
        buscar_desde(actualizacion(pdf, a), clave_rango(), con_salto(pdf).len() as int) == Some(
            (con_salto(pdf).len() + texto_firma(a.max + 1).len()) as int,
        ),
{
    let sig = a.max + 1;
    lema_clave_en_bloque(sig);
    lema_buscar_en_medio(
        con_salto(pdf),
        bloque_firma(sig),
        cola(pdf, a),
        clave_rango(),
        0,
        texto_firma(sig).len() as int,
    );
}

/// Appends the signature dictionary; gives back where its reserved room
/// starts.
fn agregar_bloque_firma(out: &mut Vec<u8>, sig: u32) -> (hex_start: usize)
    ensures
        final(out)@ == old(out)@ + bloque_firma(sig as nat),
        hex_start == old(out)@.len() + texto_firma(sig as nat).len() + marcador_rango().len(),
{
    proof {
        reveal(bloque_firma);
        reveal_strlit(" 0 obj\n<< /Type /Sig /Filter /Adobe.PPKLite /SubFilter /ETSI.CAdES.detached ");
        reveal_strlit("/ByteRange [0000000000 0000000000 0000000000 0000000000] /Contents <");
        reveal_strlit("> >>\nendobj\n");
    }
    agregar_decimal(out, sig as u64);
    agregar(out, ascii(" 0 obj\n<< /Type /Sig /Filter /Adobe.PPKLite /SubFilter /ETSI.CAdES.detached "));
    agregar(out, ascii("/ByteRange [0000000000 0000000000 0000000000 0000000000] /Contents <"));
    let hex_start = out.len();
    let z = vec![0x30u8; CONTENTS_CAPACITY];
    assert(z@ =~= ceros(CONTENTS_CAPACITY as nat));
    agregar(out, z.as_slice());
    agregar(out, ascii("> >>\nendobj\n"));
    assert(out@ =~= old(out)@ + bloque_firma(sig as nat));
    hex_start
}

/// Appends the signature field.
fn agregar_anotacion(out: &mut Vec<u8>, annot: u32, sig: u32, page: u32)
    ensures
        final(out)@ == old(out)@ + texto_anotacion(annot as nat, sig as nat, page as nat),
{
    proof {
        reveal(texto_anotacion);
        reveal_strlit(" 0 obj\n<< /Type /Annot /Subtype /Widget /FT /Sig /Rect [0 0 0 0] /T (Rubrica Signature) /V ");
        reveal_strlit(" 0 R /P ");
        reveal_strlit(" 0 R /F 132 >>\nendobj\n");
    }
    agregar_decimal(out, annot as u64);
    agregar(out, ascii(" 0 obj\n<< /Type /Annot /Subtype /Widget /FT /Sig /Rect [0 0 0 0] /T (Rubrica Signature) /V "));
    agregar_decimal(out, sig as u64);
    agregar(out, ascii(" 0 R /P "));
    agregar_decimal(out, page as u64);
    agregar(out, ascii(" 0 R /F 132 >>\nendobj\n"));
    assert(out@ =~= old(out)@ + texto_anotacion(annot as nat, sig as nat, page as nat));
}

/// Appends the form.
fn agregar_acroform(out: &mut Vec<u8>, acroform: u32, annot: u32)
    ensures
        final(out)@ == old(out)@ + texto_acroform(acroform as nat, annot as nat),
{
    proof {
        reveal(texto_acroform);
        reveal_strlit(" 0 obj\n<< /Fields [");
        reveal_strlit(" 0 R] /SigFlags 3 >>\nendobj\n");
    }
    agregar_decimal(out, acroform as u64);
    agregar(out, ascii(" 0 obj\n<< /Fields ["));
    agregar_decimal(out, annot as u64);
    agregar(out, ascii(" 0 R] /SigFlags 3 >>\nendobj\n"));
    assert(out@ =~= old(out)@ + texto_acroform(acroform as nat, annot as nat));
}

/// Appends the catalog.
fn agregar_catalogo(out: &mut Vec<u8>, catalog: u32, pages: u32, acroform: u32)
    ensures
        final(out)@ == old(out)@ + texto_catalogo(catalog as nat, pages as nat, acroform as nat),
{
    proof {
        reveal(texto_catalogo);
        reveal_strlit(" 0 obj\n<< /Type /Catalog /Pages ");
        reveal_strlit(" 0 R /AcroForm ");
        reveal_strlit(" 0 R >>\nendobj\n");
    }
    agregar_decimal(out, catalog as u64);
    agregar(out, ascii(" 0 obj\n<< /Type /Catalog /Pages "));
    agregar_decimal(out, pages as u64);
    agregar(out, ascii(" 0 R /AcroForm "));
    agregar_decimal(out, acroform as u64);
    agregar(out, ascii(" 0 R >>\nendobj\n"));
    assert(out@ =~= old(out)@ + texto_catalogo(catalog as nat, pages as nat, acroform as nat));
}

/// Appends the cross-reference section of the four new objects.
fn agregar_xref(out: &mut Vec<u8>, nums: [u32; 4], offs: [usize; 4])
    ensures
        final(out)@ == old(out)@ + bytes_ascii("xref\n"@) + entrada_xref(nums[0] as nat, offs[0] as nat)
            + entrada_xref(nums[1] as nat, offs[1] as nat) + entrada_xref(
            nums[2] as nat,
            offs[2] as nat,
        ) + entrada_xref(nums[3] as nat, offs[3] as nat),
{
    proof {
        reveal_strlit("xref\n");
    }
    agregar(out, ascii("xref\n"));
    agregar_entrada(out, nums[0] as u64, offs[0] as u64);
    agregar_entrada(out, nums[1] as u64, offs[1] as u64);
    agregar_entrada(out, nums[2] as u64, offs[2] as u64);
    agregar_entrada(out, nums[3] as u64, offs[3] as u64);
}

/// Appends the trailer.
fn agregar_trailer(out: &mut Vec<u8>, catalog: u32, prev: u64, xref: usize)
    requires
        catalog < u32::MAX,
    ensures
        final(out)@ == old(out)@ + texto_trailer(catalog as nat, prev as nat, xref as nat),
{
    proof {
        reveal(texto_trailer);
        reveal_strlit("trailer\n<< /Size ");
        reveal_strlit(" /Root ");
        reveal_strlit(" 0 R /Prev ");
        reveal_strlit(" >>\nstartxref\n");
        reveal_strlit("\n%%EOF\n");
    }
    agregar(out, ascii("trailer\n<< /Size "));
    agregar_decimal(out, (catalog + 1) as u64);
    agregar(out, ascii(" /Root "));
    agregar_decimal(out, catalog as u64);
    agregar(out, ascii(" 0 R /Prev "));
    agregar_decimal(out, prev);
    agregar(out, ascii(" >>\nstartxref\n"));
    agregar_decimal(out, xref as u64);
    agregar(out, ascii("\n%%EOF\n"));
    assert(out@ =~= old(out)@ + texto_trailer(catalog as nat, prev as nat, xref as nat));
}

/// Appends one subsection of the cross-reference section.
fn agregar_entrada(out: &mut Vec<u8>, num: u64, off: u64)
    ensures
        final(out)@ == old(out)@ + entrada_xref(num as nat, off as nat),
{
    proof {
        reveal(entrada_xref);
        reveal_strlit(" 1\n");
        reveal_strlit(" 00000 n \n");
    }
    agregar_decimal(out, num);
    agregar(out, ascii(" 1\n"));
    agregar_relleno(out, off);
    agregar(out, ascii(" 00000 n \n"));
}

/// A byte range of machine-sized numbers takes at most 83 bytes.
pub(crate) proof fn lema_largo_rango(r: Seq<int>)
    requires
        r.len() == 4,
        forall|i: int| 0 <= i < 4 ==> 0 <= #[trigger] r[i] <= u64::MAX,
    ensures
        texto_rango(r).len() <= 83,
{
    lema_largo_decimal_u64(r[0] as nat);
    lema_largo_decimal_u64(r[1] as nat);
    lema_largo_decimal_u64(r[2] as nat);
    lema_largo_decimal_u64(r[3] as nat);
}


/// What reading the signature back from a signed document gives.
pub enum Extraccion {
    /// The bytes that the byte range covers, and the DER signature.
    Datos(Seq<u8>, Seq<u8>),
    /// An error.
    Fallo(ErrorModelo),
    /// The byte range or the `/Contents` point outside the document in a
    /// way that makes the reading panic.
    Panico,
}

/// The four numbers of a byte range, once its text is known to be four
/// numbers.
pub open spec fn numeros_rango(ws: Seq<Seq<char>>) -> (int, int, int, int) {
    (
        leer_usize(ws[0])->0 as int,
        leer_usize(ws[1])->0 as int,
        leer_usize(ws[2])->0 as int,
        leer_usize(ws[3])->0 as int,
    )
}

/// What `/Contents` holds between the byte range's two parts.
pub open spec fn extraccion_de_hueco(hole: Seq<u8>) -> Extraccion {
    match buscar_desde(hole, seq![0x3cu8], 0) {
        None => Extraccion::Fallo(ErrorModelo::Pdf("/Contents sin <"@)),
        Some(lt) => match buscar_desde(hole, seq![0x3eu8], 0) {
            None => Extraccion::Fallo(ErrorModelo::Pdf("/Contents sin >"@)),
            Some(gt) => if lt + 1 > gt {
                Extraccion::Panico
            } else {
                match bytes_de_hex(hole.subrange(lt + 1, gt)) {
                    None => Extraccion::Fallo(ErrorModelo::Pdf("/Contents no es hex"@)),
                    Some(raw) => match recorte_der(raw) {
                        Recorte::Prefijo(n) => Extraccion::Datos(Seq::empty(), raw.subrange(0, n)),
                        Recorte::Error(m) => Extraccion::Fallo(ErrorModelo::Crypto(m)),
                        Recorte::Desborde => Extraccion::Panico,
                    },
                }
            },
        },
    }
}

/// Reads the byte range of a signed document and the signature in its
/// `/Contents`.
pub open spec fn extraccion(pdf: Seq<u8>) -> Extraccion {
    let len = pdf.len() as int;
    match buscar_desde(pdf, clave_rango(), 0) {
        None => Extraccion::Fallo(ErrorModelo::Pdf("sin /ByteRange"@)),
        Some(pos) => {
            let start = pos + clave_rango().len();
            match buscar_desde(pdf.subrange(start, len), seq![0x5du8], 0) {
                None => Extraccion::Fallo(ErrorModelo::Pdf("/ByteRange sin cierre"@)),
                Some(k) => {
                    let texto = pdf.subrange(start, start + k);
                    if !valid_utf8(texto) {
                        Extraccion::Fallo(ErrorModelo::Pdf("/ByteRange no es texto"@))
                    } else {
                        let ws = palabras(decode_utf8(texto));
                        if exists|i: int| 0 <= i < ws.len() && #[trigger] leer_usize(ws[i]) is None {
                            Extraccion::Fallo(ErrorModelo::Pdf("/ByteRange no numérico"@))
                        } else if ws.len() != 4 {
                            Extraccion::Fallo(ErrorModelo::Pdf("/ByteRange debe tener 4 valores"@))
                        } else {
                            let (a, b, c, d) = numeros_rango(ws);
                            if a + b > usize::MAX {
                                Extraccion::Panico
                            } else if a + b > len {
                                Extraccion::Fallo(ErrorModelo::Pdf("/ByteRange fuera de límites"@))
                            } else if c + d > usize::MAX {
                                Extraccion::Panico
                            } else if c + d > len {
                                Extraccion::Fallo(ErrorModelo::Pdf("/ByteRange fuera de límites"@))
                            } else if b + d > usize::MAX || a + b > c {
                                Extraccion::Panico
                            } else {
                                match extraccion_de_hueco(pdf.subrange(a + b, c)) {
                                    Extraccion::Datos(_, sig) => Extraccion::Datos(
                                        pdf.subrange(a, a + b) + pdf.subrange(c, c + d),
                                        sig,
                                    ),
                                    otro => otro,
                                }
                            }
                        }
                    }
                },
            }
        },
    }
}

/// What reading the signature back from a signed document gives.
pub enum Extraido {
    Datos(Vec<u8>, Vec<u8>),
    Fallo(Error),
    Panico,
}

/// Whether a reading agrees with its model.
pub open spec fn segun_extraccion(r: Extraido, m: Extraccion) -> bool {
    match (r, m) {
        (Extraido::Datos(c, s), Extraccion::Datos(mc, ms)) => c@ == mc && s@ == ms,
        (Extraido::Fallo(e), Extraccion::Fallo(me)) => e@ == me,
        (Extraido::Panico, Extraccion::Panico) => true,
        _ => false,
    }
}

/// Reads the signature out of the hole between the byte range's parts.
fn leer_hueco(hole: &[u8]) -> (r: Extraido)
    ensures
        segun_extraccion(r, extraccion_de_hueco(hole@)),
{
    let menor = [0x3cu8];
    let mayor = [0x3eu8];
    assert(menor@ == seq![0x3cu8]);
    assert(mayor@ == seq![0x3eu8]);
    proof {
        lema_buscar_desde(hole@, seq![0x3cu8], 0);
        lema_buscar_desde(hole@, seq![0x3eu8], 0);
    }
    let lt = match buscar_bytes(hole, menor.as_slice(), 0) {
        None => return Extraido::Fallo(error_pdf_de("/Contents sin <")),
        Some(p) => p,
    };
    let gt = match buscar_bytes(hole, mayor.as_slice(), 0) {
        None => return Extraido::Fallo(error_pdf_de("/Contents sin >")),
        Some(p) => p,
    };
    assert(lt < hole.len());
    if lt + 1 > gt {
        return Extraido::Panico;
    }
    let contenido = tramo_bytes(hole, lt + 1, gt);
    let raw = match hex_decode(contenido.as_slice()) {
        None => return Extraido::Fallo(error_pdf_de("/Contents no es hex")),
        Some(r) => r,
    };
    if der_desborda(raw.as_slice()) {
        return Extraido::Panico;
    }
    match trim_der(raw.as_slice()) {
        Ok(sig) => {
            let v = tramo_bytes(sig, 0, sig.len());
            assert(v@ =~= sig@);
            let vacio: Vec<u8> = Vec::new();
            assert(vacio@ =~= Seq::<u8>::empty());
            Extraido::Datos(vacio, v)
        },
        Err(e) => Extraido::Fallo(e),
    }
}


/// Reads the byte range of a signed document and the signature in its
/// `/Contents`, telling apart the documents on which the reading panics.
pub fn analizar(pdf: &[u8]) -> (r: Extraido)
    ensures
        segun_extraccion(r, extraccion(pdf@)),
{
    proof {
        reveal_strlit("/ByteRange [");
        lema_buscar_desde(pdf@, clave_rango(), 0);
    }
    let needle = ascii("/ByteRange [");
    assert(needle@ == clave_rango());
    let pos = match buscar_bytes(pdf, needle, 0) {
        None => return Extraido::Fallo(error_pdf_de("sin /ByteRange")),
        Some(p) => p,
    };
    let n = pdf.len();
    assert(pos + 12 <= n);
    let start = pos + needle.len();
    let tail = tramo_bytes(pdf, start, n);
    let cierre = [0x5du8];
    assert(cierre@ == seq![0x5du8]);
    proof {
        lema_buscar_desde(tail@, seq![0x5du8], 0);
    }
    let close = match buscar_bytes(tail.as_slice(), cierre.as_slice(), 0) {
        None => return Extraido::Fallo(error_pdf_de("/ByteRange sin cierre")),
        Some(k) => start + k,
    };
    let texto_bytes = tramo_bytes(pdf, start, close);
    let texto = match texto_utf8(texto_bytes.as_slice()) {
        None => return Extraido::Fallo(error_pdf_de("/ByteRange no es texto")),
        Some(t) => t,
    };
    let cs = caracteres(texto.as_str());
    let ws = partir_palabras(cs.as_slice());
    let ghost mws = palabras(decode_utf8(texto_bytes@));
    let mut nums: Vec<usize> = Vec::new();
    let mut i: usize = 0;
    #[verifier::loop_isolation(false)]
    while i < ws.len()
        invariant
            i <= ws@.len(),
            ws@.len() == mws.len(),
            forall|k: int| 0 <= k < ws@.len() ==> #[trigger] ws@[k]@ == mws[k],
            nums@.len() == i,
            forall|k: int| 0 <= k < i ==> leer_usize(mws[k]) == Some(#[trigger] nums@[k]),
        decreases ws@.len() - i,
    {
        match parse_usize(ws[i].as_slice()) {
            None => {
                assert(leer_usize(mws[i as int]) is None);
                assert(exists|k: int| 0 <= k < mws.len() && #[trigger] leer_usize(mws[k]) is None);
                return Extraido::Fallo(error_pdf_de("/ByteRange no numérico"));
            },
            Some(v) => {
                nums.push(v);
            },
        }
        i += 1;
    }
    assert(!(exists|k: int| 0 <= k < mws.len() && #[trigger] leer_usize(mws[k]) is None)) by {
        assert forall|k: int| 0 <= k < mws.len() implies !(#[trigger] leer_usize(mws[k]) is None) by {
            assert(leer_usize(mws[k]) == Some(nums@[k]));
        }
    }
    if nums.len() != 4 {
        return Extraido::Fallo(error_pdf_de("/ByteRange debe tener 4 valores"));
    }
    let a = nums[0];
    let b = nums[1];
    let c = nums[2];
    let d = nums[3];
    assert(numeros_rango(mws) == (a as int, b as int, c as int, d as int));
    if a > usize::MAX - b {
        return Extraido::Panico;
    }
    if a + b > n {
        return Extraido::Fallo(error_pdf_de("/ByteRange fuera de límites"));
    }
    if c > usize::MAX - d {
        return Extraido::Panico;
    }
    if c + d > n {
        return Extraido::Fallo(error_pdf_de("/ByteRange fuera de límites"));
    }
    if b > usize::MAX - d || a + b > c {
        return Extraido::Panico;
    }
    let mut content = tramo_bytes(pdf, a, a + b);
    let mut segunda = tramo_bytes(pdf, c, c + d);
    content.append(&mut segunda);
    let hole = tramo_bytes(pdf, a + b, c);
    match leer_hueco(hole.as_slice()) {
        Extraido::Datos(_, sig) => Extraido::Datos(content, sig),
        otro => otro,
    }
}

/// Reads the content that the byte range of a signed document covers and
/// the DER signature in its `/Contents`.
pub fn extract(pdf: &[u8]) -> (r: core::result::Result<(Vec<u8>, Vec<u8>), Error>)
    requires
        !(extraccion(pdf@) is Panico),
    ensures
        match (r, extraccion(pdf@)) {
            (Ok((c, s)), Extraccion::Datos(mc, ms)) => c@ == mc && s@ == ms,
            (Err(e), Extraccion::Fallo(me)) => e@ == me,
            _ => false,
        },
{
    match analizar(pdf) {
        Extraido::Datos(c, s) => Ok((c, s)),
        Extraido::Fallo(e) => Err(e),
        Extraido::Panico => Err(error_pdf_de("/ByteRange fuera de límites")),
    }
}

} // verus!

verus! {

/// The first position at or after `from` where `needle` occurs in `hay`.
pub fn find_from(hay: &[u8], needle: &[u8], from: usize) -> (r: Option<usize>)
    requires
        from <= hay@.len(),
        needle@.len() > 0,
    ensures
        como_int(r) == buscar_desde(hay@, needle@, from as int),
{
    buscar_bytes(hay, needle, from)
}

/// The last position where `needle` occurs in `hay`.
pub fn rfind(hay: &[u8], needle: &[u8]) -> (r: Option<usize>)
    requires
        needle@.len() > 0,
    ensures
        como_int(r) == buscar_ultimo(hay@, needle@),
{
    buscar_ultimo_bytes(hay, needle)
}

} // verus!

verus! {

/// The prepared document with the hexadecimal CMS signature `cms` written
/// at the start of the room in `/Contents`.
pub open spec fn firmado_con(pdf: Seq<u8>, a: Anclas, cms: Seq<u8>) -> Seq<u8> {
    escrito_en(preparado(pdf, a), inicio_hex(pdf, a) as int, hex_de(cms))
}

/// The CMS signature that `sign` embeds in a document with anchors `a`:
/// the detached signature by the identity of the SHA-256 digest of the
/// bytes that the byte range of the prepared document covers.
pub open spec fn cms_pades(pdf: Seq<u8>, a: Anclas, im: crate::keystore::IdentidadModelo) -> Seq<u8> {
    crate::firma_cms::cms_firmado(
        crate::firma_cms::resumen_sha256(crate::relectura::cubierto(pdf, a)),
        im.clave,
        im.cert,
        im.chain,
        None,
    )
}

/// Signs a PDF document (PAdES baseline B): appends the incremental update,
/// signs the SHA-256 digest of the bytes that its byte range covers with a
/// detached CMS signature, and writes the signature into `/Contents`.
pub fn sign(pdf: &[u8], identity: &crate::keystore::Identity) -> (r: core::result::Result<Vec<u8>, Error>)
    requires
        numeracion_cabe(pdf@),
        crate::keystore::identidad_valida(identity@),
        crate::firma_cms::cadena_sin_repetidos(identity@.cert, identity@.chain),
    ensures
        match anclas_de(pdf@) {
            Err(m) => r matches Err(e) && e@ == ErrorModelo::Pdf(m),
            Ok(a) => {
                let cms = cms_pades(pdf@, a, identity@);
                &&& r matches Ok(v) ==> v@ == firmado_con(pdf@, a, cms) && 2 * cms.len() <= CONTENTS_CAPACITY
                    && recorte_der(cms) == Recorte::Prefijo(cms.len() as int)
                &&& r is Ok ==> crate::firma_cms::firma_legible(
                    cms,
                    crate::firma_cms::resumen_sha256(crate::relectura::cubierto(pdf@, a)),
                    identity@,
                )
                &&& crate::firma_cms::resumen_sha256(crate::relectura::cubierto(pdf@, a)).len() == 32
                &&& r matches Err(e) ==> (e@ is SignatureTooLarge && 2 * cms.len() > CONTENTS_CAPACITY)
                    || (e@ is Crypto && !crate::firma_cms::identidad_firmable(identity@, None))
                &&& crate::firma_cms::identidad_firmable(identity@, None) && 2 * cms.len()
                    <= CONTENTS_CAPACITY ==> r is Ok
            },
        },
{
    let prepared = match Prepared::build(pdf) {
        Ok(p) => p,
        Err(e) => return Err(e),
    };
    let ghost a = anclas_de(pdf@)->Ok_0;
    let cubiertos = prepared.signed_bytes();
    assert(cubiertos@ =~= crate::relectura::cubierto(pdf@, a));
    let digest = crate::firma_cms::sha256(cubiertos.as_slice());
    let signature = match crate::firma_cms::signed_data_detached(digest.as_slice(), identity) {
        Ok(s) => s,
        Err(e) => return Err(e),
    };
    assert(signature@ == cms_pades(pdf@, a, identity@));
    let r = prepared.embed(signature.as_slice());
    match r {
        Ok(v) => {
            assert(v@ == firmado_con(pdf@, a, signature@));
            Ok(v)
        },
        Err(e) => Err(e),
    }
}

/// Validates the signature of a signed PDF document: reads the bytes that
/// its byte range covers and the CMS signature in `/Contents`, and
/// validates the one against the other.
pub fn verify(pdf: &[u8]) -> (r: core::result::Result<crate::validate::Report, Error>)
    requires
        !(extraccion(pdf@) is Panico),
    ensures
        match extraccion(pdf@) {
            Extraccion::Datos(content, signature) => crate::validate::segun_validacion(
                r,
                crate::validate::validacion(content, signature),
            ),
            Extraccion::Fallo(m) => r matches Err(e) && e@ == m,
            Extraccion::Panico => false,
        },
{
    let (content, signature) = match extract(pdf) {
        Ok(x) => x,
        Err(e) => return Err(e),
    };
    crate::validate::verify_detached(content.as_slice(), signature.as_slice())
}

impl Prepared {
    /// The bytes that the signature covers are the whole prepared document
    /// but for the room of the signature and its angle brackets: the two
    /// parts of the byte range join around `<`, the room and `>`.
    pub proof fn ley_bytes_firmados(&self)
        requires
            self.wf(),
        ensures
            self.bytes_de().subrange(0, self.rango()[1]) + self.bytes_de().subrange(
                self.rango()[2],
                self.rango()[2] + self.rango()[3],
            ) == self.bytes_de().subrange(0, self.hex_start_de() - 1) + self.bytes_de().subrange(
                (self.hex_start_de() + self.hex_len_de() + 1) as int,
                self.bytes_de().len() as int,
            ),
            self.rango()[0] == 0,
            self.rango()[1] + self.rango()[3] == self.bytes_de().len() - self.hex_len_de() - 2,
    {
    }

    /// Embedding a signature that fits changes nothing that the signature
    /// covers: the document keeps its length, and both parts of the byte
    /// range are as they were.
    pub proof fn ley_incrustar(&self, firma: Seq<u8>)
        requires
            self.wf(),
            2 * firma.len() <= self.hex_len_de(),
        ensures
            ({
                let e = escrito_en(self.bytes_de(), self.hex_start_de() as int, hex_de(firma));
                let r = self.rango();
                &&& e.len() == self.bytes_de().len()
                &&& e.subrange(r[0], r[0] + r[1]) == self.bytes_de().subrange(r[0], r[0] + r[1])
                &&& e.subrange(r[2], r[2] + r[3]) == self.bytes_de().subrange(r[2], r[2] + r[3])
            }),
    {
        crate::relectura::lema_hex_ida_vuelta(firma);
        let b = self.bytes_de();
        let h = self.hex_start_de() as int;
        let x = hex_de(firma);
        let e = escrito_en(b, h, x);
        let r = self.rango();
        assert(e.subrange(r[0], r[0] + r[1]) =~= b.subrange(r[0], r[0] + r[1]));
        assert(e.subrange(r[2], r[2] + r[3]) =~= b.subrange(r[2], r[2] + r[3]));
    }
}

/// Whether the numbers of the new objects fit, as `numeracion_cabe`
/// says: the largest object number, when the document has all the anchors
/// of the update, leaves room for five more.
pub fn numeracion_suficiente(pdf: &[u8]) -> (r: bool)
    ensures
        r == numeracion_cabe(pdf@),
{
    proof {
        reveal_strlit("/Pages");
    }
    let a = find_startxref(pdf);
    let b = obj_ref_after(pdf, ascii("/Pages"));
    let c = first_page_ref(pdf);
    let d = max_obj_number(pdf);
    match (a, b, c, d) {
        (Ok(_), Ok(_), Ok(_), Ok(m)) => m <= u32::MAX - 5,
        _ => true,
    }
}

} // verus!
