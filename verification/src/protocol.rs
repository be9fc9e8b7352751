//! The `afirma://` invocation protocol: the URL that a portal hands to the
//! signing client, its query parameters, and the `id` format of carFirma.

use vstd::prelude::*;
use vstd::utf8::*;
use crate::texto::{
    buscar_chars, buscar_desde, buscar_ultimo, buscar_ultimo_chars, caracteres, como_int,
    empieza_con, empieza_con_chars, iguales, largo_espacio_inicial, largo_sin_finales,
    lema_buscar_desde, partir_chars, partir_en, sin_espacio_inicial, sin_finales, texto_de,
    tramo, trozos,
};

verus! {

/// What `String::from_utf8_lossy` makes of a byte sequence.
pub uninterp spec fn utf8_con_perdida(bytes: Seq<u8>) -> Seq<char>;

/// Decodes `bytes` as UTF-8, replacing each invalid sequence with U+FFFD.
///
/// Calls `String::from_utf8_lossy`. Its documentation promises that valid
/// UTF-8 comes back unchanged; the replacement of invalid sequences is left
/// to the name `utf8_con_perdida`.
#[verifier::external_body]
pub(crate) fn texto_utf8_con_perdida(bytes: &[u8]) -> (s: String)
    ensures
        s@ == utf8_con_perdida(bytes@),
        valid_utf8(bytes@) ==> s@ == decode_utf8(bytes@),
{
    String::from_utf8_lossy(bytes).into_owned()
}

/// Value of an ASCII hexadecimal digit, upper or lower case.
pub open spec fn valor_hex(b: u8) -> Option<u8> {
    if 0x30 <= b <= 0x39 {
        Some((b - 0x30) as u8)
    } else if 0x61 <= b <= 0x66 {
        Some((b - 0x61 + 10) as u8)
    } else if 0x41 <= b <= 0x46 {
        Some((b - 0x41 + 10) as u8)
    } else {
        None
    }
}

/// The byte written as the two hexadecimal digits `hi` and `lo`.
pub open spec fn byte_hex(hi: u8, lo: u8) -> Option<u8> {
    match (valor_hex(hi), valor_hex(lo)) {
        (Some(h), Some(l)) => Some((h * 16 + l) as u8),
        _ => None,
    }
}

/// The byte written as the two hexadecimal digits `hi` and `lo`.
pub fn from_hex(hi: u8, lo: u8) -> (r: Option<u8>)
    ensures
        r == byte_hex(hi, lo),
{
    let h = digito_hex(hi);
    let l = digito_hex(lo);
    match (h, l) {
        (Some(h), Some(l)) => Some(h * 16 + l),
        _ => None,
    }
}

fn digito_hex(b: u8) -> (r: Option<u8>)
    ensures
        r == valor_hex(b),
        r matches Some(v) ==> v < 16,
{
    if 0x30 <= b && b <= 0x39 {
        Some(b - 0x30)
    } else if 0x61 <= b && b <= 0x66 {
        Some(b - 0x61 + 10)
    } else if 0x41 <= b && b <= 0x46 {
        Some(b - 0x41 + 10)
    } else {
        None
    }
}

/// Percent-decoding of a URL component: `%hh` becomes the byte `hh` and `+`
/// becomes a space; a `%` not followed by two hexadecimal digits stays.
pub open spec fn decodificar_porcentajes(b: Seq<u8>) -> Seq<u8>
    decreases b.len(),
{
    if b.len() == 0 {
        seq![]
    } else if b[0] == 0x25 && b.len() >= 3 && byte_hex(b[1], b[2]) is Some {
        seq![byte_hex(b[1], b[2])->0] + decodificar_porcentajes(b.skip(3))
    } else if b[0] == 0x2b {
        seq![0x20u8] + decodificar_porcentajes(b.skip(1))
    } else {
        seq![b[0]] + decodificar_porcentajes(b.skip(1))
    }
}

/// Percent-decodes a byte sequence.
pub fn decodificar_porcentajes_bytes(bytes: &[u8]) -> (out: Vec<u8>)
    ensures
        out@ == decodificar_porcentajes(bytes@),
{
    let mut out: Vec<u8> = Vec::new();
    let mut i: usize = 0;
    assert(bytes@.skip(0) =~= bytes@);
    while i < bytes.len()
        invariant
            i <= bytes@.len(),
            out@ + decodificar_porcentajes(bytes@.skip(i as int)) == decodificar_porcentajes(
                bytes@,
            ),
        decreases bytes@.len() - i,
    {
        let ghost resto = bytes@.skip(i as int);
        if bytes[i] == 0x25 && bytes.len() - i > 2 {
            if let Some(byte) = from_hex(bytes[i + 1], bytes[i + 2]) {
                assert(resto.skip(3) =~= bytes@.skip(i + 3));
                out.push(byte);
                i += 3;
            } else {
                assert(resto.skip(1) =~= bytes@.skip(i + 1));
                out.push(bytes[i]);
                i += 1;
            }
        } else if bytes[i] == 0x2b {
            assert(resto.skip(1) =~= bytes@.skip(i + 1));
            out.push(0x20);
            i += 1;
        } else {
            assert(resto.skip(1) =~= bytes@.skip(i + 1));
            out.push(bytes[i]);
            i += 1;
        }
    }
    assert(bytes@.skip(i as int) =~= Seq::<u8>::empty());
    assert(out@ + Seq::<u8>::empty() =~= out@);
    out
}

/// What `url_decode` makes of a text: its UTF-8 bytes are percent-decoded and
/// read back as UTF-8.
pub open spec fn decodificar_url(s: Seq<char>) -> Seq<char> {
    utf8_con_perdida(decodificar_porcentajes(encode_utf8(s)))
}

/// A text with neither `%` nor `+`, the two characters that decoding reads.
pub open spec fn sin_escapes(s: Seq<char>) -> bool {
    forall|i: int| 0 <= i < s.len() ==> #[trigger] s[i] != '%' && s[i] != '+'
}

/// A byte sequence with neither `%` (0x25) nor `+` (0x2b).
pub open spec fn bytes_sin_escapes(b: Seq<u8>) -> bool {
    forall|i: int| 0 <= i < b.len() ==> #[trigger] b[i] != 0x25 && b[i] != 0x2b
}

/// Percent-decoding leaves bytes without `%` and `+` as they are.
proof fn lema_decodificar_sin_escapes(b: Seq<u8>)
    requires
        bytes_sin_escapes(b),
    ensures
        decodificar_porcentajes(b) == b,
    decreases b.len(),
{
    if b.len() > 0 {
        assert(b[0] != 0x25 && b[0] != 0x2b);
        let resto = b.skip(1);
        assert(bytes_sin_escapes(resto)) by {
            assert forall|i: int| 0 <= i < resto.len() implies #[trigger] resto[i] != 0x25
                && resto[i] != 0x2b by {
                assert(resto[i] == b[i + 1]);
            }
        }
        lema_decodificar_sin_escapes(resto);
        assert(seq![b[0]] + resto =~= b);
    }
}

/// The UTF-8 encoding of a character other than `%` and `+` holds neither
/// byte: an ASCII character is its own byte, and every byte of a longer
/// encoding has its high bit set.
proof fn lema_escalar_sin_escapes(c: char)
    requires
        c != '%',
        c != '+',
    ensures
        bytes_sin_escapes(encode_scalar(c as u32)),
{
    let v = c as u32;
    assert(is_scalar(v));
    if has_width_1_encoding(v) {
        assert(v != 0x25u32 && v != 0x2bu32);
        assert(v <= 0x7f ==> (v & 0x7f) == v) by (bit_vector);
        assert(encode_scalar(v) == seq![leading_byte_width_1(v)]);
    } else {
        assert(forall|x: u8| #![trigger (0x80u8 | x)] (0x80u8 | x) >= 0x80u8) by (bit_vector);
        assert(forall|x: u8| #![trigger (0xc0u8 | x)] (0xc0u8 | x) >= 0x80u8) by (bit_vector);
        assert(forall|x: u8| #![trigger (0xe0u8 | x)] (0xe0u8 | x) >= 0x80u8) by (bit_vector);
        assert(forall|x: u8| #![trigger (0xf0u8 | x)] (0xf0u8 | x) >= 0x80u8) by (bit_vector);
        let e = encode_scalar(v);
        assert forall|i: int| 0 <= i < e.len() implies #[trigger] e[i] >= 0x80u8 by {}
    }
}

/// The UTF-8 encoding of a text without `%` and `+` holds neither byte.
proof fn lema_utf8_sin_escapes(s: Seq<char>)
    requires
        sin_escapes(s),
    ensures
        bytes_sin_escapes(encode_utf8(s)),
    decreases s.len(),
{
    if s.len() > 0 {
        assert(s[0] != '%' && s[0] != '+');
        let resto = s.drop_first();
        assert(sin_escapes(resto)) by {
            assert forall|i: int| 0 <= i < resto.len() implies #[trigger] resto[i] != '%'
                && resto[i] != '+' by {
                assert(resto[i] == s[i + 1]);
            }
        }
        lema_escalar_sin_escapes(s[0]);
        lema_utf8_sin_escapes(resto);
        let a = encode_scalar(s[0] as u32);
        let b = encode_utf8(resto);
        assert(encode_utf8(s) == a + b);
        assert forall|i: int| 0 <= i < (a + b).len() implies #[trigger] (a + b)[i] != 0x25
            && (a + b)[i] != 0x2b by {
            if i < a.len() {
                assert((a + b)[i] == a[i]);
            } else {
                assert((a + b)[i] == b[i - a.len()]);
            }
        }
    }
}

/// The hexadecimal digit of a value below 16, in upper or lower case.
pub open spec fn digito_de(n: u8, mayusculas: bool) -> u8 {
    if n < 10 {
        (0x30 + n) as u8
    } else if mayusculas {
        (0x41 + n - 10) as u8
    } else {
        (0x61 + n - 10) as u8
    }
}

/// Every byte written as `%` and its two hexadecimal digits.
pub open spec fn codificar_porcentajes(b: Seq<u8>, mayusculas: bool) -> Seq<u8>
    decreases b.len(),
{
    if b.len() == 0 {
        seq![]
    } else {
        seq![0x25u8, digito_de(b[0] / 16, mayusculas), digito_de(b[0] % 16, mayusculas)]
            + codificar_porcentajes(b.skip(1), mayusculas)
    }
}

/// A text written as `%` escapes of each of its UTF-8 bytes.
pub open spec fn texto_porcentajes(t: Seq<char>, mayusculas: bool) -> Seq<char> {
    crate::numeros::ascii_texto(codificar_porcentajes(encode_utf8(t), mayusculas))
}

/// Percent-decoding undoes the escaping of every byte, with digits in
/// either case.
pub proof fn ley_porcentajes_ida_vuelta(b: Seq<u8>, mayusculas: bool)
    ensures
        decodificar_porcentajes(codificar_porcentajes(b, mayusculas)) == b,
        forall|i: int|
            0 <= i < codificar_porcentajes(b, mayusculas).len() ==> #[trigger] codificar_porcentajes(
                b,
                mayusculas,
            )[i] < 128,
    decreases b.len(),
{
    if b.len() > 0 {
        let e = codificar_porcentajes(b, mayusculas);
        let h = b[0] / 16;
        let l = b[0] % 16;
        assert(valor_hex(digito_de(h, mayusculas)) == Some(h));
        assert(valor_hex(digito_de(l, mayusculas)) == Some(l));
        assert(byte_hex(digito_de(h, mayusculas), digito_de(l, mayusculas)) == Some(b[0]));
        let resto = codificar_porcentajes(b.skip(1), mayusculas);
        assert(e.skip(3) =~= resto);
        assert(e[0] == 0x25u8);
        ley_porcentajes_ida_vuelta(b.skip(1), mayusculas);
        assert(seq![b[0]] + b.skip(1) =~= b);
        assert forall|i: int| 0 <= i < e.len() implies #[trigger] e[i] < 128 by {
            if i >= 3 {
                assert(e[i] == resto[i - 3]);
            }
        }
    }
}

/// Decoding the `%` escapes of all the UTF-8 bytes of a text, in either
/// case, gives back the bytes of the text, which are valid UTF-8 and
/// decode to the text.
pub proof fn ley_url_ida_vuelta(t: Seq<char>, mayusculas: bool)
    ensures
        decodificar_porcentajes(encode_utf8(texto_porcentajes(t, mayusculas))) == encode_utf8(t),
        valid_utf8(encode_utf8(t)),
        decode_utf8(encode_utf8(t)) == t,
{
    let b = codificar_porcentajes(encode_utf8(t), mayusculas);
    ley_porcentajes_ida_vuelta(encode_utf8(t), mayusculas);
    let c = crate::numeros::ascii_texto(b);
    assert(is_ascii_chars(c)) by {
        assert forall|i: int| 0 <= i < c.len() implies '\0' <= #[trigger] c[i] <= '\u{7f}' by {
            assert(c[i] == b[i] as char);
        }
    }
    is_ascii_chars_encode_utf8(c);
    assert(encode_utf8(c) =~= b) by {
        assert forall|i: int| 0 <= i < b.len() implies #[trigger] encode_utf8(c)[i] == b[i] by {
            assert(c[i] as u8 == encode_utf8(c)[i]);
            assert(c[i] == b[i] as char);
        }
    }
    encode_utf8_valid_utf8(t);
    encode_utf8_decode_utf8(t);
}

/// Decodes a percent-encoded URL component (`%hh` escapes, `+` for space).
/// A text with neither `%` nor `+` comes back unchanged.
pub fn url_decode(s: &str) -> (r: String)
    ensures
        r@ == decodificar_url(s@),
        sin_escapes(s@) ==> r@ == s@,
        forall|t: Seq<char>, mayusculas: bool|
            s@ == #[trigger] texto_porcentajes(t, mayusculas) ==> r@ == t,
{
    let bytes = s.as_bytes();
    let out = decodificar_porcentajes_bytes(bytes);
    proof {
        if sin_escapes(s@) {
            lema_utf8_sin_escapes(s@);
            lema_decodificar_sin_escapes(encode_utf8(s@));
            encode_utf8_valid_utf8(s@);
            encode_utf8_decode_utf8(s@);
        }
    }
    let r = texto_utf8_con_perdida(out.as_slice());
    proof {
        assert forall|t: Seq<char>, mayusculas: bool|
            s@ == #[trigger] texto_porcentajes(t, mayusculas) implies r@ == t by {
            ley_url_ida_vuelta(t, mayusculas);
        }
    }
    r
}


/// The key and value that one `key=value` piece of a query stands for; a
/// piece without `=` is a key with an empty value.
pub open spec fn par_de(pieza: Seq<char>) -> (Seq<char>, Seq<char>) {
    match partir_en(pieza, seq!['=']) {
        Some((k, v)) => (k, decodificar_url(v)),
        None => (pieza, Seq::empty()),
    }
}

/// The parameters that a sequence of query pieces stands for; a later piece
/// overrides an earlier one with the same key.
pub open spec fn parametros_de(piezas: Seq<Seq<char>>) -> Map<Seq<char>, Seq<char>>
    decreases piezas.len(),
{
    if piezas.len() == 0 {
        Map::empty()
    } else {
        let (k, v) = par_de(piezas.last());
        parametros_de(piezas.drop_last()).insert(k, v)
    }
}

/// The parameters of a query string (the part of a URL after `?`).
pub open spec fn consulta(query: Seq<char>) -> Map<Seq<char>, Seq<char>> {
    if query.len() == 0 {
        Map::empty()
    } else {
        parametros_de(trozos(query, '&'))
    }
}

/// The value that `m` gives `k`, if any.
pub open spec fn valor(m: Map<Seq<char>, Seq<char>>, k: Seq<char>) -> Option<Seq<char>> {
    if m.dom().contains(k) {
        Some(m[k])
    } else {
        None
    }
}

/// The texts held in an optional `String`.
pub open spec fn vista_opcional(o: Option<String>) -> Option<Seq<char>> {
    match o {
        Some(s) => Some(s@),
        None => None,
    }
}

/// The query parameters of an invocation, in the order in which they came.
pub struct Parametros {
    pares: Vec<(Vec<char>, String)>,
}

/// The map held by the first `n` pairs; a later pair overrides an earlier one.
pub open spec fn mapa_de_pares(pares: Seq<(Vec<char>, String)>, n: int) -> Map<
    Seq<char>,
    Seq<char>,
>
    decreases n,
{
    if n <= 0 {
        Map::empty()
    } else {
        mapa_de_pares(pares, n - 1).insert(pares[n - 1].0@, pares[n - 1].1@)
    }
}

impl View for Parametros {
    type V = Map<Seq<char>, Seq<char>>;

    closed spec fn view(&self) -> Map<Seq<char>, Seq<char>> {
        mapa_de_pares(self.pares@, self.pares@.len() as int)
    }
}

proof fn lema_mapa_de_pares_crece(pares: Seq<(Vec<char>, String)>, p: (Vec<char>, String), n: int)
    requires
        0 <= n <= pares.len(),
    ensures
        mapa_de_pares(pares.push(p), n) == mapa_de_pares(pares, n),
    decreases n,
{
    if n > 0 {
        lema_mapa_de_pares_crece(pares, p, n - 1);
    }
}

proof fn lema_valor_sin_pares_posteriores(pares: Seq<(Vec<char>, String)>, k: Seq<char>, i: int, n: int)
    requires
        0 <= i <= n <= pares.len(),
        forall|j: int| i <= j < n ==> #[trigger] pares[j].0@ != k,
    ensures
        valor(mapa_de_pares(pares, n), k) == valor(mapa_de_pares(pares, i), k),
    decreases n - i,
{
    if n > i {
        lema_valor_sin_pares_posteriores(pares, k, i, n - 1);
    }
}

impl Parametros {
    /// No parameters.
    pub fn new() -> (r: Self)
        ensures
            r@ == Map::<Seq<char>, Seq<char>>::empty(),
    {
        Parametros { pares: Vec::new() }
    }

    /// Sets `clave` to `valor`, replacing an earlier value.
    pub fn insert(&mut self, clave: Vec<char>, valor: String)
        ensures
            final(self)@ == old(self)@.insert(clave@, valor@),
    {
        proof {
            lema_mapa_de_pares_crece(self.pares@, (clave, valor), self.pares@.len() as int);
        }
        self.pares.push((clave, valor));
    }

    /// The value of `clave`, if it was given.
    pub fn get(&self, clave: &[char]) -> (r: Option<String>)
        ensures
            vista_opcional(r) == valor(self@, clave@),
    {
        let mut i = self.pares.len();
        while i > 0
            invariant
                i <= self.pares@.len(),
                valor(self@, clave@) == valor(mapa_de_pares(self.pares@, i as int), clave@),
            decreases i,
        {
            if iguales(self.pares[i - 1].0.as_slice(), clave) {
                return Some(self.pares[i - 1].1.clone());
            }
            i -= 1;
        }
        None
    }

    /// Whether `clave` was given.
    pub fn contains_key(&self, clave: &[char]) -> (r: bool)
        ensures
            r == self@.dom().contains(clave@),
    {
        self.get(clave).is_some()
    }
}

/// Splits a query string into its parameters; a piece without `=` is a
/// flag with an empty value, and values are percent-decoded.
pub fn parse_query(query: &str) -> (params: Parametros)
    ensures
        params@ == consulta(query@),
{
    let q = caracteres(query);
    let mut params = Parametros::new();
    if q.len() == 0 {
        return params;
    }
    let mut resto = q;
    let ghost mut hechos: Seq<Seq<char>> = Seq::empty();
    assert(hechos + trozos(resto@, '&') =~= trozos(query@, '&'));
    loop
        invariant
            hechos + trozos(resto@, '&') == trozos(query@, '&'),
            params@ == parametros_de(hechos),
            query@.len() > 0,
        decreases resto@.len(),
    {
        proof {
            lema_buscar_desde(resto@, seq!['&'], 0);
        }
        let amp = ['&'];
        match buscar_chars(resto.as_slice(), amp.as_slice(), 0) {
            Some(p) => {
                assert(amp@ == seq!['&']);
                assert(p + 1 <= resto.len());
                let pieza = tramo(resto.as_slice(), 0, p);
                let siguiente = tramo(resto.as_slice(), p + 1, resto.len());
                inserta_pieza(&mut params, pieza);
                proof {
                    assert(hechos.push(pieza@).drop_last() =~= hechos);
                    assert(trozos(resto@, '&') == seq![pieza@] + trozos(siguiente@, '&'));
                    assert(hechos + trozos(resto@, '&') =~= hechos.push(pieza@) + trozos(
                        siguiente@,
                        '&',
                    ));
                    hechos = hechos.push(pieza@);
                }
                resto = siguiente;
            },
            None => {
                assert(amp@ == seq!['&']);
                proof {
                    assert(trozos(resto@, '&') == seq![resto@]);
                    assert(hechos.push(resto@).drop_last() =~= hechos);
                    assert(hechos + trozos(resto@, '&') =~= hechos.push(resto@));
                }
                inserta_pieza(&mut params, resto);
                return params;
            },
        }
    }
}

/// Adds the parameter that one `key=value` piece stands for.
fn inserta_pieza(params: &mut Parametros, pieza: Vec<char>)
    ensures
        final(params)@ == old(params)@.insert(par_de(pieza@).0, par_de(pieza@).1),
{
    let igual = ['='];
    assert(igual@ == seq!['=']);
    match partir_chars(pieza.as_slice(), igual.as_slice()) {
        Some((k, v)) => {
            let valor = url_decode(texto_de(v.as_slice()).as_str());
            params.insert(k, valor);
        },
        None => {
            params.insert(pieza, String::new());
        },
    }
}


/// An invocation of the signing client: the operation and the parameters
/// that a portal put in its `afirma://` URL.
#[derive(Debug)]
pub struct Invocation {
    pub operation: String,
    pub id: Option<String>,
    pub keystore: Option<String>,
    pub keystore_lib: Option<String>,
    pub single_cert: bool,
    pub only_dnie: bool,
    pub only_sign: bool,
    pub no_expired: bool,
    pub filters: Option<String>,
    pub format: Option<String>,
    pub algorithm: Option<String>,
    pub data: Option<String>,
}

/// An invocation as texts.
pub struct ModeloInvocacion {
    pub operation: Seq<char>,
    pub id: Option<Seq<char>>,
    pub keystore: Option<Seq<char>>,
    pub keystore_lib: Option<Seq<char>>,
    pub single_cert: bool,
    pub only_dnie: bool,
    pub only_sign: bool,
    pub no_expired: bool,
    pub filters: Option<Seq<char>>,
    pub format: Option<Seq<char>>,
    pub algorithm: Option<Seq<char>>,
    pub data: Option<Seq<char>>,
}

impl View for Invocation {
    type V = ModeloInvocacion;

    open spec fn view(&self) -> ModeloInvocacion {
        ModeloInvocacion {
            operation: self.operation@,
            id: vista_opcional(self.id),
            keystore: vista_opcional(self.keystore),
            keystore_lib: vista_opcional(self.keystore_lib),
            single_cert: self.single_cert,
            only_dnie: self.only_dnie,
            only_sign: self.only_sign,
            no_expired: self.no_expired,
            filters: vista_opcional(self.filters),
            format: vista_opcional(self.format),
            algorithm: vista_opcional(self.algorithm),
            data: vista_opcional(self.data),
        }
    }
}

/// The URL without its scheme (the part up to and including `://`).
pub open spec fn sin_esquema(uri: Seq<char>) -> Seq<char> {
    match partir_en(uri, "://"@) {
        Some((_, resto)) => resto,
        None => uri,
    }
}

/// The operation of an invocation and its query string.
pub open spec fn operacion_y_consulta(uri: Seq<char>) -> (Seq<char>, Seq<char>) {
    let resto = sin_esquema(uri);
    match partir_en(resto, seq!['?']) {
        Some((op, q)) => (sin_finales(op, '/'), q),
        None => (sin_finales(resto, '/'), Seq::empty()),
    }
}

/// The invocation that a URL stands for.
pub open spec fn invocacion_de(uri: Seq<char>) -> ModeloInvocacion {
    let (op, q) = operacion_y_consulta(uri);
    let p = consulta(q);
    ModeloInvocacion {
        operation: op,
        id: valor(p, "id"@),
        keystore: valor(p, "ks"@),
        keystore_lib: valor(p, "ksl"@),
        single_cert: p.dom().contains("un"@),
        only_dnie: p.dom().contains("dn"@),
        only_sign: p.dom().contains("sf"@),
        no_expired: p.dom().contains("nc"@),
        filters: valor(p, "fc"@),
        format: valor(p, "format"@),
        algorithm: valor(p, "algorithm"@),
        data: valor(p, "dat"@),
    }
}

/// Reads the operation and the parameters of an invocation URL such as
/// `afirma://sign?op=sign&format=pades&un&dat=SGVsbG8%3D`.
pub fn parse(uri: &str) -> (inv: Invocation)
    ensures
        inv@ == invocacion_de(uri@),
{
    let u = caracteres(uri);
    let esquema = caracteres("://");
    proof {
        reveal_strlit("://");
    }
    let resto = match partir_chars(u.as_slice(), esquema.as_slice()) {
        Some((_, r)) => r,
        None => u,
    };
    let interrogacion = ['?'];
    assert(interrogacion@ == seq!['?']);
    let (op, query) = match partir_chars(resto.as_slice(), interrogacion.as_slice()) {
        Some((op, q)) => {
            let n = largo_sin_finales(op.as_slice(), '/');
            (tramo(op.as_slice(), 0, n), q)
        },
        None => {
            let n = largo_sin_finales(resto.as_slice(), '/');
            (tramo(resto.as_slice(), 0, n), Vec::new())
        },
    };
    assert(query@ == operacion_y_consulta(uri@).1);
    let params = parse_query(texto_de(query.as_slice()).as_str());
    Invocation {
        operation: texto_de(op.as_slice()),
        id: params.get(caracteres("id").as_slice()),
        keystore: params.get(caracteres("ks").as_slice()),
        keystore_lib: params.get(caracteres("ksl").as_slice()),
        single_cert: params.contains_key(caracteres("un").as_slice()),
        only_dnie: params.contains_key(caracteres("dn").as_slice()),
        only_sign: params.contains_key(caracteres("sf").as_slice()),
        no_expired: params.contains_key(caracteres("nc").as_slice()),
        filters: params.get(caracteres("fc").as_slice()),
        format: params.get(caracteres("format").as_slice()),
        algorithm: params.get(caracteres("algorithm").as_slice()),
        data: params.get(caracteres("dat").as_slice()),
    }
}

/// The prefix that marks an `id` of carFirma: `cfStr]<urlBase>]<id>`.
pub open spec fn prefijo_carfirma() -> Seq<char> {
    "cfStr]"@
}

/// The signing server that a carFirma `id` names.
pub open spec fn servidor_de_id(id: Seq<char>) -> Option<Seq<char>> {
    if !empieza_con(id, prefijo_carfirma()) {
        None
    } else {
        match (buscar_desde(id, seq![']'], 0), buscar_ultimo(id, seq![']'])) {
            (Some(first), Some(last)) => if last <= first + 1 {
                None
            } else {
                Some(id.subrange(first + 1, last))
            },
            _ => None,
        }
    }
}

/// The session that a carFirma `id` names; any other `id` names itself.
pub open spec fn sesion_de_id(id: Seq<char>) -> Option<Seq<char>> {
    if !empieza_con(id, prefijo_carfirma()) {
        Some(id)
    } else {
        match buscar_ultimo(id, seq![']']) {
            Some(last) => Some(id.subrange(last + 1, id.len() as int)),
            None => None,
        }
    }
}

proof fn lema_buscar_ultimo<T>(hay: Seq<T>, needle: Seq<T>, end: int)
    ensures
        buscar_antes_de_rango(hay, needle, end),
    decreases end,
{
    if end > 0 {
        lema_buscar_ultimo(hay, needle, end - 1);
    }
}

spec fn buscar_antes_de_rango<T>(hay: Seq<T>, needle: Seq<T>, end: int) -> bool {
    crate::texto::buscar_antes_de(hay, needle, end) matches Some(p) ==> 0 <= p < end && p
        + needle.len() <= hay.len() && hay.subrange(p, p + needle.len()) == needle
}

/// Extracts the URL of the signing server that a carFirma `id` carries.
/// Format: `cfStr]<urlBase>]<id>`.
pub fn url_base_from_id(id: &str) -> (r: Option<String>)
    ensures
        vista_opcional(r) == servidor_de_id(id@),
{
    let v = caracteres(id);
    let prefijo = caracteres("cfStr]");
    if !empieza_con_chars(v.as_slice(), prefijo.as_slice()) {
        return None;
    }
    let sep = [']'];
    assert(sep@ == seq![']']);
    proof {
        lema_buscar_desde(v@, seq![']'], 0);
        lema_buscar_ultimo(v@, seq![']'], v@.len() + 1int);
    }
    let first = match buscar_chars(v.as_slice(), sep.as_slice(), 0) {
        Some(p) => p,
        None => return None,
    };
    let last = match buscar_ultimo_chars(v.as_slice(), sep.as_slice()) {
        Some(p) => p,
        None => return None,
    };
    assert(first + 1 <= v.len());
    if last <= first + 1 {
        return None;
    }
    Some(texto_de(tramo(v.as_slice(), first + 1, last).as_slice()))
}

/// Extracts the real session identifier from a carFirma `id`; an `id`
/// without the carFirma prefix is returned as it is.
pub fn id_from_carfirma_string(id: &str) -> (r: Option<String>)
    ensures
        vista_opcional(r) == sesion_de_id(id@),
{
    let v = caracteres(id);
    let prefijo = caracteres("cfStr]");
    if !empieza_con_chars(v.as_slice(), prefijo.as_slice()) {
        return Some(texto_de(v.as_slice()));
    }
    let sep = [']'];
    assert(sep@ == seq![']']);
    proof {
        lema_buscar_ultimo(v@, seq![']'], v@.len() + 1int);
    }
    match buscar_ultimo_chars(v.as_slice(), sep.as_slice()) {
        Some(last) => {
            assert(last + 1 <= v.len());
            Some(texto_de(tramo(v.as_slice(), last + 1, v.len()).as_slice()))
        },
        None => None,
    }
}

/// What follows the opening quote of the value of field `clave` in a flat
/// JSON text: the text after `"clave"`, a colon and white space, when a
/// quote comes there.
pub open spec fn tras_clave(json: Seq<char>, clave: Seq<char>) -> Option<Seq<char>> {
    let needle = seq!['"'] + clave + seq!['"'];
    match buscar_desde(json, needle, 0) {
        None => None,
        Some(p) => {
            let start = p + needle.len();
            match buscar_desde(json.subrange(start, json.len() as int), seq![':'], 0) {
                None => None,
                Some(c) => {
                    let tras = sin_espacio_inicial(
                        json.subrange(start + c + 1, json.len() as int),
                    );
                    if tras.len() > 0 && tras[0] == '"' {
                        Some(tras.drop_first())
                    } else {
                        None
                    }
                },
            }
        },
    }
}

/// The string value of field `clave` in a flat JSON text: the characters
/// between the quotes that follow `"clave"`, a colon and white space.
pub open spec fn campo_json(json: Seq<char>, clave: Seq<char>) -> Option<Seq<char>> {
    match tras_clave(json, clave) {
        None => None,
        Some(resto) => match buscar_desde(resto, seq!['"'], 0) {
            Some(e) => Some(resto.subrange(0, e)),
            None => None,
        },
    }
}

/// What follows the opening quote of the value of field `clave`.
pub fn resto_tras_clave(json: &str, clave: &str) -> (r: Option<Vec<char>>)
    ensures
        match r {
            Some(v) => tras_clave(json@, clave@) == Some(v@),
            None => tras_clave(json@, clave@) is None,
        },
{
    let j = caracteres(json);
    let mut needle = vec!['"'];
    let k = caracteres(clave);
    let mut i: usize = 0;
    while i < k.len()
        invariant
            i <= k@.len(),
            needle@ == seq!['"'] + k@.subrange(0, i as int),
        decreases k@.len() - i,
    {
        needle.push(k[i]);
        i += 1;
        assert(needle@ =~= seq!['"'] + k@.subrange(0, i as int));
    }
    needle.push('"');
    assert(k@.subrange(0, k@.len() as int) =~= k@);
    assert(needle@ =~= seq!['"'] + clave@ + seq!['"']);
    proof {
        lema_buscar_desde(j@, needle@, 0);
    }
    let p = match buscar_chars(j.as_slice(), needle.as_slice(), 0) {
        Some(p) => p,
        None => return None,
    };
    assert(p + needle.len() <= j.len());
    let start = p + needle.len();
    let tail = tramo(j.as_slice(), start, j.len());
    let dos_puntos = [':'];
    assert(dos_puntos@ == seq![':']);
    proof {
        lema_buscar_desde(tail@, seq![':'], 0);
    }
    let c = match buscar_chars(tail.as_slice(), dos_puntos.as_slice(), 0) {
        Some(c) => c,
        None => return None,
    };
    let desde = start + c + 1;
    let tras0 = tramo(j.as_slice(), desde, j.len());
    let n = largo_espacio_inicial(tras0.as_slice());
    let tras = tramo(tras0.as_slice(), n, tras0.len());
    if tras.len() == 0 || tras[0] != '"' {
        return None;
    }
    let resto = tramo(tras.as_slice(), 1, tras.len());
    assert(resto@ =~= tras@.drop_first());
    Some(resto)
}

/// Extracts the value of a string field from a flat JSON text.
pub fn json_campo(json: &str, clave: &str) -> (r: Option<String>)
    ensures
        vista_opcional(r) == campo_json(json@, clave@),
{
    let resto = match resto_tras_clave(json, clave) {
        Some(v) => v,
        None => return None,
    };
    let comilla = ['"'];
    assert(comilla@ == seq!['"']);
    proof {
        lema_buscar_desde(resto@, seq!['"'], 0);
    }
    match buscar_chars(resto.as_slice(), comilla.as_slice(), 0) {
        Some(e) => Some(texto_de(tramo(resto.as_slice(), 0, e).as_slice())),
        None => None,
    }
}

/// A carFirma `id` made of the prefix `cfStr]`, a signing server, `]` and a
/// session without `]` names that server and that session.
pub proof fn ley_id_carfirma(base: Seq<char>, sesion: Seq<char>)
    requires
        base.len() > 0,
        forall|i: int| 0 <= i < sesion.len() ==> #[trigger] sesion[i] != ']',
    ensures
        servidor_de_id(prefijo_carfirma() + base + seq![']'] + sesion) == Some(base),
        sesion_de_id(prefijo_carfirma() + base + seq![']'] + sesion) == Some(sesion),
{
    reveal_strlit("cfStr]");
    let pre = prefijo_carfirma();
    let id = pre + base + seq![']'] + sesion;
    let c = seq![']'];
    assert(pre.len() == 6);
    assert(id.subrange(0, 6) =~= pre);
    assert forall|q: int| 0 <= q < 5 implies #[trigger] id.subrange(q, q + 1) != c by {
        assert(id.subrange(q, q + 1)[0] == pre[q]);
    }
    assert(id.subrange(5, 6) =~= c);
    crate::texto::lema_buscar_hasta(id, c, 0, 5);
    let last = (6 + base.len()) as int;
    assert(id.subrange(last, last + 1) =~= c);
    assert forall|q: int| last < q < id.len() + 1 && q + 1 <= id.len() implies #[trigger] id.subrange(
        q,
        q + 1,
    ) != c by {
        assert(id.subrange(q, q + 1)[0] == sesion[q - last - 1]);
    }
    crate::texto::lema_buscar_antes_hasta(id, c, id.len() + 1int, last);
    assert(id.subrange(6, last) =~= base);
    assert(id.subrange(last + 1, id.len() as int) =~= sesion);
}

/// A backward search from `end` finds an occurrence at or after any
/// occurrence that starts before `end`.
proof fn lema_antes_encuentra<T>(hay: Seq<T>, needle: Seq<T>, end: int, p: int)
    requires
        0 <= p < end,
        p + needle.len() <= hay.len(),
        hay.subrange(p, p + needle.len()) == needle,
    ensures
        crate::texto::buscar_antes_de(hay, needle, end) matches Some(q) && p <= q < end && q
            + needle.len() <= hay.len() && hay.subrange(q, q + needle.len()) == needle,
    decreases end,
{
    if !(end - 1 + needle.len() <= hay.len() && hay.subrange(end - 1, end - 1 + needle.len())
        == needle) {
        lema_antes_encuentra(hay, needle, end - 1, p);
    }
}

/// How a carFirma `id` is read: the session is always found (the whole
/// `id` when it lacks the prefix `cfStr]`, else what follows its last
/// `]`); the server is found exactly when the `id` has the prefix and its
/// last `]` stands at position 7 or later, and is then what lies between
/// the prefix and that `]`; and an `id` with a server is the prefix, the
/// server, `]` and the session, in that order.
pub proof fn ley_partes_id(id: Seq<char>)
    ensures
        sesion_de_id(id) is Some,
        servidor_de_id(id) == if empieza_con(id, prefijo_carfirma()) && buscar_ultimo(
            id,
            seq![']'],
        ) is Some && buscar_ultimo(id, seq![']'])->Some_0 >= 7 {
            Some(id.subrange(6, buscar_ultimo(id, seq![']'])->Some_0))
        } else {
            None::<Seq<char>>
        },
        servidor_de_id(id) matches Some(b) ==> id == prefijo_carfirma() + b + seq![']']
            + sesion_de_id(id)->Some_0,
{
    reveal_strlit("cfStr]");
    let pre = prefijo_carfirma();
    let c = seq![']'];
    assert(pre.len() == 6);
    if empieza_con(id, pre) {
        assert(id.subrange(0, 6) =~= pre);
        assert forall|q: int| 0 <= q < 5 implies #[trigger] id.subrange(q, q + 1) != c by {
            assert(id.subrange(q, q + 1)[0] == pre[q]);
        }
        assert(id[5] == id.subrange(0, 6)[5]);
        assert(pre[5] == ']');
        assert(id.subrange(5, 6) =~= c);
        crate::texto::lema_buscar_hasta(id, c, 0, 5);
        lema_antes_encuentra(id, c, id.len() + 1int, 5);
        let last = buscar_ultimo(id, c)->Some_0;
        if last > 6 {
            let b = id.subrange(6, last);
            let ses = id.subrange(last + 1, id.len() as int);
            assert(id.subrange(last, last + 1)[0] == ']');
            assert(id =~= pre + b + c + ses) by {
                assert forall|k: int| 0 <= k < id.len() implies #[trigger] id[k] == (pre + b + c
                    + ses)[k] by {
                    if k < 6 {
                        assert(id[k] == id.subrange(0, 6)[k]);
                    } else if k == last {
                        assert(id[k] == id.subrange(last, last + 1)[0]);
                    }
                }
            }
        }
    }
}

/// The first occurrence of `"clave"` in a text whose beginning `antes`
/// holds no quote is right after `antes`.
pub proof fn lema_clave_tras_prefijo(antes: Seq<char>, clave: Seq<char>, resto: Seq<char>)
    requires
        forall|i: int| 0 <= i < antes.len() ==> #[trigger] antes[i] != '"',
    ensures
        buscar_desde(antes + (seq!['"'] + clave + seq!['"']) + resto, seq!['"'] + clave + seq!['"'], 0)
            == Some(antes.len() as int),
{
    let needle = seq!['"'] + clave + seq!['"'];
    let body = antes + needle + resto;
    let n = needle.len() as int;
    let a = antes.len() as int;
    assert(body.subrange(a, a + n) =~= needle);
    assert forall|q: int| 0 <= q < a implies #[trigger] body.subrange(q, q + n) != needle by {
        assert(body.subrange(q, q + n)[0] == antes[q]);
    }
    crate::texto::lema_buscar_hasta(body, needle, 0, a);
}

/// A string field written as `"clave":"valor"` reads back with
/// `json_campo`, after any beginning without quotes (such as the `{` of an
/// object) and before anything, when the value has no quote.
pub proof fn ley_campo_json(antes: Seq<char>, clave: Seq<char>, valor: Seq<char>, resto: Seq<char>)
    requires
        forall|i: int| 0 <= i < antes.len() ==> #[trigger] antes[i] != '"',
        forall|i: int| 0 <= i < valor.len() ==> #[trigger] valor[i] != '"',
    ensures
        campo_json(
            antes + (seq!['"'] + clave + seq!['"']) + (seq![':', '"'] + valor + seq!['"'] + resto),
            clave,
        ) == Some(valor),
{
    let needle = seq!['"'] + clave + seq!['"'];
    let cola = seq![':', '"'] + valor + seq!['"'] + resto;
    let body = antes + needle + cola;
    lema_clave_tras_prefijo(antes, clave, cola);
    let start = (antes.len() + needle.len()) as int;
    let tail = body.subrange(start, body.len() as int);
    assert(tail =~= cola);
    assert(tail.subrange(0, 1) =~= seq![':']);
    crate::texto::lema_buscar_hasta(tail, seq![':'], 0, 0);
    let tras0 = body.subrange(start + 1, body.len() as int);
    assert(tras0 =~= seq!['"'] + valor + seq!['"'] + resto);
    assert(!crate::texto::es_espacio('"'));
    assert(sin_espacio_inicial(tras0) == tras0);
    let r = tras0.drop_first();
    assert(r =~= valor + seq!['"'] + resto);
    let v = valor.len() as int;
    assert(r.subrange(v, v + 1) =~= seq!['"']);
    assert forall|q: int| 0 <= q < v implies #[trigger] r.subrange(q, q + 1) != seq!['"'] by {
        assert(r.subrange(q, q + 1)[0] == valor[q]);
    }
    crate::texto::lema_buscar_hasta(r, seq!['"'], 0, v);
    assert(r.subrange(0, v) =~= valor);
}

/// Whether the query `q` has a parameter named `k`: some of its
/// `&`-separated pieces has the name `k` (the text before its first `=`,
/// or the whole piece when it has none).
pub open spec fn tiene_parametro(q: Seq<char>, k: Seq<char>) -> bool {
    q.len() > 0 && exists|i: int| 0 <= i < trozos(q, '&').len() && #[trigger] par_de(trozos(q, '&')[i]).0 == k
}

/// A key is among the parameters of some pieces exactly when one of the
/// pieces has that name.
proof fn lema_claves_de_piezas(ps: Seq<Seq<char>>, k: Seq<char>)
    ensures
        parametros_de(ps).dom().contains(k) <==> exists|i: int| 0 <= i < ps.len() && #[trigger] par_de(ps[i]).0 == k,
    decreases ps.len(),
{
    if ps.len() > 0 {
        let ini = ps.drop_last();
        lema_claves_de_piezas(ini, k);
        if exists|i: int| 0 <= i < ps.len() && #[trigger] par_de(ps[i]).0 == k {
            let i = choose|i: int| 0 <= i < ps.len() && #[trigger] par_de(ps[i]).0 == k;
            if i < ps.len() - 1 {
                assert(ini[i] == ps[i]);
            }
        }
        if exists|i: int| 0 <= i < ini.len() && #[trigger] par_de(ini[i]).0 == k {
            let i = choose|i: int| 0 <= i < ini.len() && #[trigger] par_de(ini[i]).0 == k;
            assert(ps[i] == ini[i]);
        }
    }
}

/// The flags of an invocation say which parameters its query has, each its
/// own: `single_cert` the parameter `un`, `only_dnie` the parameter `dn`,
/// `only_sign` the parameter `sf`, and `no_expired` the parameter `nc`.
pub proof fn ley_banderas(uri: Seq<char>)
    ensures
        invocacion_de(uri).single_cert == tiene_parametro(operacion_y_consulta(uri).1, "un"@),
        invocacion_de(uri).only_dnie == tiene_parametro(operacion_y_consulta(uri).1, "dn"@),
        invocacion_de(uri).only_sign == tiene_parametro(operacion_y_consulta(uri).1, "sf"@),
        invocacion_de(uri).no_expired == tiene_parametro(operacion_y_consulta(uri).1, "nc"@),
{
    let q = operacion_y_consulta(uri).1;
    lema_claves_de_piezas(trozos(q, '&'), "un"@);
    lema_claves_de_piezas(trozos(q, '&'), "dn"@);
    lema_claves_de_piezas(trozos(q, '&'), "sf"@);
    lema_claves_de_piezas(trozos(q, '&'), "nc"@);
}

/// A piece that is a name without `=`, or a name, `=` and a value, has that
/// name; so a query piece `sf` (or `sf=...`) is the parameter `sf`.
pub proof fn ley_nombre_de_pieza(k: Seq<char>, v: Seq<char>)
    requires
        forall|i: int| 0 <= i < k.len() ==> #[trigger] k[i] != '=',
    ensures
        par_de(k).0 == k,
        par_de(k + seq!['='] + v).0 == k,
{
    let e = seq!['='];
    crate::texto::lema_buscar_desde(k, e, 0);
    if let Some(p) = buscar_desde(k, e, 0) {
        assert(k.subrange(p, p + 1)[0] == k[p]);
    }
    let w = k + e + v;
    assert(w.subrange(k.len() as int, k.len() + 1int) =~= e);
    assert forall|q: int| 0 <= q < k.len() implies #[trigger] w.subrange(q, q + 1) != e by {
        assert(w.subrange(q, q + 1)[0] == k[q]);
    }
    crate::texto::lema_buscar_hasta(w, e, 0, k.len() as int);
    assert(w.subrange(0, k.len() as int) =~= k);
}

} // verus!
