//! Reading back a signed PDF: what the signature's writer puts in the
//! document, the reader finds again.

use vstd::prelude::*;
use vstd::utf8::{decode_utf8, encode_utf8, valid_utf8};
use crate::codificacion::{bytes_de_hex, digito_hex, hex_de};
use crate::numeros::{
    ascii_texto, decimal, decimal_relleno, es_digito, lema_leer_decimal, leer_usize,
    valor_chars, valor_decimal,
};
use crate::protocol::{byte_hex, valor_hex};
use crate::texto::{es_espacio, palabra_inicial, palabras};
use crate::validate::{acumular_largo, recorte_der, Recorte};

verus! {

/// ASCII bytes are valid UTF-8 and decode to the characters of the same
/// codes.
pub proof fn lema_ascii_utf8(s: Seq<u8>)
    requires
        forall|i: int| 0 <= i < s.len() ==> #[trigger] s[i] < 128,
    ensures
        valid_utf8(s),
        decode_utf8(s) == ascii_texto(s),
{
    let c = ascii_texto(s);
    assert(vstd::utf8::is_ascii_chars(c)) by {
        assert forall|i: int| 0 <= i < c.len() implies '\0' <= #[trigger] c[i] <= '\u{7f}' by {
            assert(c[i] == s[i] as char);
        }
    }
    vstd::utf8::is_ascii_chars_encode_utf8(c);
    assert(encode_utf8(c) =~= s) by {
        assert forall|i: int| 0 <= i < s.len() implies #[trigger] encode_utf8(c)[i] == s[i] by {
            assert(c[i] as u8 == encode_utf8(c)[i]);
            assert(c[i] == s[i] as char);
        }
    }
    vstd::utf8::encode_utf8_valid_utf8(c);
    vstd::utf8::encode_utf8_decode_utf8(c);
}

/// The first word of a run of non-space characters followed by a space (or
/// by nothing) is that run.
pub proof fn lema_palabra_inicial_de(d: Seq<char>, resto: Seq<char>)
    requires
        forall|i: int| 0 <= i < d.len() ==> !es_espacio(#[trigger] d[i]),
        resto.len() == 0 || es_espacio(resto[0]),
    ensures
        palabra_inicial(d + resto) == d,
    decreases d.len(),
{
    if d.len() > 0 {
        assert((d + resto).drop_first() =~= d.drop_first() + resto);
        lema_palabra_inicial_de(d.drop_first(), resto);
        assert(seq![d[0]] + d.drop_first() =~= d);
    } else {
        assert(d + resto =~= resto);
    }
}

/// The words of a non-space run followed by a space and more text.
pub proof fn lema_palabras_de(d: Seq<char>, resto: Seq<char>)
    requires
        d.len() > 0,
        forall|i: int| 0 <= i < d.len() ==> !es_espacio(#[trigger] d[i]),
    ensures
        palabras(d + seq![' '] + resto) == seq![d] + palabras(resto),
        palabras(d) == seq![d],
{
    let s = d + seq![' '] + resto;
    lema_palabra_inicial_de(d, seq![' '] + resto);
    assert(s =~= d + (seq![' '] + resto));
    assert(!es_espacio(s[0]));
    crate::texto::lema_palabra_inicial(s);
    let t = s.subrange(d.len() as int, s.len() as int);
    assert(t =~= seq![' '] + resto);
    assert(es_espacio(t[0]));
    assert(t.drop_first() =~= resto);
    assert(palabras(t) == palabras(t.drop_first()));
    assert(palabra_inicial(s) == d);
    assert(palabras(s) == seq![d] + palabras(t));
    lema_palabra_inicial_de(d, Seq::empty());
    assert(d + Seq::<char>::empty() =~= d);
    assert(d.subrange(d.len() as int, d.len() as int) =~= Seq::<char>::empty());
    assert(palabras(Seq::<char>::empty()) == Seq::<Seq<char>>::empty());
    assert(!es_espacio(d[0]));
}

/// The value of digit characters is the value of their bytes.
pub proof fn lema_valor_chars(s: Seq<u8>)
    requires
        forall|i: int| 0 <= i < s.len() ==> es_digito(#[trigger] s[i]),
    ensures
        valor_chars(ascii_texto(s)) == valor_decimal(s),
    decreases s.len(),
{
    if s.len() > 0 {
        lema_valor_chars(s.drop_last());
        assert(ascii_texto(s).drop_last() =~= ascii_texto(s.drop_last()));
        assert(ascii_texto(s).last() == s.last() as char);
    }
}

/// Leading zeros do not change the value of a numeral.
pub proof fn lema_ceros_delante(k: nat, d: Seq<u8>)
    ensures
        valor_decimal(Seq::new(k, |i: int| 0x30u8) + d) == valor_decimal(d),
    decreases d.len(),
{
    let z = Seq::new(k, |i: int| 0x30u8);
    if d.len() > 0 {
        lema_ceros_delante(k, d.drop_last());
        assert((z + d).drop_last() =~= z + d.drop_last());
    } else {
        assert(z + d =~= z);
        lema_ceros(k);
    }
}

proof fn lema_ceros(k: nat)
    ensures
        valor_decimal(Seq::new(k, |i: int| 0x30u8)) == 0,
    decreases k,
{
    if k > 0 {
        lema_ceros((k - 1) as nat);
        assert(Seq::new(k, |i: int| 0x30u8).drop_last() =~= Seq::new(
            (k - 1) as nat,
            |i: int| 0x30u8,
        ));
    }
}

/// A number below 10^10, written with ten digits, reads back as itself.
pub proof fn lema_leer_relleno(n: nat)
    requires
        n < 10_000_000_000,
        n <= usize::MAX,
    ensures
        decimal_relleno(n, 10).len() == 10,
        forall|i: int| 0 <= i < 10 ==> es_digito(#[trigger] decimal_relleno(n, 10)[i]),
        leer_usize(ascii_texto(decimal_relleno(n, 10))) == Some(n as usize),
{
    lema_leer_decimal(n);
    assert(crate::numeros::potencia10(10) == 10_000_000_000nat) by {
        reveal_with_fuel(crate::numeros::potencia10, 11);
    }
    crate::numeros::lema_largo_decimal_acotado(n, 10);
    let d = decimal(n);
    let r = decimal_relleno(n, 10);
    let k = (10 - d.len()) as nat;
    assert(r =~= Seq::new(k, |i: int| 0x30u8) + d);
    assert forall|i: int| 0 <= i < 10 implies es_digito(#[trigger] r[i]) by {
        if i >= k {
            assert(r[i] == d[i - k]);
        }
    }
    lema_ceros_delante(k, d);
    lema_valor_chars(r);
    let w = ascii_texto(r);
    assert(w[0] == r[0] as char);
    assert(crate::numeros::cifras_usize(w) == w);
    assert(crate::numeros::solo_digitos(w)) by {
        assert forall|i: int| 0 <= i < w.len() implies '0' <= #[trigger] w[i] <= '9' by {
            assert(w[i] == r[i] as char);
            assert(es_digito(r[i]));
        }
    }
}

/// Reading a hexadecimal text gives back the bytes it was written from.
pub proof fn lema_hex_ida_vuelta(d: Seq<u8>)
    ensures
        bytes_de_hex(hex_de(d)) == Some(d),
        hex_de(d).len() == 2 * d.len(),
        forall|i: int| 0 <= i < hex_de(d).len() ==> #[trigger] hex_de(d)[i] != 0x3e,
    decreases d.len(),
{
    if d.len() > 0 {
        let p = d.drop_last();
        lema_hex_ida_vuelta(p);
        let b = d.last();
        let h = hex_de(d);
        let hi = digito_hex((b / 16) as nat);
        let lo = digito_hex((b % 16) as nat);
        assert(h =~= hex_de(p) + seq![hi, lo]);
        assert(h.subrange(0, h.len() - 2) =~= hex_de(p));
        assert(valor_hex(hi) == Some((b / 16) as u8));
        assert(valor_hex(lo) == Some((b % 16) as u8));
        assert(byte_hex(hi, lo) == Some(b));
        assert(p.push(b) =~= d);
        assert forall|i: int| 0 <= i < h.len() implies #[trigger] h[i] != 0x3e by {
            if i < hex_de(p).len() {
                assert(h[i] == hex_de(p)[i]);
            }
        }
    }
}

/// `k` zero bytes.
pub open spec fn bytes_cero(k: nat) -> Seq<u8> {
    Seq::new(k, |i: int| 0u8)
}

/// Reading a hexadecimal text followed by `2k` zero digits gives the bytes
/// followed by `k` zero bytes.
pub proof fn lema_hex_con_ceros(d: Seq<u8>, k: nat)
    ensures
        bytes_de_hex(hex_de(d) + Seq::new(2 * k, |i: int| 0x30u8)) == Some(d + bytes_cero(k)),
    decreases k,
{
    lema_hex_ida_vuelta(d);
    let z = Seq::new(2 * k, |i: int| 0x30u8);
    let t = hex_de(d) + z;
    if k == 0 {
        assert(t =~= hex_de(d));
        assert(d + bytes_cero(0) =~= d);
    } else {
        lema_hex_con_ceros(d, (k - 1) as nat);
        assert(t.subrange(0, t.len() - 2) =~= hex_de(d) + Seq::new(
            2 * ((k - 1) as nat),
            |i: int| 0x30u8,
        ));
        assert(t[t.len() - 2] == 0x30u8);
        assert(t[t.len() - 1] == 0x30u8);
        assert(byte_hex(0x30u8, 0x30u8) == Some(0u8));
        assert((d + bytes_cero((k - 1) as nat)).push(0u8) =~= d + bytes_cero(k));
    }
}

/// The length bytes of a DER header read the same whatever follows them.
proof fn lema_acumular_igual(a: Seq<u8>, b: Seq<u8>)
    requires
        a == b,
    ensures
        acumular_largo(a) == acumular_largo(b),
{
}

/// A DER SEQUENCE whose header gives exactly its length is still found when
/// bytes follow it.
pub proof fn lema_recorte_con_cola(x: Seq<u8>, y: Seq<u8>)
    requires
        recorte_der(x) == Recorte::Prefijo(x.len() as int),
    ensures
        recorte_der(x + y) == Recorte::Prefijo(x.len() as int),
{
    let z = x + y;
    assert(z[0] == x[0]);
    assert(z[1] == x[1]);
    if x[1] >= 0x80 {
        let n = x[1] - 0x80;
        assert(z.subrange(2, 2 + n) =~= x.subrange(2, 2 + n));
        lema_acumular_igual(z.subrange(2, 2 + n), x.subrange(2, 2 + n));
    }
}

/// The text of a byte range of numbers below 10^10: 43 bytes, digits and
/// spaces, whose four words read back as the numbers.
pub proof fn lema_texto_rango(r: Seq<int>)
    requires
        r.len() == 4,
        forall|i: int| 0 <= i < 4 ==> 0 <= #[trigger] r[i] < 10_000_000_000 && r[i] <= usize::MAX,
    ensures
        crate::pades::texto_rango(r).len() == 43,
        forall|i: int|
            0 <= i < 43 ==> es_digito(#[trigger] crate::pades::texto_rango(r)[i])
                || crate::pades::texto_rango(r)[i] == 0x20,
        valid_utf8(crate::pades::texto_rango(r)),
        palabras(decode_utf8(crate::pades::texto_rango(r))).len() == 4,
        forall|i: int|
            0 <= i < 4 ==> leer_usize(#[trigger] palabras(decode_utf8(crate::pades::texto_rango(r)))[i])
                == Some(r[i] as usize),
{
    let t = crate::pades::texto_rango(r);
    let d0 = decimal_relleno(r[0] as nat, 10);
    let d1 = decimal_relleno(r[1] as nat, 10);
    let d2 = decimal_relleno(r[2] as nat, 10);
    let d3 = decimal_relleno(r[3] as nat, 10);
    assert(0 <= r[0] < 10_000_000_000 && r[0] <= usize::MAX);
    assert(0 <= r[1] < 10_000_000_000 && r[1] <= usize::MAX);
    assert(0 <= r[2] < 10_000_000_000 && r[2] <= usize::MAX);
    assert(0 <= r[3] < 10_000_000_000 && r[3] <= usize::MAX);
    lema_leer_relleno(r[0] as nat);
    lema_leer_relleno(r[1] as nat);
    lema_leer_relleno(r[2] as nat);
    lema_leer_relleno(r[3] as nat);
    let sp = seq![0x20u8];
    assert(t =~= d0 + sp + d1 + sp + d2 + sp + d3);
    assert forall|i: int| 0 <= i < 43 implies es_digito(#[trigger] t[i]) || t[i] == 0x20 by {
        if i < 10 {
            assert(t[i] == d0[i]);
        } else if i == 10 {
        } else if i < 21 {
            assert(t[i] == d1[i - 11]);
        } else if i == 21 {
        } else if i < 32 {
            assert(t[i] == d2[i - 22]);
        } else if i == 32 {
        } else {
            assert(t[i] == d3[i - 33]);
        }
    }
    lema_ascii_utf8(t);
    let c0 = ascii_texto(d0);
    let c1 = ascii_texto(d1);
    let c2 = ascii_texto(d2);
    let c3 = ascii_texto(d3);
    assert(ascii_texto(t) =~= c0 + seq![' '] + c1 + seq![' '] + c2 + seq![' '] + c3);
    assert forall|i: int| 0 <= i < c0.len() implies !es_espacio(#[trigger] c0[i]) by {
        assert(c0[i] == d0[i] as char);
    }
    assert forall|i: int| 0 <= i < c1.len() implies !es_espacio(#[trigger] c1[i]) by {
        assert(c1[i] == d1[i] as char);
    }
    assert forall|i: int| 0 <= i < c2.len() implies !es_espacio(#[trigger] c2[i]) by {
        assert(c2[i] == d2[i] as char);
    }
    assert forall|i: int| 0 <= i < c3.len() implies !es_espacio(#[trigger] c3[i]) by {
        assert(c3[i] == d3[i] as char);
    }
    lema_palabras_de(c3, Seq::empty());
    lema_palabras_de(c2, c3);
    lema_palabras_de(c1, c2 + seq![' '] + c3);
    lema_palabras_de(c0, c1 + seq![' '] + c2 + seq![' '] + c3);
    assert(c0 + seq![' '] + c1 + seq![' '] + c2 + seq![' '] + c3 =~= c0 + seq![' '] + (c1
        + seq![' '] + c2 + seq![' '] + c3));
    assert(c1 + seq![' '] + c2 + seq![' '] + c3 =~= c1 + seq![' '] + (c2 + seq![' '] + c3));
    let ws = palabras(ascii_texto(t));
    assert(ws =~= seq![c0, c1, c2, c3]);
}

/// The bytes around the room of the signature: the placeholder of the byte
/// range starts with the key and ends with `] /Contents <`, and what closes
/// the signature dictionary starts with `>`.
pub proof fn lema_marcador()
    ensures
        crate::pades::marcador_rango().len() == 68,
        crate::pades::marcador_rango().subrange(0, 12) == crate::pades::clave_rango(),
        crate::pades::clave_rango().len() == 12,
        crate::pades::marcador_rango()[55] == 0x5du8,
        crate::pades::marcador_rango()[67] == 0x3cu8,
        crate::pades::cierre_firma().len() == 12,
        crate::pades::cierre_firma()[0] == 0x3eu8,
        forall|i: int| 0 <= i < 12 ==> #[trigger] crate::pades::clave_rango()[i] != 0x0a
            && !es_digito(crate::pades::clave_rango()[i]),
{
    reveal_strlit("/ByteRange [0000000000 0000000000 0000000000 0000000000] /Contents <");
    reveal_strlit("/ByteRange [");
    reveal_strlit("> >>\nendobj\n");
    let m = crate::pades::marcador_rango();
    let k = crate::pades::clave_rango();
    assert(m.subrange(0, 12) =~= k);
}

/// The signed document, position by position: the update up to the byte
/// range, the byte range, `] /Contents <`, the hexadecimal signature, the
/// zeros that fill the room, and `>`; outside the room, the prepared
/// document.
pub proof fn lema_forma(pdf: Seq<u8>, a: crate::pades::Anclas, cms: Seq<u8>)
    requires
        crate::pades::actualizacion(pdf, a).len() < 10_000_000_000,
        crate::pades::actualizacion(pdf, a).len() <= usize::MAX,
        2 * cms.len() <= crate::pades::CONTENTS_CAPACITY,
    ensures
        ({
            let u = crate::pades::actualizacion(pdf, a);
            let p = crate::pades::preparado(pdf, a);
            let f = crate::pades::firmado_con(pdf, a, cms);
            let p0 = (crate::pades::con_salto(pdf).len() + crate::pades::texto_firma(a.max + 1).len()) as int;
            let start = p0 + 12;
            let h = crate::pades::inicio_hex(pdf, a) as int;
            let rr = crate::pades::texto_rango(crate::pades::rango_de(pdf, a));
            &&& h == p0 + 68
            &&& f.len() == u.len() && p.len() == u.len()
            &&& h + 16384 + 12 <= u.len()
            &&& f.subrange(0, start) == u.subrange(0, start)
            &&& rr.len() == 43
            &&& f.subrange(start, start + 43) == rr
            &&& f[start + 43] == 0x5du8
            &&& f[h - 1] == 0x3cu8
            &&& f.subrange(h, h + 2 * cms.len()) == hex_de(cms)
            &&& forall|i: int| h + 2 * cms.len() <= i < h + 16384 ==> #[trigger] f[i] == 0x30u8
            &&& f[h + 16384] == 0x3eu8
            &&& f.subrange(0, h - 1) == p.subrange(0, h - 1)
            &&& f.subrange(h + 16385, f.len() as int) == p.subrange(h + 16385, p.len() as int)
        }),
{
    let u = crate::pades::actualizacion(pdf, a);
    let p = crate::pades::preparado(pdf, a);
    let f = crate::pades::firmado_con(pdf, a, cms);
    let sg = crate::pades::con_salto(pdf);
    let t = crate::pades::texto_firma(a.max + 1);
    let m = crate::pades::marcador_rango();
    let z = crate::pades::ceros(crate::pades::CONTENTS_CAPACITY as nat);
    let c = crate::pades::cierre_firma();
    let cola = crate::pades::cola(pdf, a);
    let p0 = (sg.len() + t.len()) as int;
    let start = p0 + 12;
    let h = p0 + 68;
    lema_marcador();
    reveal(crate::pades::bloque_firma);
    assert(u =~= sg + t + m + z + c + cola);
    assert(u.len() == sg.len() + t.len() + 68 + 16384 + 12 + cola.len());
    let r = crate::pades::rango_de(pdf, a);
    assert(crate::pades::inicio_hex(pdf, a) == h);
    assert forall|i: int| 0 <= i < 4 implies 0 <= #[trigger] r[i] < 10_000_000_000 && r[i]
        <= usize::MAX by {}
    lema_texto_rango(r);
    let rr = crate::pades::texto_rango(r);
    assert(p =~= u.subrange(0, start) + rr + u.subrange(start + 43, u.len() as int));
    let hx = hex_de(cms);
    lema_hex_ida_vuelta(cms);
    assert(f =~= p.subrange(0, h) + hx + p.subrange(h + hx.len(), p.len() as int));
    assert(f.subrange(0, start) =~= u.subrange(0, start));
    assert(f.subrange(start, start + 43) =~= rr);
    assert(f[start + 43] == m[55]);
    assert(f[h - 1] == m[67]);
    assert(f.subrange(h, h + 2 * cms.len()) =~= hx);
    assert forall|i: int| h + 2 * cms.len() <= i < h + 16384 implies #[trigger] f[i] == 0x30u8 by {
        assert(f[i] == u[i]);
        assert(u[i] == z[i - h]);
    }
    assert(f[h + 16384] == c[0]);
    assert(f.subrange(0, h - 1) =~= p.subrange(0, h - 1));
    assert(f.subrange(h + 16385, f.len() as int) =~= p.subrange(h + 16385, p.len() as int));
}

/// In the signed document, the first byte range key is the one of the new
/// signature, when the document had none.
pub proof fn lema_clave_encontrada(pdf: Seq<u8>, a: crate::pades::Anclas, cms: Seq<u8>)
    requires
        crate::texto::buscar_desde(pdf, crate::pades::clave_rango(), 0) is None,
        crate::pades::actualizacion(pdf, a).len() < 10_000_000_000,
        crate::pades::actualizacion(pdf, a).len() <= usize::MAX,
        2 * cms.len() <= crate::pades::CONTENTS_CAPACITY,
    ensures
        crate::texto::buscar_desde(crate::pades::firmado_con(pdf, a, cms), crate::pades::clave_rango(), 0)
            == Some((crate::pades::con_salto(pdf).len() + crate::pades::texto_firma(a.max + 1).len()) as int),
{
    let u = crate::pades::actualizacion(pdf, a);
    let f = crate::pades::firmado_con(pdf, a, cms);
    let sg = crate::pades::con_salto(pdf);
    let sig = a.max + 1;
    let t = crate::pades::texto_firma(sig);
    let b = crate::pades::bloque_firma(sig);
    let k = crate::pades::clave_rango();
    let cola = crate::pades::cola(pdf, a);
    let p0 = (sg.len() + t.len()) as int;
    lema_forma(pdf, a, cms);
    lema_marcador();
    crate::pades::lema_clave_en_bloque(sig);
    crate::texto::lema_buscar_desde(pdf, k, 0);
    assert(u =~= sg + b + cola);
    crate::numeros::lema_leer_decimal(sig);
    assert(b[0] == t[0]) by {
        reveal(crate::pades::bloque_firma);
    }
    assert(t[0] == decimal(sig)[0]);
    assert forall|q: int| 0 <= q < p0 implies #[trigger] f.subrange(q, q + 12) != k by {
        assert(f.subrange(q, q + 12) =~= u.subrange(q, q + 12)) by {
            assert(f.subrange(0, p0 + 12).subrange(q, q + 12) =~= f.subrange(q, q + 12));
            assert(u.subrange(0, p0 + 12).subrange(q, q + 12) =~= u.subrange(q, q + 12));
        }
        if q >= sg.len() {
            let q2 = q - sg.len();
            assert(u.subrange(q, q + 12) =~= b.subrange(q2, q2 + 12));
        } else if q + 12 <= pdf.len() {
            assert(u.subrange(q, q + 12) =~= pdf.subrange(q, q + 12));
        } else {
            let i = pdf.len() as int;
            let w = u.subrange(q, q + 12);
            assert(w[i - q] == u[i]);
            if sg.len() > pdf.len() {
                assert(u[i] == 0x0au8);
            } else {
                assert(u[i] == b[0]);
                assert(es_digito(decimal(sig)[0]));
            }
            assert(k[i - q] != 0x0a && !es_digito(k[i - q]));
        }
    }
    assert(f.subrange(p0, p0 + 12) =~= b.subrange(t.len() as int, (t.len() + 12) as int)) by {
        assert(f.subrange(0, p0 + 12).subrange(p0, p0 + 12) =~= f.subrange(p0, p0 + 12));
        assert(u.subrange(0, p0 + 12).subrange(p0, p0 + 12) =~= u.subrange(p0, p0 + 12));
        assert(u.subrange(p0, p0 + 12) =~= b.subrange(t.len() as int, (t.len() + 12) as int));
    }
    crate::texto::lema_buscar_hasta(f, k, 0, p0);
}

/// The bytes of the prepared document that the byte range covers: all but
/// the hexadecimal `/Contents` and its angle brackets.
pub open spec fn cubierto(pdf: Seq<u8>, a: crate::pades::Anclas) -> Seq<u8> {
    let p = crate::pades::preparado(pdf, a);
    let r = crate::pades::rango_de(pdf, a);
    p.subrange(r[0], r[0] + r[1]) + p.subrange(r[2], r[2] + r[3])
}

/// What `/Contents` holds, read back.
proof fn lema_hueco(pdf: Seq<u8>, a: crate::pades::Anclas, cms: Seq<u8>)
    requires
        crate::pades::actualizacion(pdf, a).len() < 10_000_000_000,
        crate::pades::actualizacion(pdf, a).len() <= usize::MAX,
        2 * cms.len() <= crate::pades::CONTENTS_CAPACITY,
        recorte_der(cms) == Recorte::Prefijo(cms.len() as int),
    ensures
        ({
            let f = crate::pades::firmado_con(pdf, a, cms);
            let h = crate::pades::inicio_hex(pdf, a) as int;
            crate::pades::extraccion_de_hueco(f.subrange(h - 1, h + 16385))
                == crate::pades::Extraccion::Datos(Seq::empty(), cms)
        }),
{
    let f = crate::pades::firmado_con(pdf, a, cms);
    let h = crate::pades::inicio_hex(pdf, a) as int;
    lema_forma(pdf, a, cms);
    lema_hex_ida_vuelta(cms);
    let n = cms.len();
    let hole = f.subrange(h - 1, h + 16385);
    let k = ((16384 - 2 * n) / 2) as nat;
    assert(2 * k == 16384 - 2 * n);
    let z = Seq::new(2 * k, |i: int| 0x30u8);
    assert(hole[0] == 0x3cu8);
    assert(hole.subrange(0, 1) =~= seq![0x3cu8]);
    crate::texto::lema_buscar_hasta(hole, seq![0x3cu8], 0, 0);
    assert forall|q: int| 0 <= q < 16385 implies #[trigger] hole.subrange(q, q + 1) != seq![0x3eu8] by {
        assert(hole.subrange(q, q + 1)[0] == hole[q]);
        if q == 0 {
        } else if q <= 2 * n {
            assert(hole[q] == f[h - 1 + q]);
            assert(f[h - 1 + q] == f.subrange(h, h + 2 * n)[q - 1]);
        } else {
            assert(hole[q] == f[h - 1 + q]);
        }
    }
    assert(hole.subrange(16385, 16386) =~= seq![0x3eu8]);
    crate::texto::lema_buscar_hasta(hole, seq![0x3eu8], 0, 16385);
    assert(hole.subrange(1, 16385) =~= hex_de(cms) + z) by {
        assert forall|i: int| 0 <= i < 16384 implies #[trigger] hole.subrange(1, 16385)[i] == (
        hex_de(cms) + z)[i] by {
            if i < 2 * n {
                assert(hole.subrange(1, 16385)[i] == f[h + i]);
                assert(f[h + i] == f.subrange(h, h + 2 * n)[i]);
            } else {
                assert(hole.subrange(1, 16385)[i] == f[h + i]);
            }
        }
    }
    lema_hex_con_ceros(cms, k);
    lema_recorte_con_cola(cms, bytes_cero(k));
    assert((cms + bytes_cero(k)).subrange(0, n as int) =~= cms);
}

/// A signed document reads back: the first byte range in it is the one
/// that the signature wrote, the bytes it covers are those of the prepared
/// document whose digest was signed, and the signature in `/Contents` is
/// the CMS that was embedded. This holds for documents that had no byte
/// range yet, of less than 10 GB, and for a CMS that fits in the room and
/// whose DER header gives its length.
pub proof fn ley_firma_legible(pdf: Seq<u8>, a: crate::pades::Anclas, cms: Seq<u8>)
    requires
        crate::pades::anclas_de(pdf) == Ok::<crate::pades::Anclas, Seq<char>>(a),
        crate::texto::buscar_desde(pdf, crate::pades::clave_rango(), 0) is None,
        crate::pades::actualizacion(pdf, a).len() < 10_000_000_000,
        crate::pades::actualizacion(pdf, a).len() <= usize::MAX,
        2 * cms.len() <= crate::pades::CONTENTS_CAPACITY,
        recorte_der(cms) == Recorte::Prefijo(cms.len() as int),
    ensures
        crate::pades::extraccion(crate::pades::firmado_con(pdf, a, cms))
            == crate::pades::Extraccion::Datos(cubierto(pdf, a), cms),
{
    let u = crate::pades::actualizacion(pdf, a);
    let p = crate::pades::preparado(pdf, a);
    let f = crate::pades::firmado_con(pdf, a, cms);
    let p0 = (crate::pades::con_salto(pdf).len() + crate::pades::texto_firma(a.max + 1).len()) as int;
    let start = p0 + 12;
    let h = crate::pades::inicio_hex(pdf, a) as int;
    let r = crate::pades::rango_de(pdf, a);
    let rr = crate::pades::texto_rango(r);
    lema_forma(pdf, a, cms);
    lema_marcador();
    lema_clave_encontrada(pdf, a, cms);
    assert forall|i: int| 0 <= i < 4 implies 0 <= #[trigger] r[i] < 10_000_000_000 && r[i]
        <= usize::MAX by {}
    lema_texto_rango(r);
    let len = f.len() as int;
    let tail = f.subrange(start, len);
    assert forall|q: int| 0 <= q < 43 implies #[trigger] tail.subrange(q, q + 1) != seq![0x5du8] by {
        assert(tail.subrange(q, q + 1)[0] == rr[q]);
    }
    assert(tail.subrange(43, 44) =~= seq![0x5du8]);
    crate::texto::lema_buscar_hasta(tail, seq![0x5du8], 0, 43);
    let texto = f.subrange(start, start + 43);
    assert(texto == rr);
    let ws = palabras(decode_utf8(rr));
    assert(!(exists|i: int| 0 <= i < ws.len() && #[trigger] leer_usize(ws[i]) is None));
    assert(crate::pades::numeros_rango(ws) == (r[0], r[1], r[2], r[3]));
    lema_hueco(pdf, a, cms);
    assert(f.subrange(r[0], r[0] + r[1]) =~= p.subrange(r[0], r[0] + r[1])) by {
        assert(f.subrange(0, h - 1) == p.subrange(0, h - 1));
    }
    assert(f.subrange(r[2], r[2] + r[3]) =~= p.subrange(r[2], r[2] + r[3])) by {
        assert(f.subrange(h + 16385, f.len() as int) == p.subrange(h + 16385, p.len() as int));
    }
}

/// Signing appends to the document and changes nothing in it: the signed
/// document starts with the original bytes (an incremental update).
pub proof fn ley_actualizacion_incremental(pdf: Seq<u8>, a: crate::pades::Anclas, cms: Seq<u8>)
    requires
        crate::pades::actualizacion(pdf, a).len() < 10_000_000_000,
        crate::pades::actualizacion(pdf, a).len() <= usize::MAX,
        2 * cms.len() <= crate::pades::CONTENTS_CAPACITY,
    ensures
        crate::pades::firmado_con(pdf, a, cms).subrange(0, pdf.len() as int) == pdf,
{
    let u = crate::pades::actualizacion(pdf, a);
    let f = crate::pades::firmado_con(pdf, a, cms);
    let sg = crate::pades::con_salto(pdf);
    let start = (sg.len() + crate::pades::texto_firma(a.max + 1).len() + 12) as int;
    lema_forma(pdf, a, cms);
    assert(u.subrange(0, pdf.len() as int) =~= pdf);
    assert(f.subrange(0, pdf.len() as int) =~= f.subrange(0, start).subrange(0, pdf.len() as int));
    assert(u.subrange(0, pdf.len() as int) =~= u.subrange(0, start).subrange(0, pdf.len() as int));
}

/// The prepared document starts with the original bytes; its room for the
/// signature is `<`, 16384 zero digits and `>`; and its byte range covers
/// everything else.
pub proof fn ley_documento_preparado(pdf: Seq<u8>, a: crate::pades::Anclas)
    requires
        crate::pades::actualizacion(pdf, a).len() < 10_000_000_000,
        crate::pades::actualizacion(pdf, a).len() <= usize::MAX,
    ensures
        ({
            let p = crate::pades::preparado(pdf, a);
            let h = crate::pades::inicio_hex(pdf, a) as int;
            let r = crate::pades::rango_de(pdf, a);
            &&& p.subrange(0, pdf.len() as int) == pdf
            &&& pdf.len() < h
            &&& r == seq![0, h - 1, h + 16385, p.len() - (h + 16385)]
            &&& p[h - 1] == 0x3cu8
            &&& forall|i: int| h <= i < h + 16384 ==> #[trigger] p[i] == 0x30u8
            &&& p[h + 16384] == 0x3eu8
            &&& cubierto(pdf, a) == p.subrange(0, h - 1) + p.subrange(h + 16385, p.len() as int)
        }),
{
    let vacio = Seq::<u8>::empty();
    assert(hex_de(vacio) =~= vacio);
    let p = crate::pades::preparado(pdf, a);
    lema_forma(pdf, a, vacio);
    assert(crate::pades::firmado_con(pdf, a, vacio) =~= p);
    ley_actualizacion_incremental(pdf, a, vacio);
}

/// The signed document holds the bytes that the signature covers unchanged:
/// the two parts of its byte range are the covered bytes of the prepared
/// document.
pub proof fn ley_firma_conserva_cubierto(pdf: Seq<u8>, a: crate::pades::Anclas, cms: Seq<u8>)
    requires
        crate::pades::actualizacion(pdf, a).len() < 10_000_000_000,
        crate::pades::actualizacion(pdf, a).len() <= usize::MAX,
        2 * cms.len() <= crate::pades::CONTENTS_CAPACITY,
    ensures
        ({
            let f = crate::pades::firmado_con(pdf, a, cms);
            let r = crate::pades::rango_de(pdf, a);
            &&& f.len() == crate::pades::preparado(pdf, a).len()
            &&& f.subrange(r[0], r[0] + r[1]) + f.subrange(r[2], r[2] + r[3]) == cubierto(pdf, a)
        }),
{
    let f = crate::pades::firmado_con(pdf, a, cms);
    let p = crate::pades::preparado(pdf, a);
    let r = crate::pades::rango_de(pdf, a);
    let h = crate::pades::inicio_hex(pdf, a) as int;
    lema_forma(pdf, a, cms);
    assert(f.subrange(r[0], r[0] + r[1]) =~= p.subrange(r[0], r[0] + r[1])) by {
        assert(f.subrange(0, h - 1) == p.subrange(0, h - 1));
    }
    assert(f.subrange(r[2], r[2] + r[3]) =~= p.subrange(r[2], r[2] + r[3])) by {
        assert(f.subrange(h + 16385, f.len() as int) == p.subrange(h + 16385, p.len() as int));
    }
}

/// What `pades::sign` gives back reads back: whenever the signed document is
/// the prepared one with a CMS that fits and whose header gives its length
/// embedded (as `pades::sign` promises), the reader finds that CMS and the
/// covered bytes of the prepared document.
pub proof fn ley_firmar_y_leer(pdf: Seq<u8>, a: crate::pades::Anclas, firmado: Seq<u8>)
    requires
        crate::pades::anclas_de(pdf) == Ok::<crate::pades::Anclas, Seq<char>>(a),
        crate::texto::buscar_desde(pdf, crate::pades::clave_rango(), 0) is None,
        crate::pades::actualizacion(pdf, a).len() < 10_000_000_000,
        crate::pades::actualizacion(pdf, a).len() <= usize::MAX,
        exists|cms: Seq<u8>|
            2 * cms.len() <= crate::pades::CONTENTS_CAPACITY && firmado
                == #[trigger] crate::pades::firmado_con(pdf, a, cms) && recorte_der(cms)
                == Recorte::Prefijo(cms.len() as int),
    ensures
        crate::pades::extraccion(firmado) matches crate::pades::Extraccion::Datos(content, cms)
            && content == cubierto(pdf, a) && firmado == crate::pades::firmado_con(pdf, a, cms),
{
    let cms = choose|cms: Seq<u8>|
        2 * cms.len() <= crate::pades::CONTENTS_CAPACITY && firmado
            == #[trigger] crate::pades::firmado_con(pdf, a, cms) && recorte_der(cms)
            == Recorte::Prefijo(cms.len() as int);
    ley_firma_legible(pdf, a, cms);
}

/// Signing a document and validating it: for a document without a byte
/// range yet, signed by an identity without chain whose certificate
/// carries its public key, the reader finds the CMS that was embedded and
/// the covered bytes, and validation of those bytes names the signer and
/// finds digest and signature valid. Validation of that CMS against any
/// other content matches its digest exactly when the content has the
/// SHA-256 digest of the covered bytes, so a changed document whose covered
/// bytes have another digest is refused.
pub proof fn ley_firmar_y_verificar_pdf(
    pdf: Seq<u8>,
    a: crate::pades::Anclas,
    otro: Seq<u8>,
    im: crate::keystore::IdentidadModelo,
)
    requires
        crate::pades::anclas_de(pdf) == Ok::<crate::pades::Anclas, Seq<char>>(a),
        crate::texto::buscar_desde(pdf, crate::pades::clave_rango(), 0) is None,
        crate::pades::actualizacion(pdf, a).len() < 10_000_000_000,
        crate::pades::actualizacion(pdf, a).len() <= usize::MAX,
        2 * crate::pades::cms_pades(pdf, a, im).len() <= crate::pades::CONTENTS_CAPACITY,
        recorte_der(crate::pades::cms_pades(pdf, a, im)) == Recorte::Prefijo(
            crate::pades::cms_pades(pdf, a, im).len() as int,
        ),
        crate::firma_cms::firma_legible(
            crate::pades::cms_pades(pdf, a, im),
            crate::firma_cms::resumen_sha256(cubierto(pdf, a)),
            im,
        ),
        crate::firma_cms::resumen_sha256(cubierto(pdf, a)).len() == 32,
        im.chain.len() == 0,
        crate::firma_cms::der_de_certificado(im.cert) is Some,
        crate::firma_cms::pareja(im.clave, crate::firma_cms::der_de_certificado(im.cert)->Some_0),
    ensures
        crate::pades::extraccion(
            crate::pades::firmado_con(pdf, a, crate::pades::cms_pades(pdf, a, im)),
        ) == crate::pades::Extraccion::Datos(cubierto(pdf, a), crate::pades::cms_pades(pdf, a, im)),
        crate::validate::validacion(cubierto(pdf, a), crate::pades::cms_pades(pdf, a, im))
            == Ok::<(Option<Seq<char>>, bool, bool), Seq<char>>(
            (
                crate::keystore::nombre_comun_cert(
                    crate::firma_cms::der_de_certificado(im.cert)->Some_0,
                ),
                true,
                true,
            ),
        ),
        crate::validate::validacion(otro, crate::pades::cms_pades(pdf, a, im)) == Ok::<
            (Option<Seq<char>>, bool, bool),
            Seq<char>,
        >(
            (
                crate::keystore::nombre_comun_cert(
                    crate::firma_cms::der_de_certificado(im.cert)->Some_0,
                ),
                crate::firma_cms::resumen_sha256(cubierto(pdf, a))
                    == crate::firma_cms::resumen_sha256(otro),
                true,
            ),
        ),
{
    let cms = crate::pades::cms_pades(pdf, a, im);
    let d = crate::firma_cms::resumen_sha256(cubierto(pdf, a));
    ley_firma_legible(pdf, a, cms);
    crate::firma_cms::ley_verificar_lo_firmado(cms, cubierto(pdf, a), d, im.clave, im.cert);
    crate::firma_cms::ley_verificar_lo_firmado(cms, otro, d, im.clave, im.cert);
}

/// The text that ends the update: `/Prev`, `startxref` and the offset of
/// the new cross-reference section.
pub open spec fn fin_de_trailer(prev: nat, xref: nat) -> Seq<u8> {
    crate::numeros::bytes_ascii(" 0 R /Prev "@) + decimal(prev) + crate::numeros::bytes_ascii(
        " >>\nstartxref\n"@,
    ) + decimal(xref) + crate::numeros::bytes_ascii("\n%%EOF\n"@)
}

/// Where the new cross-reference section stands in the update, and how
/// the update ends.
proof fn lema_cola_trailer(pdf: Seq<u8>, a: crate::pades::Anclas)
    ensures
        ({
            let u = crate::pades::actualizacion(pdf, a);
            let ox = crate::pades::desplazamientos(pdf, a).4;
            let fin = fin_de_trailer(a.prev, ox);
            &&& ox >= crate::pades::con_salto(pdf).len() + crate::pades::bloque_firma(a.max + 1).len()
            &&& ox + 5 <= u.len()
            &&& u.subrange(ox as int, ox + 5int) == crate::numeros::bytes_ascii("xref\n"@)
            &&& fin.len() <= u.len()
            &&& u.subrange(u.len() - fin.len(), u.len() as int) == fin
        }),
{
    reveal(crate::pades::texto_trailer);
    reveal_strlit("xref\n");
    let (o1, o2, o3, o4, ox) = crate::pades::desplazamientos(pdf, a);
    let u = crate::pades::actualizacion(pdf, a);
    let sg = crate::pades::con_salto(pdf);
    let b = crate::pades::bloque_firma(a.max + 1);
    let catalog = a.max + 4;
    let an = crate::pades::texto_anotacion(a.max + 2, a.max + 1, a.page);
    let ac = crate::pades::texto_acroform(a.max + 3, a.max + 2);
    let ca = crate::pades::texto_catalogo(catalog, a.pages, a.max + 3);
    let xr = crate::numeros::bytes_ascii("xref\n"@);
    let es = crate::pades::entrada_xref(a.max + 1, o1) + crate::pades::entrada_xref(a.max + 2, o2)
        + crate::pades::entrada_xref(a.max + 3, o3) + crate::pades::entrada_xref(catalog, o4);
    let fin = fin_de_trailer(a.prev, ox);
    let tr0 = crate::numeros::bytes_ascii("trailer\n<< /Size "@) + decimal(catalog + 1)
        + crate::numeros::bytes_ascii(" /Root "@) + decimal(catalog);
    assert(crate::pades::texto_trailer(catalog, a.prev, ox) =~= tr0 + fin);
    let antes = sg + b + an + ac + ca;
    assert(u =~= antes + xr + (es + tr0) + fin);
    assert(ox == antes.len());
    assert(xr.len() == 5);
    assert(u.subrange(ox as int, ox + 5int) =~= xr);
    assert(u.subrange(u.len() - fin.len(), u.len() as int) =~= fin);
}

/// After the signature dictionary, the signed document is the update.
proof fn lema_firmado_tras_firma(pdf: Seq<u8>, a: crate::pades::Anclas, cms: Seq<u8>)
    requires
        crate::pades::actualizacion(pdf, a).len() < 10_000_000_000,
        crate::pades::actualizacion(pdf, a).len() <= usize::MAX,
        2 * cms.len() <= crate::pades::CONTENTS_CAPACITY,
    ensures
        ({
            let u = crate::pades::actualizacion(pdf, a);
            let f = crate::pades::firmado_con(pdf, a, cms);
            let e = crate::pades::con_salto(pdf).len() + crate::pades::bloque_firma(a.max + 1).len();
            &&& f.len() == u.len()
            &&& e <= u.len()
            &&& forall|i: int| e <= i < u.len() ==> #[trigger] f[i] == u[i]
        }),
{
    let u = crate::pades::actualizacion(pdf, a);
    let p = crate::pades::preparado(pdf, a);
    let f = crate::pades::firmado_con(pdf, a, cms);
    lema_forma(pdf, a, cms);
    lema_marcador();
    reveal(crate::pades::bloque_firma);
    let sg = crate::pades::con_salto(pdf);
    let t = crate::pades::texto_firma(a.max + 1);
    let b = crate::pades::bloque_firma(a.max + 1);
    assert(b.len() == t.len() + 68 + 16384 + 12);
    let h = crate::pades::inicio_hex(pdf, a) as int;
    assert(h == sg.len() + t.len() + 68);
    let start = (sg.len() + t.len() + 12) as int;
    let rr = crate::pades::texto_rango(crate::pades::rango_de(pdf, a));
    let e = sg.len() + b.len();
    assert forall|i: int| e <= i < u.len() implies #[trigger] f[i] == u[i] by {
        assert(f[i] == f.subrange(h + 16385, f.len() as int)[i - h - 16385]);
        assert(p[i] == p.subrange(h + 16385, p.len() as int)[i - h - 16385]);
        assert(p[i] == u[i]);
    }
}

/// The update keeps the document's cross-reference chain: the signed
/// document ends with a trailer whose `/Prev` is the offset written after
/// the last `startxref` of the original document, followed by `startxref`
/// and the offset of the new cross-reference section, which lies after the
/// original bytes and starts with `xref`.
pub proof fn ley_trailer_enlaza(pdf: Seq<u8>, a: crate::pades::Anclas, cms: Seq<u8>)
    requires
        crate::pades::anclas_de(pdf) == Ok::<crate::pades::Anclas, Seq<char>>(a),
        crate::pades::actualizacion(pdf, a).len() < 10_000_000_000,
        crate::pades::actualizacion(pdf, a).len() <= usize::MAX,
        2 * cms.len() <= crate::pades::CONTENTS_CAPACITY,
    ensures
        crate::pades::startxref_de(pdf) is Ok,
        exists|x: nat|
            {
                let f = crate::pades::firmado_con(pdf, a, cms);
                let fin = #[trigger] fin_de_trailer(crate::pades::startxref_de(pdf)->Ok_0 as nat, x);
                &&& pdf.len() < x
                &&& x + 5 <= f.len()
                &&& f.subrange(x as int, x + 5int) == crate::numeros::bytes_ascii("xref\n"@)
                &&& fin.len() <= f.len()
                &&& f.subrange(f.len() - fin.len(), f.len() as int) == fin
            },
{
    let u = crate::pades::actualizacion(pdf, a);
    let f = crate::pades::firmado_con(pdf, a, cms);
    let ox = crate::pades::desplazamientos(pdf, a).4;
    lema_cola_trailer(pdf, a);
    lema_firmado_tras_firma(pdf, a, cms);
    let fin = fin_de_trailer(a.prev, ox);
    let e = crate::pades::con_salto(pdf).len() + crate::pades::bloque_firma(a.max + 1).len();
    assert(crate::pades::con_salto(pdf).len() >= pdf.len());
    assert(crate::pades::bloque_firma(a.max + 1).len() > 0) by {
        reveal(crate::pades::bloque_firma);
    }
    assert(f.subrange(ox as int, ox + 5int) =~= u.subrange(ox as int, ox + 5int));
    let n = f.len() as int;
    assert(fin.len() <= n - e) by {
        reveal(crate::pades::texto_trailer);
    }
    assert(f.subrange(n - fin.len(), n) =~= u.subrange(n - fin.len(), n));
    assert(a.prev == crate::pades::startxref_de(pdf)->Ok_0 as nat);
}

} // verus!
