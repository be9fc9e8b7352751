//! The distinguished encoding (DER) of the few ASN.1 values that the
//! time-stamp protocol and the signature attributes need, and the reading of
//! a DER element.

use vstd::prelude::*;

verus! {

/// The value of a big-endian sequence of bytes.
pub open spec fn valor_be(s: Seq<u8>) -> nat
    decreases s.len(),
{
    if s.len() == 0 {
        0
    } else {
        valor_be(s.drop_last()) * 256 + s.last() as nat
    }
}

/// The big-endian bytes of `n`, without leading zeros (none for zero).
pub open spec fn bytes_be(n: nat) -> Seq<u8>
    decreases n,
{
    if n == 0 {
        seq![]
    } else {
        bytes_be(n / 256).push((n % 256) as u8)
    }
}

/// The largest length that a DER length field may give here (256 MiB - 1).
pub open spec fn largo_maximo() -> nat {
    0x0fff_ffff
}

/// The DER length field of `n`: one byte below 128, else a byte `0x80 + k`
/// followed by the `k` big-endian bytes of `n`.
pub open spec fn largo_der(n: nat) -> Seq<u8> {
    if n < 128 {
        seq![n as u8]
    } else {
        seq![(0x80 + bytes_be(n).len()) as u8] + bytes_be(n)
    }
}

/// A DER element: its tag, its length field and its contents.
pub open spec fn tlv(etiqueta: u8, contenido: Seq<u8>) -> Seq<u8> {
    seq![etiqueta] + largo_der(contenido.len()) + contenido
}

/// The contents of the DER `INTEGER` of a non-negative `n`: its big-endian
/// bytes, with a leading zero where the first one has its high bit set.
pub open spec fn entero_der(n: nat) -> Seq<u8> {
    if n == 0 {
        seq![0u8]
    } else if bytes_be(n)[0] >= 0x80 {
        seq![0u8] + bytes_be(n)
    } else {
        bytes_be(n)
    }
}

/// Small big-endian numbers have at most four bytes, the first not zero.
pub proof fn lema_bytes_be(n: nat)
    ensures
        valor_be(bytes_be(n)) == n,
        n > 0 ==> bytes_be(n).len() > 0 && bytes_be(n)[0] != 0,
        n < 0x100 ==> bytes_be(n).len() <= 1,
        n < 0x10000 ==> bytes_be(n).len() <= 2,
        n < 0x1000000 ==> bytes_be(n).len() <= 3,
        n < 0x100000000 ==> bytes_be(n).len() <= 4,
        n >= 0x100 ==> bytes_be(n).len() >= 2,
        n >= 0x10000 ==> bytes_be(n).len() >= 3,
        n >= 0x1000000 ==> bytes_be(n).len() >= 4,
    decreases n,
{
    if n > 0 {
        lema_bytes_be(n / 256);
        let s = bytes_be(n);
        assert(s.drop_last() =~= bytes_be(n / 256));
        if n / 256 > 0 {
            assert(s[0] == bytes_be(n / 256)[0]);
        }
    }
}

/// Writes the DER length field of `n`.
pub fn codificar_largo(n: usize) -> (r: Vec<u8>)
    requires
        n <= largo_maximo(),
    ensures
        r@ == largo_der(n as nat),
        r@.len() <= 5,
{
    proof {
        lema_bytes_be(n as nat);
        lema_bytes_be(n as nat / 256);
        lema_bytes_be(n as nat / 65536);
        lema_bytes_be(n as nat / 16777216);
    }
    if n < 128 {
        return vec![n as u8];
    }
    let mut r: Vec<u8> = Vec::new();
    let b0 = (n % 256) as u8;
    let b1 = (n / 256 % 256) as u8;
    let b2 = (n / 65536 % 256) as u8;
    let b3 = (n / 16777216) as u8;
    if n < 0x100 {
        r.push(0x81);
        r.push(b0);
        assert(bytes_be(n as nat) =~= bytes_be(0).push(b0));
    } else if n < 0x10000 {
        r.push(0x82);
        r.push(b1);
        r.push(b0);
        assert(bytes_be(n as nat / 256) =~= bytes_be(0).push(b1));
        assert(bytes_be(n as nat) =~= seq![b1, b0]);
    } else if n < 0x1000000 {
        r.push(0x83);
        r.push(b2);
        r.push(b1);
        r.push(b0);
        assert(n as nat / 256 / 256 == n as nat / 65536);
        assert(bytes_be(n as nat / 65536) =~= bytes_be(0).push(b2));
        assert(bytes_be(n as nat / 256) =~= seq![b2, b1]);
        assert(bytes_be(n as nat) =~= seq![b2, b1, b0]);
    } else {
        r.push(0x84);
        r.push(b3);
        r.push(b2);
        r.push(b1);
        r.push(b0);
        assert(n as nat / 256 / 256 == n as nat / 65536);
        assert(n as nat / 65536 / 256 == n as nat / 16777216);
        assert(bytes_be(n as nat / 16777216) =~= bytes_be(0).push(b3));
        assert(bytes_be(n as nat / 65536) =~= seq![b3, b2]);
        assert(bytes_be(n as nat / 256) =~= seq![b3, b2, b1]);
        assert(bytes_be(n as nat) =~= seq![b3, b2, b1, b0]);
    }
    assert(r@ =~= largo_der(n as nat));
    r
}

/// Writes a DER element.
pub fn codificar_tlv(etiqueta: u8, contenido: &[u8]) -> (r: Vec<u8>)
    requires
        contenido@.len() <= largo_maximo(),
    ensures
        r@ == tlv(etiqueta, contenido@),
        r@.len() <= contenido@.len() + 6,
{
    let mut r: Vec<u8> = vec![etiqueta];
    let mut l = codificar_largo(contenido.len());
    r.append(&mut l);
    r.extend_from_slice(contenido);
    assert(r@ =~= tlv(etiqueta, contenido@));
    r
}

/// Whether the DER reader of the `der` crate accepts `t` as a tag byte: the
/// universal types it knows, and the application, context-specific and
/// private classes, with a tag number below 31.
pub open spec fn etiqueta_valida(t: u8) -> bool {
    &&& t % 32 != 31
    &&& {
        ||| 0x01 <= t <= 0x06
        ||| t == 0x09 || t == 0x0a || t == 0x0c
        ||| 0x12 <= t <= 0x18
        ||| t == 0x1a || t == 0x1e || t == 0x30 || t == 0x31
        ||| 0x40 <= t <= 0x7e
        ||| 0x80 <= t <= 0xbe
        ||| 0xc0 <= t <= 0xfe
    }
}

/// Reads a DER length field at `i`: the length and where the contents
/// start. Refused: the indefinite form, more than four length bytes, a
/// length that could be written shorter, and one above `largo_maximo()`.
pub open spec fn leer_largo(b: Seq<u8>, i: int) -> Option<(nat, int)> {
    if !(0 <= i < b.len()) {
        None
    } else if b[i] < 0x80 {
        Some((b[i] as nat, i + 1))
    } else if 0x81 <= b[i] <= 0x84 {
        let k = b[i] - 0x80;
        if i + 1 + k > b.len() {
            None
        } else {
            let s = b.subrange(i + 1, i + 1 + k);
            let v = valor_be(s);
            if s[0] != 0 && 0x80 <= v <= largo_maximo() {
                Some((v, i + 1 + k))
            } else {
                None
            }
        }
    } else {
        None
    }
}

/// Reads the DER element at `i`: its tag, where its contents start and where
/// it ends, if it lies within `b`.
pub open spec fn leer_tlv(b: Seq<u8>, i: int) -> Option<(u8, int, int)> {
    if !(0 <= i < b.len()) || !etiqueta_valida(b[i]) {
        None
    } else {
        match leer_largo(b, i + 1) {
            None => None,
            Some((n, j)) => if j + n <= b.len() {
                Some((b[i], j, j + n))
            } else {
                None
            },
        }
    }
}

fn es_etiqueta_valida(t: u8) -> (r: bool)
    ensures
        r == etiqueta_valida(t),
{
    t % 32 != 31 && ((0x01 <= t && t <= 0x06) || t == 0x09 || t == 0x0a || t == 0x0c || (0x12
        <= t && t <= 0x18) || t == 0x1a || t == 0x1e || t == 0x30 || t == 0x31 || (0x40 <= t && t
        <= 0x7e) || (0x80 <= t && t <= 0xbe) || (0xc0 <= t && t <= 0xfe))
}

/// Reads a DER length field.
pub fn leer_largo_en(b: &[u8], i: usize) -> (r: Option<(usize, usize)>)
    ensures
        match r {
            Some((n, j)) => leer_largo(b@, i as int) == Some((n as nat, j as int)),
            None => leer_largo(b@, i as int) is None,
        },
{
    if i >= b.len() {
        return None;
    }
    let c = b[i];
    if c < 0x80 {
        return Some((c as usize, i + 1));
    }
    if c < 0x81 || c > 0x84 {
        return None;
    }
    let k = (c - 0x80) as usize;
    if k > b.len() - i - 1 {
        return None;
    }
    let ghost s = b@.subrange(i + 1, i + 1 + k);
    let mut v: u64 = 0;
    let mut m: usize = 0;
    while m < k
        invariant
            m <= k <= 4,
            i < b.len(),
            i + 1 + k <= b.len(),
            s == b@.subrange(i + 1, i + 1 + k),
            v == valor_be(s.subrange(0, m as int)),
            v < pow256(m as nat),
        decreases k - m,
    {
        assert(s.subrange(0, m + 1).drop_last() =~= s.subrange(0, m as int));
        proof {
            lema_pow256(m as nat);
        }
        v = v * 256 + b[i + 1 + m] as u64;
        m += 1;
    }
    assert(s.subrange(0, k as int) =~= s);
    if b[i + 1] != 0 && 0x80 <= v && v <= 0x0fff_ffff {
        Some((v as usize, i + 1 + k))
    } else {
        None
    }
}

/// 256 to the power `m`.
pub open spec fn pow256(m: nat) -> nat
    decreases m,
{
    if m == 0 {
        1
    } else {
        256 * pow256((m - 1) as nat)
    }
}

proof fn lema_pow256(m: nat)
    requires
        m <= 3,
    ensures
        pow256(m + 1) == 256 * pow256(m),
        pow256(m + 1) <= 0x100000000,
{
    reveal_with_fuel(pow256, 5);
}

/// Reads the DER element at `i`.
pub fn leer_tlv_en(b: &[u8], i: usize) -> (r: Option<(u8, usize, usize)>)
    ensures
        match r {
            Some((t, a, e)) => leer_tlv(b@, i as int) == Some((t, a as int, e as int)),
            None => leer_tlv(b@, i as int) is None,
        },
{
    if i >= b.len() || !es_etiqueta_valida(b[i]) {
        return None;
    }
    match leer_largo_en(b, i + 1) {
        None => None,
        Some((n, j)) => {
            if n <= b.len() - j {
                Some((b[i], j, j + n))
            } else {
                None
            }
        },
    }
}

/// The number of the canonical contents of a DER `INTEGER` that the `der`
/// crate reads as a `u32`: non-negative, without a superfluous leading zero,
/// and below 2^32.
pub open spec fn entero_u32(v: Seq<u8>) -> Option<u32> {
    if v.len() == 0 || v[0] >= 0x80 || (v.len() >= 2 && v[0] == 0 && v[1] < 0x80) {
        None
    } else if valor_be(v) > u32::MAX {
        None
    } else {
        Some(valor_be(v) as u32)
    }
}

proof fn lema_valor_be_crece(s: Seq<u8>, m: int)
    requires
        0 <= m <= s.len(),
    ensures
        valor_be(s.subrange(0, m)) <= valor_be(s),
    decreases s.len() - m,
{
    if m < s.len() {
        lema_valor_be_crece(s, m + 1);
        let t = s.subrange(0, m + 1);
        assert(t.drop_last() =~= s.subrange(0, m));
        assert(valor_be(t) == valor_be(t.drop_last()) * 256 + t.last() as nat);
    } else {
        assert(s.subrange(0, m) =~= s);
    }
}

/// Reads the contents of a DER `INTEGER` as a `u32`.
pub fn leer_entero_u32(v: &[u8]) -> (r: Option<u32>)
    ensures
        r == entero_u32(v@),
{
    if v.len() == 0 || v[0] >= 0x80 || (v.len() >= 2 && v[0] == 0 && v[1] < 0x80) {
        return None;
    }
    let mut n: u64 = 0;
    let mut m: usize = 0;
    while m < v.len()
        invariant
            m <= v@.len(),
            n == valor_be(v@.subrange(0, m as int)),
            n <= u32::MAX,
        decreases v@.len() - m,
    {
        assert(v@.subrange(0, m + 1).drop_last() =~= v@.subrange(0, m as int));
        n = n * 256 + v[m] as u64;
        m += 1;
        if n > 0xffff_ffff {
            proof {
                lema_valor_be_crece(v@, m as int);
            }
            return None;
        }
    }
    assert(v@.subrange(0, v@.len() as int) =~= v@);
    Some(n as u32)
}

} // verus!

verus! {

/// A leading zero byte does not change a big-endian value.
pub proof fn lema_valor_be_cero(s: Seq<u8>)
    ensures
        valor_be(seq![0u8] + s) == valor_be(s),
    decreases s.len(),
{
    if s.len() > 0 {
        lema_valor_be_cero(s.drop_last());
        assert((seq![0u8] + s).drop_last() =~= seq![0u8] + s.drop_last());
    } else {
        assert((seq![0u8] + s).drop_last() =~= s);
    }
}

/// The DER `INTEGER` written for a number below 2^32 reads back as it.
pub proof fn lema_entero_u32(n: nat)
    requires
        n <= u32::MAX,
    ensures
        entero_u32(entero_der(n)) == Some(n as u32),
{
    lema_bytes_be(n);
    if n > 0 && bytes_be(n)[0] >= 0x80 {
        lema_valor_be_cero(bytes_be(n));
    }
    if n == 0 {
        assert(valor_be(seq![0u8]) == valor_be(seq![0u8].drop_last()) * 256);
        assert(seq![0u8].drop_last() =~= Seq::<u8>::empty());
    }
}

/// The length field written for `n` reads back as `n`, whatever follows it.
pub proof fn lema_leer_largo(x: Seq<u8>, n: nat, y: Seq<u8>)
    requires
        n <= largo_maximo(),
    ensures
        leer_largo(x + largo_der(n) + y, x.len() as int) == Some(
            (n, (x.len() + largo_der(n).len()) as int),
        ),
{
    let b = x + largo_der(n) + y;
    let i = x.len() as int;
    lema_bytes_be(n);
    if n < 128 {
        assert(b[i] == n as u8);
    } else {
        let k = bytes_be(n).len();
        assert(b[i] == (0x80 + k) as u8);
        assert(b.subrange(i + 1, i + 1 + k) =~= bytes_be(n));
    }
}

/// A DER element written with a tag that the reader accepts reads back as
/// the tag, its contents and its end, whatever surrounds it.
pub proof fn lema_leer_tlv(x: Seq<u8>, t: u8, c: Seq<u8>, y: Seq<u8>)
    requires
        etiqueta_valida(t),
        c.len() <= largo_maximo(),
    ensures
        leer_tlv(x + tlv(t, c) + y, x.len() as int) == Some(
            (
                t,
                (x.len() + 1 + largo_der(c.len()).len()) as int,
                (x.len() + tlv(t, c).len()) as int,
            ),
        ),
{
    let b = x + tlv(t, c) + y;
    assert(b =~= (x + seq![t]) + largo_der(c.len()) + (c + y));
    lema_leer_largo(x + seq![t], c.len(), c + y);
    assert(b[x.len() as int] == t);
}

} // verus!

verus! {

/// Reading an element does not depend on what comes before it.
pub proof fn lema_desplazar_tlv(p: Seq<u8>, b: Seq<u8>, i: int)
    requires
        0 <= i,
    ensures
        match leer_tlv(b, i) {
            Some((t, a, e)) => leer_tlv(p + b, p.len() + i) == Some(
                (t, p.len() + a, p.len() + e),
            ),
            None => leer_tlv(p + b, p.len() + i) is None,
        },
{
    let q = p + b;
    let d = p.len() as int;
    if i < b.len() {
        assert(q[d + i] == b[i]);
        if i + 1 < b.len() {
            assert(q[d + i + 1] == b[i + 1]);
            let c = b[i + 1];
            if 0x81 <= c <= 0x84 {
                let k = c - 0x80;
                if i + 2 + k <= b.len() {
                    assert(q.subrange(d + i + 2, d + i + 2 + k) =~= b.subrange(i + 2, i + 2 + k));
                }
            }
        }
    }
}

} // verus!
