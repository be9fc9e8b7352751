//! Decimal numerals: writing numbers as ASCII digits and reading them back.

use vstd::prelude::*;

verus! {

/// The ASCII digit of a value below ten.
pub open spec fn digito(d: nat) -> u8 {
    (0x30 + d) as u8
}

/// The decimal numeral of `n`, without leading zeros.
pub open spec fn decimal(n: nat) -> Seq<u8>
    decreases n,
{
    if n < 10 {
        seq![digito(n)]
    } else {
        decimal(n / 10).push(digito(n % 10))
    }
}

/// The decimal numeral of `n`, padded on the left with zeros to at least
/// `ancho` digits.
pub open spec fn decimal_relleno(n: nat, ancho: nat) -> Seq<u8> {
    let d = decimal(n);
    if d.len() < ancho {
        Seq::new((ancho - d.len()) as nat, |i: int| 0x30u8) + d
    } else {
        d
    }
}

/// Whether `b` is an ASCII digit.
pub open spec fn es_digito(b: u8) -> bool {
    0x30 <= b <= 0x39
}

/// The value of a sequence of ASCII digits.
pub open spec fn valor_decimal(s: Seq<u8>) -> nat
    decreases s.len(),
{
    if s.len() == 0 {
        0
    } else {
        valor_decimal(s.drop_last()) * 10 + (s.last() - 0x30) as nat
    }
}

/// The number that `str::parse::<u32>` reads from a sequence of ASCII digits:
/// none for an empty sequence or a value above `u32::MAX`.
pub open spec fn leer_u32(s: Seq<u8>) -> Option<u32> {
    if s.len() == 0 || valor_decimal(s) > u32::MAX {
        None
    } else {
        Some(valor_decimal(s) as u32)
    }
}

/// Writes `n` in decimal.
pub fn escribir_decimal(n: u64) -> (r: Vec<u8>)
    ensures
        r@ == decimal(n as nat),
        forall|i: int| 0 <= i < r@.len() ==> es_digito(#[trigger] r@[i]),
    decreases n,
{
    if n < 10 {
        let r = vec![(0x30 + n) as u8];
        assert(r@ =~= seq![digito(n as nat)]);
        r
    } else {
        let mut r = escribir_decimal(n / 10);
        r.push((0x30 + n % 10) as u8);
        r
    }
}

/// Writes `n` in decimal, padded on the left with zeros to at least `ancho`
/// digits.
pub fn escribir_decimal_relleno(n: u64, ancho: usize) -> (r: Vec<u8>)
    ensures
        r@ == decimal_relleno(n as nat, ancho as nat),
{
    let d = escribir_decimal(n);
    if d.len() < ancho {
        let mut r: Vec<u8> = Vec::new();
        let ceros = ancho - d.len();
        let mut i: usize = 0;
        while i < ceros
            invariant
                i <= ceros,
                r@ == Seq::new(i as nat, |j: int| 0x30u8),
            decreases ceros - i,
        {
            r.push(0x30);
            i += 1;
            assert(r@ =~= Seq::new(i as nat, |j: int| 0x30u8));
        }
        let mut d2 = d;
        r.append(&mut d2);
        r
    } else {
        d
    }
}

/// Reads a sequence of ASCII digits as a `u32`, as `str::parse::<u32>` does.
pub fn leer_digitos_u32(s: &[u8]) -> (r: Option<u32>)
    requires
        forall|i: int| 0 <= i < s@.len() ==> es_digito(#[trigger] s@[i]),
    ensures
        r == leer_u32(s@),
{
    if s.len() == 0 {
        return None;
    }
    let mut v: u64 = 0;
    let mut i: usize = 0;
    while i < s.len()
        invariant
            0 < s@.len(),
            i <= s@.len(),
            forall|j: int| 0 <= j < s@.len() ==> es_digito(#[trigger] s@[j]),
            v == valor_decimal(s@.subrange(0, i as int)),
            v <= u32::MAX,
        decreases s@.len() - i,
    {
        let d = (s[i] - 0x30) as u64;
        assert(s@.subrange(0, i + 1).drop_last() =~= s@.subrange(0, i as int));
        let nv = v * 10 + d;
        if nv > u32::MAX as u64 {
            proof {
                lema_valor_decimal_crece(s@, (i + 1) as int);
            }
            return None;
        }
        v = nv;
        i += 1;
    }
    assert(s@.subrange(0, s@.len() as int) =~= s@);
    Some(v as u32)
}

/// Reading more digits never lowers the value.
proof fn lema_valor_decimal_crece(s: Seq<u8>, k: int)
    requires
        0 <= k <= s.len(),
        forall|i: int| 0 <= i < s.len() ==> es_digito(#[trigger] s[i]),
    ensures
        valor_decimal(s) >= valor_decimal(s.subrange(0, k)),
    decreases s.len() - k,
{
    if k < s.len() {
        lema_valor_decimal_crece(s, k + 1);
        assert(s.subrange(0, k + 1).drop_last() =~= s.subrange(0, k));
    } else {
        assert(s.subrange(0, k) =~= s);
    }
}

/// Reading the decimal numeral of `n` gives back `n`.
pub proof fn lema_leer_decimal(n: nat)
    ensures
        valor_decimal(decimal(n)) == n,
        forall|i: int| 0 <= i < decimal(n).len() ==> es_digito(#[trigger] decimal(n)[i]),
        decimal(n).len() > 0,
    decreases n,
{
    if n >= 10 {
        lema_leer_decimal(n / 10);
        let d = decimal(n);
        assert(d.drop_last() =~= decimal(n / 10));
        assert(d.last() == digito(n % 10));
        assert(n % 10 < 10);
        assert((d.last() - 0x30) as nat == n % 10);
        assert(n == (n / 10) * 10 + n % 10);
        assert(valor_decimal(d) == valor_decimal(decimal(n / 10)) * 10 + (d.last() - 0x30) as nat);
        assert forall|i: int| 0 <= i < d.len() implies es_digito(#[trigger] d[i]) by {
            if i < d.len() - 1 {
                assert(d[i] == decimal(n / 10)[i]);
            }
        }
    } else {
        let d = decimal(n);
        assert(d.drop_last() =~= Seq::<u8>::empty());
        assert(valor_decimal(d.drop_last()) == 0);
        assert(d.last() == digito(n));
        assert(valor_decimal(d) == valor_decimal(d.drop_last()) * 10 + (d.last() - 0x30) as nat);
    }
}


/// The characters of an ASCII byte sequence.
pub open spec fn ascii_texto(s: Seq<u8>) -> Seq<char> {
    s.map_values(|b: u8| b as char)
}

/// The decimal numeral of an integer, with a leading `-` when negative.
pub open spec fn entero_decimal(n: int) -> Seq<u8> {
    if n < 0 {
        seq![0x2du8] + decimal((-n) as nat)
    } else {
        decimal(n as nat)
    }
}

/// The characters of an ASCII byte sequence.
pub fn texto_ascii(s: &[u8]) -> (r: String)
    ensures
        r@ == ascii_texto(s@),
{
    let mut cs: Vec<char> = Vec::new();
    let mut i: usize = 0;
    while i < s.len()
        invariant
            i <= s@.len(),
            cs@ == ascii_texto(s@.subrange(0, i as int)),
        decreases s@.len() - i,
    {
        cs.push(s[i] as char);
        i += 1;
        assert(cs@ =~= ascii_texto(s@.subrange(0, i as int)));
    }
    assert(s@.subrange(0, s@.len() as int) =~= s@);
    crate::texto::texto_de(cs.as_slice())
}

/// Writes an integer in decimal, as `format!("{}", n)` does.
pub fn escribir_entero(n: i64) -> (r: Vec<u8>)
    ensures
        r@ == entero_decimal(n as int),
{
    if n < 0 {
        let m: u64 = if n == i64::MIN {
            9223372036854775808u64
        } else {
            (-n) as u64
        };
        let mut r = vec![0x2du8];
        let mut d = escribir_decimal(m);
        r.append(&mut d);
        r
    } else {
        escribir_decimal(n as u64)
    }
}


/// The bytes of an ASCII text.
pub open spec fn bytes_ascii(s: Seq<char>) -> Seq<u8> {
    s.map_values(|c: char| c as u8)
}

/// The bytes of an ASCII text.
pub fn ascii(s: &str) -> (r: &[u8])
    requires
        vstd::utf8::is_ascii_chars(s@),
    ensures
        r@ == bytes_ascii(s@),
{
    proof {
        vstd::utf8::is_ascii_chars_encode_utf8(s@);
    }
    let r = s.as_bytes();
    assert(r@ =~= bytes_ascii(s@));
    r
}


/// Ten to the power `k`.
pub open spec fn potencia10(k: nat) -> nat
    decreases k,
{
    if k == 0 {
        1
    } else {
        10 * potencia10((k - 1) as nat)
    }
}

/// A number below `10^k` has at most `k` digits.
pub proof fn lema_largo_decimal_acotado(n: nat, k: nat)
    requires
        k >= 1,
        n < potencia10(k),
    ensures
        decimal(n).len() <= k,
    decreases k,
{
    if n >= 10 {
        if k == 1 {
            assert(potencia10(1) == 10 * potencia10(0));
        } else {
            assert(potencia10(k) == 10 * potencia10((k - 1) as nat));
            assert(n / 10 < potencia10((k - 1) as nat));
            lema_largo_decimal_acotado(n / 10, (k - 1) as nat);
        }
    }
}

/// A 64-bit number has at most twenty digits, and at least ten when padded.
pub proof fn lema_largo_decimal_u64(n: nat)
    requires
        n <= u64::MAX,
    ensures
        decimal(n).len() <= 20,
        decimal_relleno(n, 10).len() <= 20,
{
    reveal_with_fuel(potencia10, 21);
    assert(potencia10(20) == 100000000000000000000nat);
    lema_largo_decimal_acotado(n, 20);
}


/// The value of a sequence of decimal digit characters.
pub open spec fn valor_chars(s: Seq<char>) -> nat
    decreases s.len(),
{
    if s.len() == 0 {
        0
    } else {
        valor_chars(s.drop_last()) * 10 + (s.last() as nat - '0' as nat) as nat
    }
}

/// The digits of a `usize` numeral: an optional `+` sign is dropped.
pub open spec fn cifras_usize(w: Seq<char>) -> Seq<char> {
    if w.len() > 0 && w[0] == '+' {
        w.drop_first()
    } else {
        w
    }
}

/// Whether every character is a decimal digit.
pub open spec fn solo_digitos(d: Seq<char>) -> bool {
    forall|i: int| 0 <= i < d.len() ==> '0' <= #[trigger] d[i] <= '9'
}

/// The number that `str::parse::<usize>` reads from a word: an optional `+`
/// and at least one decimal digit, with a value that fits.
pub open spec fn leer_usize(w: Seq<char>) -> Option<usize> {
    let d = cifras_usize(w);
    if d.len() == 0 || !solo_digitos(d) {
        None
    } else if valor_chars(d) > usize::MAX {
        None
    } else {
        Some(valor_chars(d) as usize)
    }
}

/// Reads a word as a `usize`, as `str::parse::<usize>` does.
pub fn parse_usize(w: &[char]) -> (r: Option<usize>)
    ensures
        r == leer_usize(w@),
{
    let inicio: usize = if w.len() > 0 && w[0] == '+' {
        1
    } else {
        0
    };
    let ghost d = cifras_usize(w@);
    assert(d =~= w@.subrange(inicio as int, w@.len() as int));
    if inicio == w.len() {
        return None;
    }
    let mut v: usize = 0;
    let mut i = inicio;
    let mut desborde = false;
    while i < w.len()
        invariant
            inicio <= i <= w@.len(),
            d == cifras_usize(w@),
            d == w@.subrange(inicio as int, w@.len() as int),
            forall|k: int| inicio <= k < i ==> '0' <= #[trigger] w@[k] <= '9',
            !desborde ==> v == valor_chars(w@.subrange(inicio as int, i as int)),
            desborde ==> valor_chars(w@.subrange(inicio as int, i as int)) > usize::MAX,
        decreases w@.len() - i,
    {
        let c = w[i];
        if !('0' <= c && c <= '9') {
            assert(!('0' <= d[i - inicio] <= '9'));
            return None;
        }
        let dig = (c as u32 - '0' as u32) as usize;
        assert(w@.subrange(inicio as int, i + 1).drop_last() =~= w@.subrange(inicio as int, i as int));
        if !desborde {
            match v.checked_mul(10) {
                Some(m) => match m.checked_add(dig) {
                    Some(n) => {
                        v = n;
                    },
                    None => {
                        desborde = true;
                    },
                },
                None => {
                    desborde = true;
                },
            }
        }
        i += 1;
    }
    assert(w@.subrange(inicio as int, w@.len() as int) == d);
    if desborde {
        None
    } else {
        Some(v)
    }
}

} // verus!

verus! {

/// The number that `str::parse::<usize>` reads from a sequence of ASCII
/// digits: none for an empty sequence or a value above `usize::MAX`.
pub open spec fn leer_usize_bytes(s: Seq<u8>) -> Option<usize> {
    if s.len() == 0 || valor_decimal(s) > usize::MAX {
        None
    } else {
        Some(valor_decimal(s) as usize)
    }
}

/// Reads a sequence of ASCII digits as a `usize`, as `str::parse::<usize>`
/// does.
pub fn leer_digitos_usize(s: &[u8]) -> (r: Option<usize>)
    requires
        forall|i: int| 0 <= i < s@.len() ==> es_digito(#[trigger] s@[i]),
    ensures
        r == leer_usize_bytes(s@),
{
    if s.len() == 0 {
        return None;
    }
    let mut v: usize = 0;
    let mut i: usize = 0;
    while i < s.len()
        invariant
            0 < s@.len(),
            i <= s@.len(),
            forall|j: int| 0 <= j < s@.len() ==> es_digito(#[trigger] s@[j]),
            v == valor_decimal(s@.subrange(0, i as int)),
        decreases s@.len() - i,
    {
        let d = (s[i] - 0x30) as u128;
        assert(s@.subrange(0, i + 1).drop_last() =~= s@.subrange(0, i as int));
        let nv: u128 = v as u128 * 10 + d;
        if nv > usize::MAX as u128 {
            proof {
                lema_valor_decimal_crece(s@, (i + 1) as int);
            }
            return None;
        }
        v = nv as usize;
        i += 1;
    }
    assert(s@.subrange(0, s@.len() as int) =~= s@);
    Some(v)
}

} // verus!
