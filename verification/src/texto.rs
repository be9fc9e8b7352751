//! Searching and slicing of byte and character sequences.

use vstd::prelude::*;

verus! {

/// First position `p >= from` at which `needle` occurs in `hay`.
pub open spec fn buscar_desde<T>(hay: Seq<T>, needle: Seq<T>, from: int) -> Option<int>
    decreases hay.len() + 1 - from,
{
    if from < 0 || from + needle.len() > hay.len() {
        None
    } else if hay.subrange(from, from + needle.len()) == needle {
        Some(from)
    } else {
        buscar_desde(hay, needle, from + 1)
    }
}

/// What a forward search finds: a match at or after `from`, with no match
/// between `from` and it.
pub proof fn lema_buscar_desde<T>(hay: Seq<T>, needle: Seq<T>, from: int)
    ensures
        buscar_desde(hay, needle, from) matches Some(p) ==> {
            &&& from <= p
            &&& p + needle.len() <= hay.len()
            &&& hay.subrange(p, p + needle.len()) == needle
            &&& forall|q: int|
                from <= q < p ==> #[trigger] hay.subrange(q, q + needle.len()) != needle
        },
        buscar_desde(hay, needle, from) is None && 0 <= from ==> forall|q: int|
            from <= q && q + needle.len() <= hay.len() ==> #[trigger] hay.subrange(
                q,
                q + needle.len(),
            ) != needle,
    decreases hay.len() + 1 - from,
{
    if from < 0 || from + needle.len() > hay.len() {
    } else if hay.subrange(from, from + needle.len()) == needle {
    } else {
        lema_buscar_desde(hay, needle, from + 1);
    }
}

/// A forward search from `from` finds `to` when nothing matches before it.
pub proof fn lema_buscar_hasta<T>(hay: Seq<T>, needle: Seq<T>, from: int, to: int)
    requires
        0 <= from <= to,
        to + needle.len() <= hay.len(),
        hay.subrange(to, to + needle.len()) == needle,
        forall|q: int| from <= q < to ==> #[trigger] hay.subrange(q, q + needle.len()) != needle,
    ensures
        buscar_desde(hay, needle, from) == Some(to),
    decreases to - from,
{
    if from < to {
        assert(hay.subrange(from, from + needle.len()) != needle);
        lema_buscar_hasta(hay, needle, from + 1, to);
    }
}

/// A search in `x + b + y` that starts inside `b` finds what the search in
/// `b` finds, when that lies inside `b`.
pub proof fn lema_buscar_en_medio<T>(x: Seq<T>, b: Seq<T>, y: Seq<T>, needle: Seq<T>, i: int, j: int)
    requires
        0 <= i <= j,
        j + needle.len() <= b.len(),
        b.subrange(j, j + needle.len()) == needle,
        forall|q: int| i <= q < j ==> #[trigger] b.subrange(q, q + needle.len()) != needle,
    ensures
        buscar_desde(x + b + y, needle, x.len() + i) == Some(x.len() + j),
{
    let h = x + b + y;
    assert forall|q: int| x.len() + i <= q < x.len() + j implies #[trigger] h.subrange(
        q,
        q + needle.len(),
    ) != needle by {
        assert(h.subrange(q, q + needle.len()) =~= b.subrange(q - x.len(), q - x.len() + needle.len()));
    }
    assert(h.subrange(x.len() + j, x.len() + j + needle.len()) =~= b.subrange(j, j + needle.len()));
    lema_buscar_hasta(h, needle, x.len() + i, x.len() + j);
}

/// Last position `p < end` at which `needle` occurs in `hay`.
pub open spec fn buscar_antes_de<T>(hay: Seq<T>, needle: Seq<T>, end: int) -> Option<int>
    decreases end,
{
    if end <= 0 {
        None
    } else if end - 1 + needle.len() <= hay.len() && hay.subrange(end - 1, end - 1 + needle.len())
        == needle {
        Some(end - 1)
    } else {
        buscar_antes_de(hay, needle, end - 1)
    }
}

/// Last position at which `needle` occurs in `hay`.
pub open spec fn buscar_ultimo<T>(hay: Seq<T>, needle: Seq<T>) -> Option<int> {
    buscar_antes_de(hay, needle, hay.len() + 1int)
}

pub open spec fn como_int(r: Option<usize>) -> Option<int> {
    match r {
        Some(p) => Some(p as int),
        None => None,
    }
}

/// Positions where `needle` no longer fits are skipped by the backward search.
proof fn lema_antes_de_sin_cabida<T>(hay: Seq<T>, needle: Seq<T>, e: int, end: int)
    requires
        0 <= end <= e,
        end + needle.len() > hay.len(),
    ensures
        buscar_antes_de(hay, needle, e) == buscar_antes_de(hay, needle, end),
    decreases e - end,
{
    if e > end {
        lema_antes_de_sin_cabida(hay, needle, e - 1, end);
    }
}

/// Whether `needle` occurs in `hay` at position `p`.
pub fn coincide_bytes(hay: &[u8], needle: &[u8], p: usize) -> (r: bool)
    requires
        p + needle@.len() <= hay@.len(),
    ensures
        r == (hay@.subrange(p as int, p + needle@.len()) == needle@),
{
    let mut k: usize = 0;
    while k < needle.len()
        invariant
            p + needle@.len() <= hay@.len(),
            k <= needle@.len(),
            forall|j: int| 0 <= j < k ==> hay@[p + j] == needle@[j],
        decreases needle@.len() - k,
    {
        assert(p + k < hay.len());
        if hay[p + k] != needle[k] {
            assert(hay@.subrange(p as int, p + needle@.len())[k as int] != needle@[k as int]);
            return false;
        }
        k += 1;
    }
    assert(hay@.subrange(p as int, p + needle@.len()) =~= needle@);
    true
}

/// First occurrence of `needle` in `hay` at or after `from`.
pub fn buscar_bytes(hay: &[u8], needle: &[u8], from: usize) -> (r: Option<usize>)
    requires
        from <= hay@.len(),
        needle@.len() > 0,
    ensures
        como_int(r) == buscar_desde(hay@, needle@, from as int),
{
    let mut i = from;
    while needle.len() <= hay.len() - i
        invariant
            from <= i <= hay@.len(),
            needle@.len() > 0,
            buscar_desde(hay@, needle@, from as int) == buscar_desde(hay@, needle@, i as int),
        decreases hay@.len() - i,
    {
        if coincide_bytes(hay, needle, i) {
            return Some(i);
        }
        i += 1;
    }
    None
}

/// Last occurrence of `needle` in `hay`.
pub fn buscar_ultimo_bytes(hay: &[u8], needle: &[u8]) -> (r: Option<usize>)
    requires
        needle@.len() > 0,
    ensures
        como_int(r) == buscar_ultimo(hay@, needle@),
{
    if needle.len() > hay.len() {
        proof {
            lema_antes_de_sin_cabida(hay@, needle@, hay@.len() + 1int, 0);
        }
        return None;
    }
    let mut end = hay.len() - needle.len() + 1;
    proof {
        lema_antes_de_sin_cabida(hay@, needle@, hay@.len() + 1int, end as int);
    }
    while end > 0
        invariant
            end + needle@.len() <= hay@.len() + 1,
            buscar_ultimo(hay@, needle@) == buscar_antes_de(hay@, needle@, end as int),
        decreases end,
    {
        if coincide_bytes(hay, needle, end - 1) {
            return Some(end - 1);
        }
        end -= 1;
    }
    None
}

/// Whether `needle` occurs in `hay` at position `p`.
pub fn coincide_chars(hay: &[char], needle: &[char], p: usize) -> (r: bool)
    requires
        p + needle@.len() <= hay@.len(),
    ensures
        r == (hay@.subrange(p as int, p + needle@.len()) == needle@),
{
    let mut k: usize = 0;
    while k < needle.len()
        invariant
            p + needle@.len() <= hay@.len(),
            k <= needle@.len(),
            forall|j: int| 0 <= j < k ==> hay@[p + j] == needle@[j],
        decreases needle@.len() - k,
    {
        assert(p + k < hay.len());
        if hay[p + k] != needle[k] {
            assert(hay@.subrange(p as int, p + needle@.len())[k as int] != needle@[k as int]);
            return false;
        }
        k += 1;
    }
    assert(hay@.subrange(p as int, p + needle@.len()) =~= needle@);
    true
}

/// First occurrence of `needle` in `hay` at or after `from`.
pub fn buscar_chars(hay: &[char], needle: &[char], from: usize) -> (r: Option<usize>)
    requires
        from <= hay@.len(),
        needle@.len() > 0,
    ensures
        como_int(r) == buscar_desde(hay@, needle@, from as int),
{
    let mut i = from;
    while needle.len() <= hay.len() - i
        invariant
            from <= i <= hay@.len(),
            needle@.len() > 0,
            buscar_desde(hay@, needle@, from as int) == buscar_desde(hay@, needle@, i as int),
        decreases hay@.len() - i,
    {
        if coincide_chars(hay, needle, i) {
            return Some(i);
        }
        i += 1;
    }
    None
}

/// Last occurrence of `needle` in `hay`.
pub fn buscar_ultimo_chars(hay: &[char], needle: &[char]) -> (r: Option<usize>)
    requires
        needle@.len() > 0,
    ensures
        como_int(r) == buscar_ultimo(hay@, needle@),
{
    if needle.len() > hay.len() {
        proof {
            lema_antes_de_sin_cabida(hay@, needle@, hay@.len() + 1int, 0);
        }
        return None;
    }
    let mut end = hay.len() - needle.len() + 1;
    proof {
        lema_antes_de_sin_cabida(hay@, needle@, hay@.len() + 1int, end as int);
    }
    while end > 0
        invariant
            end + needle@.len() <= hay@.len() + 1,
            buscar_ultimo(hay@, needle@) == buscar_antes_de(hay@, needle@, end as int),
        decreases end,
    {
        if coincide_chars(hay, needle, end - 1) {
            return Some(end - 1);
        }
        end -= 1;
    }
    None
}


/// The characters of a string slice.
pub fn caracteres(s: &str) -> (v: Vec<char>)
    ensures
        v@ == s@,
{
    let mut v: Vec<char> = Vec::new();
    for c in it: s.chars()
        invariant
            v@ == it.seq().take(it.index() as int),
            it.seq() == s@,
    {
        v.push(c);
    }
    assert(v@ =~= s@.take(s@.len() as int));
    v
}

/// A `String` holding exactly the given characters.
///
/// Collects the characters with `FromIterator<&char> for String`, which
/// appends each character in order.
#[verifier::external_body]
pub(crate) fn texto_de(cs: &[char]) -> (s: String)
    ensures
        s@ == cs@,
{
    cs.iter().collect()
}

/// The characters at positions `a..b` of `v`.
pub fn tramo(v: &[char], a: usize, b: usize) -> (r: Vec<char>)
    requires
        a <= b <= v@.len(),
    ensures
        r@ == v@.subrange(a as int, b as int),
{
    let mut r: Vec<char> = Vec::new();
    let mut i = a;
    while i < b
        invariant
            a <= i <= b <= v@.len(),
            r@ == v@.subrange(a as int, i as int),
        decreases b - i,
    {
        r.push(v[i]);
        i += 1;
        assert(r@ =~= v@.subrange(a as int, i as int));
    }
    r
}

/// The bytes at positions `a..b` of `v`.
pub fn tramo_bytes(v: &[u8], a: usize, b: usize) -> (r: Vec<u8>)
    requires
        a <= b <= v@.len(),
    ensures
        r@ == v@.subrange(a as int, b as int),
{
    let mut r: Vec<u8> = Vec::new();
    let mut i = a;
    while i < b
        invariant
            a <= i <= b <= v@.len(),
            r@ == v@.subrange(a as int, i as int),
        decreases b - i,
    {
        r.push(v[i]);
        i += 1;
        assert(r@ =~= v@.subrange(a as int, i as int));
    }
    r
}

/// Whether two character sequences are equal.
pub fn iguales(a: &[char], b: &[char]) -> (r: bool)
    ensures
        r == (a@ == b@),
{
    if a.len() != b.len() {
        return false;
    }
    let r = coincide_chars(a, b, 0);
    assert(a@.subrange(0, b@.len() as int) =~= a@);
    r
}

/// Whether `s` starts with `p`.
pub open spec fn empieza_con<T>(s: Seq<T>, p: Seq<T>) -> bool {
    p.len() <= s.len() && s.subrange(0, p.len() as int) == p
}

/// Whether `s` starts with `p`.
pub fn empieza_con_chars(s: &[char], p: &[char]) -> (r: bool)
    ensures
        r == empieza_con(s@, p@),
{
    if p.len() > s.len() {
        return false;
    }
    coincide_chars(s, p, 0)
}

/// Whether `s` starts with `p`.
pub fn empieza_con_bytes(s: &[u8], p: &[u8]) -> (r: bool)
    ensures
        r == empieza_con(s@, p@),
{
    if p.len() > s.len() {
        return false;
    }
    coincide_bytes(s, p, 0)
}

/// `s` with every trailing `c` removed.
pub open spec fn sin_finales(s: Seq<char>, c: char) -> Seq<char>
    decreases s.len(),
{
    if s.len() > 0 && s.last() == c {
        sin_finales(s.drop_last(), c)
    } else {
        s
    }
}

/// Length of `s` once every trailing `c` is removed.
pub fn largo_sin_finales(s: &[char], c: char) -> (n: usize)
    ensures
        n <= s@.len(),
        sin_finales(s@, c) == s@.subrange(0, n as int),
{
    let mut n = s.len();
    assert(s@.subrange(0, n as int) =~= s@);
    while n > 0 && s[n - 1] == c
        invariant
            n <= s@.len(),
            sin_finales(s@, c) == sin_finales(s@.subrange(0, n as int), c),
        decreases n,
    {
        assert(s@.subrange(0, n as int).drop_last() =~= s@.subrange(0, n - 1));
        n -= 1;
    }
    n
}

/// The part of `s` before the first `sep` and the part after it, if `sep`
/// occurs in `s`.
pub open spec fn partir_en<T>(s: Seq<T>, sep: Seq<T>) -> Option<(Seq<T>, Seq<T>)> {
    match buscar_desde(s, sep, 0) {
        Some(p) => Some((s.subrange(0, p), s.subrange(p + sep.len(), s.len() as int))),
        None => None,
    }
}

/// Splits `s` around the first occurrence of `sep`.
pub fn partir_chars(s: &[char], sep: &[char]) -> (r: Option<(Vec<char>, Vec<char>)>)
    requires
        sep@.len() > 0,
    ensures
        match (r, partir_en(s@, sep@)) {
            (Some((a, b)), Some((sa, sb))) => a@ == sa && b@ == sb,
            (None, None) => true,
            _ => false,
        },
{
    proof {
        lema_buscar_desde(s@, sep@, 0);
    }
    match buscar_chars(s, sep, 0) {
        Some(p) => {
            assert(p + sep@.len() <= s.len());
            let a = tramo(s, 0, p);
            let b = tramo(s, p + sep.len(), s.len());
            Some((a, b))
        },
        None => None,
    }
}

/// The pieces of `s` between the occurrences of `c`.
pub open spec fn trozos(s: Seq<char>, c: char) -> Seq<Seq<char>>
    decreases s.len(),
{
    match buscar_desde(s, seq![c], 0) {
        Some(p) => {
            if 0 <= p < s.len() {
                seq![s.subrange(0, p)] + trozos(s.subrange(p + 1, s.len() as int), c)
            } else {
                seq![s]
            }
        },
        None => seq![s],
    }
}

/// Whether `c` is white space in the sense of Unicode's `White_Space`
/// property, as `char::is_whitespace` decides.
pub open spec fn es_espacio(c: char) -> bool {
    ||| '\u{9}' <= c <= '\u{d}'
    ||| c == ' '
    ||| c == '\u{85}'
    ||| c == '\u{a0}'
    ||| c == '\u{1680}'
    ||| '\u{2000}' <= c <= '\u{200a}'
    ||| c == '\u{2028}'
    ||| c == '\u{2029}'
    ||| c == '\u{202f}'
    ||| c == '\u{205f}'
    ||| c == '\u{3000}'
}

pub fn es_espacio_exec(c: char) -> (r: bool)
    ensures
        r == es_espacio(c),
{
    ('\u{9}' <= c && c <= '\u{d}') || c == ' ' || c == '\u{85}' || c == '\u{a0}' || c
        == '\u{1680}' || ('\u{2000}' <= c && c <= '\u{200a}') || c == '\u{2028}' || c
        == '\u{2029}' || c == '\u{202f}' || c == '\u{205f}' || c == '\u{3000}'
}

/// `s` without its leading white space.
pub open spec fn sin_espacio_inicial(s: Seq<char>) -> Seq<char>
    decreases s.len(),
{
    if s.len() > 0 && es_espacio(s[0]) {
        sin_espacio_inicial(s.drop_first())
    } else {
        s
    }
}

/// Number of leading white-space characters of `s`.
pub fn largo_espacio_inicial(s: &[char]) -> (n: usize)
    ensures
        n <= s@.len(),
        sin_espacio_inicial(s@) == s@.subrange(n as int, s@.len() as int),
{
    let mut n: usize = 0;
    assert(s@.subrange(0, s@.len() as int) =~= s@);
    while n < s.len() && es_espacio_exec(s[n])
        invariant
            n <= s@.len(),
            sin_espacio_inicial(s@) == sin_espacio_inicial(s@.subrange(n as int, s@.len() as int)),
        decreases s@.len() - n,
    {
        assert(s@.subrange(n as int, s@.len() as int).drop_first() =~= s@.subrange(
            n + 1,
            s@.len() as int,
        ));
        n += 1;
    }
    n
}


/// The characters before the first white space.
pub open spec fn palabra_inicial(s: Seq<char>) -> Seq<char>
    decreases s.len(),
{
    if s.len() > 0 && !es_espacio(s[0]) {
        seq![s[0]] + palabra_inicial(s.drop_first())
    } else {
        seq![]
    }
}

/// The first word is a prefix of the text.
pub proof fn lema_palabra_inicial(s: Seq<char>)
    ensures
        palabra_inicial(s).len() <= s.len(),
        palabra_inicial(s) == s.subrange(0, palabra_inicial(s).len() as int),
        s.len() > 0 && !es_espacio(s[0]) ==> palabra_inicial(s).len() >= 1,
        palabra_inicial(s).len() < s.len() ==> es_espacio(s[palabra_inicial(s).len() as int]),
    decreases s.len(),
{
    if s.len() > 0 && !es_espacio(s[0]) {
        lema_palabra_inicial(s.drop_first());
        assert(palabra_inicial(s) =~= s.subrange(0, palabra_inicial(s).len() as int));
    }
}

/// The words of a text: the maximal runs of characters that are not white
/// space, as `str::split_whitespace` gives them.
pub open spec fn palabras(s: Seq<char>) -> Seq<Seq<char>>
    decreases s.len(),
{
    if s.len() == 0 {
        seq![]
    } else if es_espacio(s[0]) {
        palabras(s.drop_first())
    } else {
        let w = palabra_inicial(s);
        proof {
            lema_palabra_inicial(s);
        }
        seq![w] + palabras(s.subrange(w.len() as int, s.len() as int))
    }
}

/// The words of a text.
pub fn partir_palabras(s: &[char]) -> (r: Vec<Vec<char>>)
    ensures
        r@.len() == palabras(s@).len(),
        forall|i: int| 0 <= i < r@.len() ==> #[trigger] r@[i]@ == palabras(s@)[i],
{
    let mut r: Vec<Vec<char>> = Vec::new();
    let mut i: usize = 0;
    let ghost mut hechas: Seq<Seq<char>> = Seq::empty();
    assert(s@.subrange(0, s@.len() as int) =~= s@);
    while i < s.len()
        invariant
            i <= s@.len(),
            hechas + palabras(s@.subrange(i as int, s@.len() as int)) == palabras(s@),
            r@.len() == hechas.len(),
            forall|k: int| 0 <= k < r@.len() ==> #[trigger] r@[k]@ == hechas[k],
        decreases s@.len() - i,
    {
        let ghost resto = s@.subrange(i as int, s@.len() as int);
        if es_espacio_exec(s[i]) {
            assert(resto.drop_first() =~= s@.subrange(i + 1, s@.len() as int));
            i += 1;
        } else {
            let mut j = i;
            proof {
                lema_palabra_inicial(resto);
            }
            while j < s.len() && !es_espacio_exec(s[j])
                invariant
                    i <= j <= s@.len(),
                    resto == s@.subrange(i as int, s@.len() as int),
                    palabra_inicial(resto) == s@.subrange(i as int, j as int) + palabra_inicial(
                        s@.subrange(j as int, s@.len() as int),
                    ),
                decreases s@.len() - j,
            {
                let ghost rj = s@.subrange(j as int, s@.len() as int);
                assert(rj.drop_first() =~= s@.subrange(j + 1, s@.len() as int));
                assert(s@.subrange(i as int, j + 1) =~= s@.subrange(i as int, j as int) + seq![
                    s@[j as int],
                ]);
                j += 1;
            }
            assert(palabra_inicial(s@.subrange(j as int, s@.len() as int)) =~= Seq::<
                char,
            >::empty());
            assert(palabra_inicial(resto) =~= s@.subrange(i as int, j as int));
            let w = tramo(s, i, j);
            proof {
                assert(resto.subrange((j - i) as int, resto.len() as int) =~= s@.subrange(
                    j as int,
                    s@.len() as int,
                ));
                assert(hechas.push(w@) + palabras(s@.subrange(j as int, s@.len() as int))
                    =~= hechas + palabras(resto));
                hechas = hechas.push(w@);
            }
            r.push(w);
            i = j;
        }
    }
    assert(palabras(s@.subrange(i as int, s@.len() as int)) =~= Seq::<Seq<char>>::empty());
    assert(hechas + Seq::<Seq<char>>::empty() =~= hechas);
    r
}

} // verus!

verus! {

/// Whether two byte sequences are equal.
pub fn iguales_bytes(a: &[u8], b: &[u8]) -> (r: bool)
    ensures
        r == (a@ == b@),
{
    if a.len() != b.len() {
        return false;
    }
    let r = coincide_bytes(a, b, 0);
    assert(a@.subrange(0, b@.len() as int) =~= a@);
    r
}

/// A backward search before `end` finds `p` when nothing matches after it.
pub proof fn lema_buscar_antes_hasta<T>(hay: Seq<T>, needle: Seq<T>, end: int, p: int)
    requires
        0 <= p < end,
        p + needle.len() <= hay.len(),
        hay.subrange(p, p + needle.len()) == needle,
        forall|q: int|
            p < q < end && q + needle.len() <= hay.len() ==> #[trigger] hay.subrange(
                q,
                q + needle.len(),
            ) != needle,
    ensures
        buscar_antes_de(hay, needle, end) == Some(p),
    decreases end - p,
{
    if end - 1 > p {
        lema_buscar_antes_hasta(hay, needle, end - 1, p);
    }
}

} // verus!
