//! The user's certificates, so that one can be chosen to sign with: which
//! folders are searched, which files are certificates, and in which order
//! they are offered.

use vstd::prelude::*;
use crate::texto::{caracteres, texto_de};

verus! {

/// A certificate file found among the user's files.
pub struct Certificado {
    /// Where the file is, as text.
    pub ruta: String,
    /// The file's name.
    pub nombre: String,
}

/// A file found in one of the searched folders, as the file system
/// describes it.
pub struct Entrada {
    /// Where the file is, as text.
    pub ruta: String,
    /// The extension of its name, when it has one that is text.
    pub extension: Option<String>,
    /// Its name, when it is text.
    pub nombre: Option<String>,
}

/// The folders searched, from the user's home folder.
pub open spec fn carpetas(home: Seq<char>) -> Seq<Seq<char>> {
    seq![
        home,
        home + "/Descargas"@,
        home + "/Documentos"@,
        home + "/.rubrica/certificados"@,
    ]
}

/// The folders where certificates are looked for: the home folder, its
/// downloads and documents, and the folder of this program.
pub fn directorios(home: &str) -> (r: Vec<String>)
    ensures
        r@.map_values(|s: String| s@) == carpetas(home@),
{
    let r = vec![
        String::from_str(home),
        String::from_str(home).concat("/Descargas"),
        String::from_str(home).concat("/Documentos"),
        String::from_str(home).concat("/.rubrica/certificados"),
    ];
    assert(r@.map_values(|s: String| s@) =~= carpetas(home@));
    r
}

/// A character with ASCII letters in lowercase.
pub open spec fn minuscula(c: char) -> char {
    if 'A' <= c <= 'Z' {
        ((c as u32) + 32) as char
    } else {
        c
    }
}

/// A text with ASCII letters in lowercase, as `str::to_ascii_lowercase`
/// writes it.
pub open spec fn minusculas(s: Seq<char>) -> Seq<char> {
    s.map_values(|c: char| minuscula(c))
}

/// Whether a file is a PKCS#12 store: its extension is `p12` or `pfx`, in
/// any case.
pub open spec fn es_almacen(extension: Option<Seq<char>>) -> bool {
    match extension {
        Some(e) => minusculas(e) == "p12"@ || minusculas(e) == "pfx"@,
        None => false,
    }
}

fn minusculas_exec(s: &str) -> (r: Vec<char>)
    ensures
        r@ == minusculas(s@),
{
    let cs = caracteres(s);
    let mut r: Vec<char> = Vec::new();
    let mut i: usize = 0;
    while i < cs.len()
        invariant
            i <= cs@.len(),
            cs@ == s@,
            r@ == minusculas(cs@.subrange(0, i as int)),
        decreases cs@.len() - i,
    {
        let c = cs[i];
        let m = if 'A' <= c && c <= 'Z' {
            ((c as u8) + 32) as char
        } else {
            c
        };
        assert(m == minuscula(c));
        r.push(m);
        i += 1;
        assert(r@ =~= minusculas(cs@.subrange(0, i as int)));
    }
    assert(cs@.subrange(0, cs@.len() as int) =~= cs@);
    r
}

/// Whether a file with this extension is a PKCS#12 store.
pub fn es_certificado(extension: Option<&str>) -> (r: bool)
    ensures
        r == es_almacen(match extension {
            Some(e) => Some(e@),
            None => None,
        }),
{
    match extension {
        None => false,
        Some(e) => {
            let m = minusculas_exec(e);
            proof {
                reveal_strlit("p12");
                reveal_strlit("pfx");
            }
            let p12 = ['p', '1', '2'];
            let pfx = ['p', 'f', 'x'];
            assert(p12@ =~= "p12"@);
            assert(pfx@ =~= "pfx"@);
            crate::texto::iguales(m.as_slice(), p12.as_slice()) || crate::texto::iguales(
                m.as_slice(),
                pfx.as_slice(),
            )
        },
    }
}

/// Whether `a` comes before `b`, or is equal to it, in the order of
/// `String::cmp`: lexicographic by bytes, which for UTF-8 is lexicographic
/// by character.
pub open spec fn no_mayor(a: Seq<char>, b: Seq<char>) -> bool
    decreases a.len(),
{
    if a.len() == 0 {
        true
    } else if b.len() == 0 {
        false
    } else if a[0] != b[0] {
        (a[0] as int) < (b[0] as int)
    } else {
        no_mayor(a.drop_first(), b.drop_first())
    }
}

/// Whether `a` comes before or is equal to `b`.
pub fn compara_no_mayor(a: &str, b: &str) -> (r: bool)
    ensures
        r == no_mayor(a@, b@),
{
    let x = caracteres(a);
    let y = caracteres(b);
    let mut i: usize = 0;
    assert(x@.subrange(0, x@.len() as int) =~= x@);
    assert(y@.subrange(0, y@.len() as int) =~= y@);
    while i < x.len() && i < y.len() && x[i] == y[i]
        invariant
            i <= x@.len(),
            i <= y@.len(),
            x@ == a@,
            y@ == b@,
            no_mayor(a@, b@) == no_mayor(
                x@.subrange(i as int, x@.len() as int),
                y@.subrange(i as int, y@.len() as int),
            ),
        decreases x@.len() - i,
    {
        assert(x@.subrange(i as int, x@.len() as int).drop_first() =~= x@.subrange(
            i + 1,
            x@.len() as int,
        ));
        assert(y@.subrange(i as int, y@.len() as int).drop_first() =~= y@.subrange(
            i + 1,
            y@.len() as int,
        ));
        i += 1;
    }
    if i == x.len() {
        true
    } else if i == y.len() {
        false
    } else {
        x[i] < y[i]
    }
}

impl View for Certificado {
    type V = (Seq<char>, Seq<char>);

    /// The path and the name.
    open spec fn view(&self) -> (Seq<char>, Seq<char>) {
        (self.ruta@, self.nombre@)
    }
}

/// A text that may be missing, as values.
pub open spec fn texto_opcional(o: Option<String>) -> Option<Seq<char>> {
    match o {
        Some(s) => Some(s@),
        None => None,
    }
}

impl View for Entrada {
    type V = (Seq<char>, Option<Seq<char>>, Option<Seq<char>>);

    /// The path, the extension and the name.
    open spec fn view(&self) -> (Seq<char>, Option<Seq<char>>, Option<Seq<char>>) {
        (self.ruta@, texto_opcional(self.extension), texto_opcional(self.nombre))
    }
}

/// `t` with `c` inserted after every certificate whose name is not greater
/// than its own: where a stable sort by name puts it.
pub open spec fn insertar(t: Seq<(Seq<char>, Seq<char>)>, c: (Seq<char>, Seq<char>)) -> Seq<
    (Seq<char>, Seq<char>),
>
    decreases t.len(),
{
    if t.len() == 0 {
        seq![c]
    } else if no_mayor(t.last().1, c.1) {
        t.push(c)
    } else {
        insertar(t.drop_last(), c).push(t.last())
    }
}

/// The certificates sorted by name; those with equal names keep their order
/// (a stable sort).
pub open spec fn por_nombre(s: Seq<(Seq<char>, Seq<char>)>) -> Seq<(Seq<char>, Seq<char>)>
    decreases s.len(),
{
    if s.len() == 0 {
        seq![]
    } else {
        insertar(por_nombre(s.drop_last()), s.last())
    }
}

/// The certificate that a file is: its path and its name (or
/// `certificado` when the name is not text).
pub open spec fn certificado_de(e: (Seq<char>, Option<Seq<char>>, Option<Seq<char>>)) -> (
    Seq<char>,
    Seq<char>,
) {
    (
        e.0,
        match e.2 {
            Some(n) => n,
            None => "certificado"@,
        },
    )
}

/// The certificates among the files, in the order in which they were found.
pub open spec fn encontrados(es: Seq<(Seq<char>, Option<Seq<char>>, Option<Seq<char>>)>) -> Seq<
    (Seq<char>, Seq<char>),
>
    decreases es.len(),
{
    if es.len() == 0 {
        seq![]
    } else if es_almacen(es.last().1) {
        encontrados(es.drop_last()).push(certificado_de(es.last()))
    } else {
        encontrados(es.drop_last())
    }
}

/// The views of a list of values.
pub open spec fn vistas<T: View>(s: Seq<T>) -> Seq<T::V> {
    s.map_values(|x: T| x@)
}

/// Where `c` goes in `t`: after position `p`, when the names before it are
/// not greater and those from it on are greater.
proof fn lema_insertar(t: Seq<(Seq<char>, Seq<char>)>, c: (Seq<char>, Seq<char>), p: int)
    requires
        0 <= p <= t.len(),
        forall|q: int| p <= q < t.len() ==> !no_mayor(#[trigger] t[q].1, c.1),
        p == 0 || no_mayor(t[p - 1].1, c.1),
    ensures
        insertar(t, c) == t.subrange(0, p).push(c) + t.subrange(p, t.len() as int),
    decreases t.len(),
{
    if t.len() == 0 {
        assert(t.subrange(0, p).push(c) + t.subrange(p, t.len() as int) =~= seq![c]);
    } else if p == t.len() {
        assert(t.subrange(0, p) =~= t);
        assert(t.subrange(0, p).push(c) + t.subrange(p, t.len() as int) =~= t.push(c));
    } else {
        let u = t.drop_last();
        assert(!no_mayor(t[t.len() - 1].1, c.1));
        assert forall|q: int| p <= q < u.len() implies !no_mayor(#[trigger] u[q].1, c.1) by {
            assert(u[q] == t[q]);
        }
        if p > 0 {
            assert(u[p - 1] == t[p - 1]);
        }
        lema_insertar(u, c, p);
        assert(u.subrange(0, p) =~= t.subrange(0, p));
        assert((u.subrange(0, p).push(c) + u.subrange(p, u.len() as int)).push(t.last()) =~= t.subrange(
            0,
            p,
        ).push(c) + t.subrange(p, t.len() as int));
    }
}

fn copia(c: &Certificado) -> (r: Certificado)
    ensures
        r@ == c@,
{
    Certificado { ruta: c.ruta.clone(), nombre: c.nombre.clone() }
}

/// Inserts `c` into `t` where a stable sort by name puts it.
fn insertar_en(t: &mut Vec<Certificado>, c: Certificado)
    ensures
        vistas(final(t)@) == insertar(vistas(old(t)@), c@),
{
    let mut p = t.len();
    let ghost v = vistas(t@);
    while p > 0 && !compara_no_mayor(t[p - 1].nombre.as_str(), c.nombre.as_str())
        invariant
            p <= t@.len(),
            v == vistas(t@),
            forall|q: int| p <= q < v.len() ==> !no_mayor(#[trigger] v[q].1, c@.1),
        decreases p,
    {
        assert(v[p - 1] == t@[p - 1]@);
        p -= 1;
    }
    if p > 0 {
        assert(v[p - 1] == t@[p - 1]@);
    }
    proof {
        lema_insertar(v, c@, p as int);
    }
    t.insert(p, c);
    assert(vistas(t@) =~= v.subrange(0, p as int).push(c@) + v.subrange(p as int, v.len() as int));
}

/// The certificates sorted by name, those with equal names in the order in
/// which they came.
pub fn ordenar_por_nombre(v: &[Certificado]) -> (r: Vec<Certificado>)
    ensures
        vistas(r@) == por_nombre(vistas(v@)),
{
    let mut r: Vec<Certificado> = Vec::new();
    let mut i: usize = 0;
    while i < v.len()
        invariant
            i <= v@.len(),
            vistas(r@) == por_nombre(vistas(v@.subrange(0, i as int))),
        decreases v@.len() - i,
    {
        let c = copia(&v[i]);
        assert(vistas(v@.subrange(0, i + 1)).drop_last() =~= vistas(v@.subrange(0, i as int)));
        assert(vistas(v@.subrange(0, i + 1)).last() == v@[i as int]@);
        insertar_en(&mut r, c);
        i += 1;
    }
    assert(v@.subrange(0, v@.len() as int) =~= v@);
    r
}

/// The certificates among the files found, sorted by name: the files whose
/// extension is `p12` or `pfx`, in any case.
pub fn certificados_en(entradas: &[Entrada]) -> (r: Vec<Certificado>)
    ensures
        vistas(r@) == por_nombre(encontrados(vistas(entradas@))),
{
    let mut hallados: Vec<Certificado> = Vec::new();
    let mut i: usize = 0;
    while i < entradas.len()
        invariant
            i <= entradas@.len(),
            vistas(hallados@) == encontrados(vistas(entradas@.subrange(0, i as int))),
        decreases entradas@.len() - i,
    {
        let e = &entradas[i];
        let ghost antes = vistas(entradas@.subrange(0, i as int));
        assert(vistas(entradas@.subrange(0, i + 1)).drop_last() =~= antes);
        assert(vistas(entradas@.subrange(0, i + 1)).last() == e@);
        let extension = match &e.extension {
            Some(x) => Some(x.as_str()),
            None => None,
        };
        if es_certificado(extension) {
            let nombre = match &e.nombre {
                Some(n) => n.clone(),
                None => String::from_str("certificado"),
            };
            let c = Certificado { ruta: e.ruta.clone(), nombre };
            assert(c@ == certificado_de(e@));
            hallados.push(c);
            assert(vistas(hallados@) =~= encontrados(vistas(entradas@.subrange(0, i + 1))));
        } else {
            assert(vistas(hallados@) =~= encontrados(vistas(entradas@.subrange(0, i + 1))));
        }
        i += 1;
    }
    assert(entradas@.subrange(0, entradas@.len() as int) =~= entradas@);
    ordenar_por_nombre(hallados.as_slice())
}

/// Whether a list of certificates is sorted by name.
pub open spec fn ordenada(s: Seq<(Seq<char>, Seq<char>)>) -> bool {
    forall|i: int, j: int| 0 <= i < j < s.len() ==> no_mayor(#[trigger] s[i].1, #[trigger] s[j].1)
}

/// Any two names compare one way or the other.
pub proof fn lema_no_mayor_total(a: Seq<char>, b: Seq<char>)
    ensures
        no_mayor(a, b) || no_mayor(b, a),
    decreases a.len(),
{
    if a.len() > 0 && b.len() > 0 {
        if a[0] == b[0] {
            lema_no_mayor_total(a.drop_first(), b.drop_first());
        } else {
            assert((a[0] as int) != (b[0] as int));
        }
    }
}

/// The order of names is transitive.
pub proof fn lema_no_mayor_transitivo(a: Seq<char>, b: Seq<char>, c: Seq<char>)
    requires
        no_mayor(a, b),
        no_mayor(b, c),
    ensures
        no_mayor(a, c),
    decreases a.len(),
{
    if a.len() > 0 && b.len() > 0 && c.len() > 0 && a[0] == b[0] && b[0] == c[0] {
        lema_no_mayor_transitivo(a.drop_first(), b.drop_first(), c.drop_first());
    }
}

proof fn lema_insertar_ordena(t: Seq<(Seq<char>, Seq<char>)>, c: (Seq<char>, Seq<char>))
    requires
        ordenada(t),
    ensures
        ordenada(insertar(t, c)),
        insertar(t, c).to_multiset() == t.to_multiset().insert(c),
    decreases t.len(),
{
    broadcast use vstd::seq_lib::group_to_multiset_ensures;

    if t.len() == 0 {
        assert(seq![c] =~= Seq::<(Seq<char>, Seq<char>)>::empty().push(c));
    } else if no_mayor(t.last().1, c.1) {
        let r = t.push(c);
        assert forall|i: int, j: int| 0 <= i < j < r.len() implies no_mayor(
            #[trigger] r[i].1,
            #[trigger] r[j].1,
        ) by {
            if j == t.len() && i < t.len() - 1 {
                assert(no_mayor(t[i].1, t[t.len() - 1].1));
                lema_no_mayor_transitivo(t[i].1, t.last().1, c.1);
            }
        }
    } else {
        let u = t.drop_last();
        let x = t.last();
        assert(ordenada(u)) by {
            assert forall|i: int, j: int| 0 <= i < j < u.len() implies no_mayor(
                #[trigger] u[i].1,
                #[trigger] u[j].1,
            ) by {
                assert(u[i] == t[i] && u[j] == t[j]);
            }
        }
        lema_insertar_ordena(u, c);
        let v = insertar(u, c);
        lema_no_mayor_total(x.1, c.1);
        assert forall|k: int| 0 <= k < v.len() implies no_mayor(#[trigger] v[k].1, x.1) by {
            assert(v.to_multiset().contains(v[k]));
            if v[k] != c {
                assert(u.to_multiset().count(v[k]) > 0);
                assert(u.contains(v[k]));
                let m = choose|m: int| 0 <= m < u.len() && u[m] == v[k];
                assert(t[m] == u[m]);
                assert(no_mayor(t[m].1, t[t.len() - 1].1));
            }
        }
        let r = v.push(x);
        assert forall|i: int, j: int| 0 <= i < j < r.len() implies no_mayor(
            #[trigger] r[i].1,
            #[trigger] r[j].1,
        ) by {
            if j == v.len() {
                assert(no_mayor(v[i].1, x.1));
            } else {
                assert(r[i] == v[i] && r[j] == v[j]);
            }
        }
        assert(t =~= u.push(x));
        assert(t.to_multiset() =~= u.to_multiset().insert(x));
    }
}

/// The certificates offered are sorted by name, and they are the ones
/// found, each as many times as it was found.
pub proof fn ley_por_nombre(s: Seq<(Seq<char>, Seq<char>)>)
    ensures
        ordenada(por_nombre(s)),
        por_nombre(s).to_multiset() == s.to_multiset(),
    decreases s.len(),
{
    broadcast use vstd::seq_lib::group_to_multiset_ensures;

    if s.len() > 0 {
        ley_por_nombre(s.drop_last());
        lema_insertar_ordena(por_nombre(s.drop_last()), s.last());
        assert(s =~= s.drop_last().push(s.last()));
    } else {
        assert(por_nombre(s) =~= s);
    }
}

} // verus!
