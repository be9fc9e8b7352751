//! The outer structure of a PKCS#12 store (RFC 7292): the `authSafe`
//! content and the `ContentInfo`s inside it, read far enough to tell
//! whether every `EncryptedData` among them has version 0 and carries
//! `data`, as the `p12` crate's parser asserts.

use vstd::prelude::*;
use crate::asn1::{leer_tlv, leer_tlv_en};
use crate::texto::{iguales_bytes, tramo_bytes};

verus! {

/// The contents of the object identifier `data` (1.2.840.113549.1.7.1).
pub open spec fn oid_data() -> Seq<u8> {
    seq![0x2au8, 0x86u8, 0x48u8, 0x86u8, 0xf7u8, 0x0du8, 0x01u8, 0x07u8, 0x01u8]
}

/// The contents of the object identifier `encryptedData`
/// (1.2.840.113549.1.7.6).
pub open spec fn oid_encrypted_data() -> Seq<u8> {
    seq![0x2au8, 0x86u8, 0x48u8, 0x86u8, 0xf7u8, 0x0du8, 0x01u8, 0x07u8, 0x06u8]
}

/// Whether the element at `i` of `b` is a `ContentInfo` that is either not
/// an `EncryptedData`, or an `EncryptedData` of version 0 whose
/// `EncryptedContentInfo` has the content type `data`.
pub open spec fn contenido_aceptable(b: Seq<u8>, i: int) -> bool {
    match leer_tlv(b, i) {
        Some((0x30, a, _e)) => match leer_tlv(b, a) {
            Some((0x06, oa, oe)) => if b.subrange(oa, oe) != oid_encrypted_data() {
                true
            } else {
                match leer_tlv(b, oe) {
                    Some((0xa0, xa, _xe)) => match leer_tlv(b, xa) {
                        Some((0x30, ea, _ee)) => match leer_tlv(b, ea) {
                            Some((0x02, va, ve)) => b.subrange(va, ve) == seq![0u8] && match leer_tlv(
                                b,
                                ve,
                            ) {
                                Some((0x30, ia, _ie)) => match leer_tlv(b, ia) {
                                    Some((0x06, ta, te)) => b.subrange(ta, te) == oid_data(),
                                    _ => false,
                                },
                                _ => false,
                            },
                            _ => false,
                        },
                        _ => false,
                    },
                    _ => false,
                }
            },
            _ => false,
        },
        _ => false,
    }
}

/// Whether every element of `b` from `i` up to `fin` can be read and is an
/// acceptable `ContentInfo`.
pub open spec fn contenidos_aceptables(b: Seq<u8>, i: int, fin: int) -> bool
    decreases fin - i,
{
    if i >= fin {
        true
    } else {
        match leer_tlv(b, i) {
            Some((_t, _a, e)) => e > i && e <= fin && contenido_aceptable(b, i)
                && contenidos_aceptables(b, e, fin),
            None => false,
        }
    }
}

/// Whether the `p12` crate's parser reads a store without tripping its
/// assertions: the `authSafe` holds `data`, and that data is a `SEQUENCE`
/// of acceptable `ContentInfo`s. A store read otherwise is not accepted.
pub open spec fn almacen_legible(raw: Seq<u8>) -> bool {
    match leer_tlv(raw, 0) {
        Some((0x30, a, _e)) => match leer_tlv(raw, a) {
            Some((0x02, _va, ve)) => match leer_tlv(raw, ve) {
                Some((0x30, ca, _ce)) => match leer_tlv(raw, ca) {
                    Some((0x06, oa, oe)) => raw.subrange(oa, oe) == oid_data() && match leer_tlv(
                        raw,
                        oe,
                    ) {
                        Some((0xa0, xa, _xe)) => match leer_tlv(raw, xa) {
                            Some((0x04, da, de)) => {
                                let data = raw.subrange(da, de);
                                match leer_tlv(data, 0) {
                                    Some((0x30, sa, se)) => contenidos_aceptables(data, sa, se),
                                    _ => false,
                                }
                            },
                            _ => false,
                        },
                        _ => false,
                    },
                    _ => false,
                },
                _ => false,
            },
            _ => false,
        },
        _ => false,
    }
}

/// Whether `b[a..e]` is `c`.
fn contenido_es(b: &[u8], a: usize, e: usize, c: &[u8]) -> (r: bool)
    requires
        a <= e <= b@.len(),
    ensures
        r == (b@.subrange(a as int, e as int) == c@),
{
    let t = tramo_bytes(b, a, e);
    iguales_bytes(t.as_slice(), c)
}

/// Tells whether an element is an acceptable `ContentInfo`.
fn es_contenido_aceptable(b: &[u8], i: usize) -> (r: bool)
    ensures
        r == contenido_aceptable(b@, i as int),
{
    let data = [0x2au8, 0x86u8, 0x48u8, 0x86u8, 0xf7u8, 0x0du8, 0x01u8, 0x07u8, 0x01u8];
    let cifrado = [0x2au8, 0x86u8, 0x48u8, 0x86u8, 0xf7u8, 0x0du8, 0x01u8, 0x07u8, 0x06u8];
    let cero = [0u8];
    assert(data@ == oid_data());
    assert(cifrado@ == oid_encrypted_data());
    assert(cero@ == seq![0u8]);
    let (t, a, _e) = match leer_tlv_en(b, i) {
        Some(x) => x,
        None => return false,
    };
    if t != 0x30 {
        return false;
    }
    let (t, oa, oe) = match leer_tlv_en(b, a) {
        Some(x) => x,
        None => return false,
    };
    if t != 0x06 {
        return false;
    }
    if !contenido_es(b, oa, oe, cifrado.as_slice()) {
        return true;
    }
    let (t, xa, _xe) = match leer_tlv_en(b, oe) {
        Some(x) => x,
        None => return false,
    };
    if t != 0xa0 {
        return false;
    }
    let (t, ea, _ee) = match leer_tlv_en(b, xa) {
        Some(x) => x,
        None => return false,
    };
    if t != 0x30 {
        return false;
    }
    let (t, va, ve) = match leer_tlv_en(b, ea) {
        Some(x) => x,
        None => return false,
    };
    if t != 0x02 || !contenido_es(b, va, ve, cero.as_slice()) {
        return false;
    }
    let (t, ia, _ie) = match leer_tlv_en(b, ve) {
        Some(x) => x,
        None => return false,
    };
    if t != 0x30 {
        return false;
    }
    let (t, ta, te) = match leer_tlv_en(b, ia) {
        Some(x) => x,
        None => return false,
    };
    if t != 0x06 {
        return false;
    }
    contenido_es(b, ta, te, data.as_slice())
}

/// Tells whether a store can be handed to the `p12` crate, as
/// `almacen_legible` says.
pub fn es_almacen_legible(raw: &[u8]) -> (r: bool)
    ensures
        r == almacen_legible(raw@),
{
    let data_oid = [0x2au8, 0x86u8, 0x48u8, 0x86u8, 0xf7u8, 0x0du8, 0x01u8, 0x07u8, 0x01u8];
    assert(data_oid@ == oid_data());
    let (t, a, _e) = match leer_tlv_en(raw, 0) {
        Some(x) => x,
        None => return false,
    };
    if t != 0x30 {
        return false;
    }
    let (t, _va, ve) = match leer_tlv_en(raw, a) {
        Some(x) => x,
        None => return false,
    };
    if t != 0x02 {
        return false;
    }
    let (t, ca, _ce) = match leer_tlv_en(raw, ve) {
        Some(x) => x,
        None => return false,
    };
    if t != 0x30 {
        return false;
    }
    let (t, oa, oe) = match leer_tlv_en(raw, ca) {
        Some(x) => x,
        None => return false,
    };
    if t != 0x06 || !contenido_es(raw, oa, oe, data_oid.as_slice()) {
        return false;
    }
    let (t, xa, _xe) = match leer_tlv_en(raw, oe) {
        Some(x) => x,
        None => return false,
    };
    if t != 0xa0 {
        return false;
    }
    let (t, da, de) = match leer_tlv_en(raw, xa) {
        Some(x) => x,
        None => return false,
    };
    if t != 0x04 {
        return false;
    }
    let data = tramo_bytes(raw, da, de);
    let (t, sa, se) = match leer_tlv_en(data.as_slice(), 0) {
        Some(x) => x,
        None => return false,
    };
    if t != 0x30 {
        return false;
    }
    assert(data@ == raw@.subrange(da as int, de as int));
    assert(almacen_legible(raw@) == contenidos_aceptables(data@, sa as int, se as int));
    let mut i: usize = sa;
    while i < se
        invariant
            se <= data@.len(),
            almacen_legible(raw@) == contenidos_aceptables(data@, i as int, se as int),
        decreases se - i,
    {
        let (_t, _a, e) = match leer_tlv_en(data.as_slice(), i) {
            Some(x) => x,
            None => return false,
        };
        if e <= i || e > se || !es_contenido_aceptable(data.as_slice(), i) {
            return false;
        }
        i = e;
    }
    true
}

} // verus!
