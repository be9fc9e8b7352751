//! Text encodings of binary data: hexadecimal, base64 and UTF-8.

use vstd::prelude::*;
use vstd::utf8::{decode_utf8, valid_utf8};
use base64::Engine;
use crate::protocol::{byte_hex, valor_hex};

verus! {

/// The lowercase hexadecimal digit of a value below sixteen.
pub open spec fn digito_hex(v: nat) -> u8 {
    if v < 10 {
        (0x30 + v) as u8
    } else {
        (0x61 + v - 10) as u8
    }
}

/// The lowercase hexadecimal text of some bytes, two digits per byte.
pub open spec fn hex_de(datos: Seq<u8>) -> Seq<u8>
    decreases datos.len(),
{
    if datos.len() == 0 {
        seq![]
    } else {
        hex_de(datos.drop_last()) + seq![
            digito_hex((datos.last() / 16) as nat),
            digito_hex((datos.last() % 16) as nat),
        ]
    }
}

/// The bytes that a hexadecimal text stands for: none when its length is odd
/// or when a character is not a hexadecimal digit (either case).
pub open spec fn bytes_de_hex(texto: Seq<u8>) -> Option<Seq<u8>>
    decreases texto.len(),
{
    if texto.len() % 2 != 0 {
        None
    } else if texto.len() == 0 {
        Some(seq![])
    } else {
        match (bytes_de_hex(texto.subrange(0, texto.len() - 2)), byte_hex(
            texto[texto.len() - 2],
            texto[texto.len() - 1],
        )) {
            (Some(prefijo), Some(b)) => Some(prefijo.push(b)),
            _ => None,
        }
    }
}

/// Hexadecimal text of some bytes, in lowercase.
///
/// Calls `hex::encode`, which writes each byte as two lowercase hexadecimal
/// digits, high half first; the text is handed back as its ASCII bytes.
#[verifier::external_body]
pub(crate) fn hex_encode(datos: &[u8]) -> (r: Vec<u8>)
    ensures
        r@ == hex_de(datos@),
{
    hex::encode(datos).into_bytes()
}

/// The bytes that a hexadecimal text stands for.
///
/// Calls `hex::decode`, which refuses a text of odd length or with a
/// character outside `0-9`, `a-f`, `A-F`, and otherwise reads each pair of
/// digits as one byte, high half first.
#[verifier::external_body]
pub(crate) fn hex_decode(texto: &[u8]) -> (r: Option<Vec<u8>>)
    ensures
        match r {
            Some(v) => bytes_de_hex(texto@) == Some(v@),
            None => bytes_de_hex(texto@) is None,
        },
{
    hex::decode(texto).ok()
}

/// What the standard engine of the `base64` crate decodes from some bytes,
/// if they are valid base64.
pub uninterp spec fn base64_decodificado(datos: Seq<u8>) -> Option<Seq<u8>>;

/// Decodes standard base64 (RFC 4648 alphabet, with padding).
///
/// Calls `base64::engine::general_purpose::STANDARD.decode`. The bytes that
/// come out, and which inputs are refused, are left to the name
/// `base64_decodificado`.
#[verifier::external_body]
pub(crate) fn decodificar_base64(datos: &[u8]) -> (r: Option<Vec<u8>>)
    ensures
        match r {
            Some(v) => base64_decodificado(datos@) == Some(v@),
            None => base64_decodificado(datos@) is None,
        },
{
    base64::engine::general_purpose::STANDARD.decode(datos).ok()
}

/// What the standard engine of the `base64` crate writes for some bytes.
pub uninterp spec fn base64_codificado(datos: Seq<u8>) -> Seq<char>;

/// Encodes bytes in standard base64 (RFC 4648 alphabet, with padding).
///
/// Calls `base64::engine::general_purpose::STANDARD.encode`; the text is left
/// to the name `base64_codificado`.
#[verifier::external_body]
pub(crate) fn codificar_base64(datos: &[u8]) -> (r: String)
    ensures
        r@ == base64_codificado(datos@),
{
    base64::engine::general_purpose::STANDARD.encode(datos)
}

/// Reads bytes as UTF-8 text.
///
/// Calls `std::str::from_utf8`, which accepts exactly the valid UTF-8
/// sequences and gives the characters they encode.
#[verifier::external_body]
pub(crate) fn texto_utf8(bytes: &[u8]) -> (r: Option<String>)
    ensures
        match r {
            Some(s) => valid_utf8(bytes@) && s@ == decode_utf8(bytes@),
            None => !valid_utf8(bytes@),
        },
{
    match std::str::from_utf8(bytes) {
        Ok(s) => Some(s.to_string()),
        Err(_) => None,
    }
}

} // verus!
