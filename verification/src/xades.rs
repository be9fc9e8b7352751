//! XAdES enveloping signatures (XML-DSig with the data in an `Object`).

use vstd::prelude::*;
use vstd::utf8::encode_utf8;
use crate::codificacion::{base64_codificado, codificar_base64};
use crate::error::{Error, ErrorModelo};
use crate::firma_cms::{resumen_sha256, sha256};
use crate::keystore::{firma_de, identidad_valida, Identity};

verus! {

/// The namespace of XML signatures.
pub open spec fn dsig() -> Seq<char> {
    "http://www.w3.org/2000/09/xmldsig#"@
}

/// The `Object` element that carries the data, in base64.
pub open spec fn objeto(data: Seq<u8>) -> Seq<char> {
    "<Object xmlns=\""@ + dsig() + "\" Id=\"obj\">"@ + base64_codificado(data) + "</Object>"@
}

/// The `SignedInfo` element: canonical XML 1.0, RSA with SHA-256, and one
/// reference to the object with its SHA-256 digest.
pub open spec fn signed_info(data: Seq<u8>) -> Seq<char> {
    "<SignedInfo xmlns=\""@ + dsig() + "\">"@
        + "<CanonicalizationMethod Algorithm=\"http://www.w3.org/TR/2001/REC-xml-c14n-20010315\"></CanonicalizationMethod>"@
        + "<SignatureMethod Algorithm=\"http://www.w3.org/2001/04/xmldsig-more#rsa-sha256\"></SignatureMethod>"@
        + "<Reference URI=\"#obj\">"@
        + "<DigestMethod Algorithm=\"http://www.w3.org/2001/04/xmlenc#sha256\"></DigestMethod>"@
        + "<DigestValue>"@ + base64_codificado(resumen_sha256(encode_utf8(objeto(data))))
        + "</DigestValue>"@ + "</Reference>"@ + "</SignedInfo>"@
}

/// The signature document: the signed information, the signature of its
/// UTF-8 bytes, the signer's certificate and the object with the data.
pub open spec fn documento_xades(data: Seq<u8>, clave: (Seq<u8>, bool), cert: Seq<u8>) -> Seq<char> {
    "<?xml version=\"1.0\" encoding=\"UTF-8\"?>"@ + "<Signature xmlns=\""@ + dsig() + "\">"@
        + signed_info(data) + "<SignatureValue>"@ + base64_codificado(
        firma_de(clave, encode_utf8(signed_info(data))),
    ) + "</SignatureValue>"@ + "<KeyInfo><X509Data><X509Certificate>"@ + base64_codificado(cert)
        + "</X509Certificate></X509Data></KeyInfo>"@ + objeto(data) + "</Signature>"@
}

fn texto_objeto(b64: &str) -> (r: String)
    ensures
        r@ == "<Object xmlns=\""@ + dsig() + "\" Id=\"obj\">"@ + b64@ + "</Object>"@,
{
    String::from_str("<Object xmlns=\"").concat("http://www.w3.org/2000/09/xmldsig#").concat(
        "\" Id=\"obj\">",
    ).concat(b64).concat("</Object>")
}

fn texto_signed_info(digest_b64: &str) -> (r: String)
    ensures
        r@ == "<SignedInfo xmlns=\""@ + dsig() + "\">"@
            + "<CanonicalizationMethod Algorithm=\"http://www.w3.org/TR/2001/REC-xml-c14n-20010315\"></CanonicalizationMethod>"@
            + "<SignatureMethod Algorithm=\"http://www.w3.org/2001/04/xmldsig-more#rsa-sha256\"></SignatureMethod>"@
            + "<Reference URI=\"#obj\">"@
            + "<DigestMethod Algorithm=\"http://www.w3.org/2001/04/xmlenc#sha256\"></DigestMethod>"@
            + "<DigestValue>"@ + digest_b64@ + "</DigestValue>"@ + "</Reference>"@ + "</SignedInfo>"@,
{
    String::from_str("<SignedInfo xmlns=\"").concat("http://www.w3.org/2000/09/xmldsig#").concat(
        "\">",
    ).concat(
        "<CanonicalizationMethod Algorithm=\"http://www.w3.org/TR/2001/REC-xml-c14n-20010315\"></CanonicalizationMethod>",
    ).concat(
        "<SignatureMethod Algorithm=\"http://www.w3.org/2001/04/xmldsig-more#rsa-sha256\"></SignatureMethod>",
    ).concat("<Reference URI=\"#obj\">").concat(
        "<DigestMethod Algorithm=\"http://www.w3.org/2001/04/xmlenc#sha256\"></DigestMethod>",
    ).concat("<DigestValue>").concat(digest_b64).concat("</DigestValue>").concat(
        "</Reference>",
    ).concat("</SignedInfo>")
}

/// Signs data with an enveloping XML signature: the data go in base64 in
/// an `Object`, whose SHA-256 digest the `SignedInfo` carries; the UTF-8
/// bytes of the `SignedInfo` are signed with RSA PKCS#1 v1.5 and SHA-256,
/// and the signer's certificate goes in `KeyInfo`. Gives the UTF-8 bytes of
/// the document.
pub fn sign(data: &[u8], identity: &Identity) -> (r: core::result::Result<Vec<u8>, Error>)
    requires
        identidad_valida(identity@),
        crate::keystore::firma_sha256_cabe(identity@.clave),
    ensures
        r matches Ok(v) && v@ == encode_utf8(documento_xades(data@, identity@.clave, identity@.cert)),
{
    let datos_b64 = codificar_base64(data);
    let object = texto_objeto(datos_b64.as_str());
    assert(object@ == objeto(data@));
    let object_digest = codificar_base64(sha256(object.as_str().as_bytes()).as_slice());
    let info = texto_signed_info(object_digest.as_str());
    assert(info@ == signed_info(data@));
    let firma = match identity.firmar_sha256(info.as_str().as_bytes()) {
        Ok(f) => f,
        Err(e) => return Err(e),
    };
    let signature_b64 = codificar_base64(firma.as_slice());
    let cert_der = match identity.cert_der() {
        Ok(d) => d,
        Err(e) => return Err(e),
    };
    let cert_b64 = codificar_base64(cert_der.as_slice());
    let xml = String::from_str("<?xml version=\"1.0\" encoding=\"UTF-8\"?>").concat(
        "<Signature xmlns=\"",
    ).concat("http://www.w3.org/2000/09/xmldsig#").concat("\">").concat(info.as_str()).concat(
        "<SignatureValue>",
    ).concat(signature_b64.as_str()).concat("</SignatureValue>").concat(
        "<KeyInfo><X509Data><X509Certificate>",
    ).concat(cert_b64.as_str()).concat("</X509Certificate></X509Data></KeyInfo>").concat(
        object.as_str(),
    ).concat("</Signature>");
    assert(xml@ =~= documento_xades(data@, identity@.clave, identity@.cert));
    Ok(vstd::slice::slice_to_vec(xml.as_str().as_bytes()))
}

/// The reference of the signature is to the object that the document
/// carries: the document ends with the `Object` element that holds the data
/// in base64 and `</Signature>`, and its `SignedInfo` holds the reference
/// to `#obj` whose digest value is the base64 SHA-256 digest of the UTF-8
/// bytes of exactly that element.
pub proof fn ley_resumen_del_objeto(data: Seq<u8>, clave: (Seq<u8>, bool), cert: Seq<u8>)
    ensures
        ({
            let doc = documento_xades(data, clave, cert);
            let o = "<Object xmlns=\""@ + dsig() + "\" Id=\"obj\">"@ + base64_codificado(data)
                + "</Object>"@;
            let r = "<Reference URI=\"#obj\">"@
                + "<DigestMethod Algorithm=\"http://www.w3.org/2001/04/xmlenc#sha256\"></DigestMethod>"@
                + "<DigestValue>"@ + base64_codificado(resumen_sha256(encode_utf8(o)))
                + "</DigestValue>"@;
            let fin = o + "</Signature>"@;
            &&& fin.len() <= doc.len()
            &&& doc.subrange(doc.len() - fin.len(), doc.len() as int) == fin
            &&& exists|k: int| 0 <= k && k + r.len() <= doc.len() && #[trigger] doc.subrange(k, k + r.len()) == r
        }),
{
    let doc = documento_xades(data, clave, cert);
    let o = objeto(data);
    let r = "<Reference URI=\"#obj\">"@
        + "<DigestMethod Algorithm=\"http://www.w3.org/2001/04/xmlenc#sha256\"></DigestMethod>"@
        + "<DigestValue>"@ + base64_codificado(resumen_sha256(encode_utf8(o))) + "</DigestValue>"@;
    let fin = o + "</Signature>"@;
    let a = "<?xml version=\"1.0\" encoding=\"UTF-8\"?>"@ + "<Signature xmlns=\""@ + dsig() + "\">"@;
    let s1 = "<SignedInfo xmlns=\""@ + dsig() + "\">"@
        + "<CanonicalizationMethod Algorithm=\"http://www.w3.org/TR/2001/REC-xml-c14n-20010315\"></CanonicalizationMethod>"@
        + "<SignatureMethod Algorithm=\"http://www.w3.org/2001/04/xmldsig-more#rsa-sha256\"></SignatureMethod>"@;
    let s2 = "</Reference>"@ + "</SignedInfo>"@;
    assert(signed_info(data) =~= s1 + r + s2);
    let medio = s2 + "<SignatureValue>"@ + base64_codificado(
        firma_de(clave, encode_utf8(signed_info(data))),
    ) + "</SignatureValue>"@ + "<KeyInfo><X509Data><X509Certificate>"@ + base64_codificado(cert)
        + "</X509Certificate></X509Data></KeyInfo>"@;
    assert(doc =~= (a + s1) + r + medio + fin);
    let k = (a + s1).len() as int;
    assert(doc.subrange(k, k + r.len()) =~= r);
    assert(doc.subrange(doc.len() - fin.len(), doc.len() as int) =~= fin);
}

} // verus!
