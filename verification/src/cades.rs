//! CAdES detached signatures of arbitrary data.

use vstd::prelude::*;
use crate::error::{Error, ErrorModelo};
use crate::keystore::{identidad_valida, Identity};
use crate::validate::{segun_validacion, validacion, verify_detached, Report};

verus! {

/// Signs data with a detached CMS signature over their SHA-256 digest.
pub fn sign(data: &[u8], identity: &Identity) -> (r: core::result::Result<Vec<u8>, Error>)
    requires
        identidad_valida(identity@),
        crate::firma_cms::cadena_sin_repetidos(identity@.cert, identity@.chain),
    ensures
        crate::firma_cms::identidad_firmable(identity@, None) ==> r is Ok,
        r matches Err(e) ==> e@ is Crypto,
        r matches Ok(v) ==> v@ == crate::firma_cms::cms_firmado(
            crate::firma_cms::resumen_sha256(data@),
            identity@.clave,
            identity@.cert,
            identity@.chain,
            None,
        ),
        r matches Ok(v) ==> crate::validate::recorte_der(v@) == crate::validate::Recorte::Prefijo(
            v@.len() as int,
        ),
        r matches Ok(v) ==> crate::firma_cms::firma_legible(
            v@,
            crate::firma_cms::resumen_sha256(data@),
            identity@,
        ),
        crate::firma_cms::resumen_sha256(data@).len() == 32,
{
    let digest = crate::firma_cms::sha256(data);
    crate::firma_cms::signed_data_detached(digest.as_slice(), identity)
}

/// Validates a detached CMS signature of some data.
pub fn verify(data: &[u8], signature: &[u8]) -> (r: core::result::Result<Report, Error>)
    ensures
        segun_validacion(r, validacion(data@, signature@)),
{
    verify_detached(data, signature)
}

/// Signing then validating: a detached signature that `sign` made for some
/// data, by an identity without chain, validates against any content `otro`:
/// it names the signer, its digest matches exactly when `otro` has the
/// data's SHA-256 digest, and, when the certificate carries the signer's
/// public key, the signature checks. So the signed data pass, and data of
/// another digest are refused.
pub proof fn ley_firmar_y_verificar(
    data: Seq<u8>,
    otro: Seq<u8>,
    firma: Seq<u8>,
    im: crate::keystore::IdentidadModelo,
)
    requires
        crate::firma_cms::firma_legible(firma, crate::firma_cms::resumen_sha256(data), im),
        crate::firma_cms::resumen_sha256(data).len() == 32,
        im.chain.len() == 0,
        crate::firma_cms::der_de_certificado(im.cert) is Some,
        crate::firma_cms::pareja(im.clave, crate::firma_cms::der_de_certificado(im.cert)->Some_0),
    ensures
        validacion(otro, firma) == Ok::<(Option<Seq<char>>, bool, bool), Seq<char>>(
            (
                crate::keystore::nombre_comun_cert(crate::firma_cms::der_de_certificado(im.cert)->Some_0),
                crate::firma_cms::resumen_sha256(data) == crate::firma_cms::resumen_sha256(otro),
                true,
            ),
        ),
{
    crate::firma_cms::ley_verificar_lo_firmado(
        firma,
        otro,
        crate::firma_cms::resumen_sha256(data),
        im.clave,
        im.cert,
    );
}

} // verus!
