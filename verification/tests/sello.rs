use rubrica::asn1::{codificar_largo, codificar_tlv, leer_entero_u32, leer_largo_en, leer_tlv_en};
use rubrica::error::Error;
use rubrica::firma_cms::sha256;
use rubrica::tsa::{extract_token, peticion, peticion_de_resumen, token_de_respuesta, url_tsa};

#[test]
fn largo_der_corto_y_largo() {
    assert_eq!(codificar_largo(0), vec![0x00]);
    assert_eq!(codificar_largo(0x7f), vec![0x7f]);
    assert_eq!(codificar_largo(0x80), vec![0x81, 0x80]);
    assert_eq!(codificar_largo(0x100), vec![0x82, 0x01, 0x00]);
    assert_eq!(codificar_largo(0x12345), vec![0x83, 0x01, 0x23, 0x45]);
    assert_eq!(codificar_largo(0x0100_0000), vec![0x84, 0x01, 0x00, 0x00, 0x00]);
}

#[test]
fn elemento_der_se_lee_como_se_escribe() {
    let contenido = vec![7u8; 200];
    let mut b = vec![0xaa, 0xbb];
    b.extend(codificar_tlv(0x04, &contenido));
    b.push(0xcc);
    assert_eq!(leer_tlv_en(&b, 2), Some((0x04, 5, 205)));
    assert_eq!(leer_largo_en(&b, 3), Some((200, 5)));
}

#[test]
fn largos_no_canonicos_se_rechazan() {
    assert_eq!(leer_largo_en(&[0x80], 0), None);
    assert_eq!(leer_largo_en(&[0x81, 0x10], 0), None);
    assert_eq!(leer_largo_en(&[0x82, 0x00, 0x90], 0), None);
    assert_eq!(leer_largo_en(&[0x85, 1, 1, 1, 1, 1], 0), None);
    assert_eq!(leer_tlv_en(&[0x1f, 0x00], 0), None);
    assert_eq!(leer_tlv_en(&[0x04, 0x05, 0x00], 0), None);
}

#[test]
fn enteros_der_como_u32() {
    assert_eq!(leer_entero_u32(&[0x00]), Some(0));
    assert_eq!(leer_entero_u32(&[0x02]), Some(2));
    assert_eq!(leer_entero_u32(&[0x00, 0x80]), Some(128));
    assert_eq!(leer_entero_u32(&[0x00, 0x01]), None);
    assert_eq!(leer_entero_u32(&[0x80]), None);
    assert_eq!(leer_entero_u32(&[0x00, 0xff, 0xff, 0xff, 0xff]), Some(u32::MAX));
    assert_eq!(leer_entero_u32(&[0x01, 0x00, 0x00, 0x00, 0x00]), None);
    assert_eq!(leer_entero_u32(&[]), None);
}

#[test]
fn peticion_de_sello_sha256() {
    let resumen = [0x11u8; 32];
    let r = peticion_de_resumen(&resumen);
    assert_eq!(r.len(), 57);
    let mut esperado = vec![
        0x30, 0x37, 0x02, 0x01, 0x01, 0x30, 0x2f, 0x30, 0x0b, 0x06, 0x09, 0x60, 0x86, 0x48, 0x01,
        0x65, 0x03, 0x04, 0x02, 0x01, 0x04, 0x20,
    ];
    esperado.extend_from_slice(&resumen);
    esperado.extend_from_slice(&[0x01, 0x01, 0xff]);
    assert_eq!(r, esperado);
}

#[test]
fn peticion_lleva_el_resumen_de_los_datos() {
    let datos = b"abc";
    let resumen = sha256(datos);
    assert_eq!(
        resumen,
        vec![
            0xba, 0x78, 0x16, 0xbf, 0x8f, 0x01, 0xcf, 0xea, 0x41, 0x41, 0x40, 0xde, 0x5d, 0xae,
            0x22, 0x23, 0xb0, 0x03, 0x61, 0xa3, 0x96, 0x17, 0x7a, 0x9c, 0xb4, 0x10, 0xff, 0x61,
            0xf2, 0x00, 0x15, 0xad
        ]
    );
    let r = peticion(datos);
    assert_eq!(&r[22..54], resumen.as_slice());
    assert_ne!(peticion(datos), peticion(b"abd"));
}

#[test]
fn tsa_por_defecto() {
    assert_eq!(url_tsa(None), "https://freetsa.org/tsr");
    assert_eq!(url_tsa(Some("https://tsa.example/x")), "https://tsa.example/x");
}

fn respuesta(estado: &[u8], token: &[u8]) -> Vec<u8> {
    let entero = codificar_tlv(0x02, estado);
    let mut cuerpo = codificar_tlv(0x30, &entero);
    cuerpo.extend_from_slice(token);
    codificar_tlv(0x30, &cuerpo)
}

#[test]
fn respuesta_concedida_devuelve_el_token() {
    let token = vec![0x30, 0x03, 0x02, 0x01, 0x05];
    assert_eq!(extract_token(&respuesta(&[0], &token)), Ok(token.clone()));
    assert_eq!(extract_token(&respuesta(&[1], &token)), Ok(token.clone()));
}

#[test]
fn respuesta_rechazada_indica_el_estado() {
    let token = vec![0x30, 0x03, 0x02, 0x01, 0x05];
    assert_eq!(
        extract_token(&respuesta(&[2], &token)),
        Err(Error::Tsa("la TSA rechazó la petición (estado 2)".to_string()))
    );
}

#[test]
fn respuesta_sin_sello() {
    assert_eq!(
        extract_token(&respuesta(&[0], &[])),
        Err(Error::Tsa("la respuesta no incluye sello".to_string()))
    );
}

#[test]
fn respuesta_invalida() {
    let invalida = Err(Error::Tsa("respuesta inválida".to_string()));
    assert_eq!(extract_token(b"no es DER"), invalida);
    let mut con_cola = respuesta(&[0], &[0x30, 0x00]);
    con_cola.push(0);
    assert_eq!(extract_token(&con_cola), invalida);
    assert_eq!(extract_token(&respuesta(&[0x00, 0x00], &[])), invalida);
}

#[test]
fn codigo_http_distinto_de_200() {
    assert_eq!(
        token_de_respuesta(404, b""),
        Err(Error::Tsa("la TSA respondió 404".to_string()))
    );
    let token = vec![0x04, 0x01, 0x09];
    assert_eq!(token_de_respuesta(200, &respuesta(&[0], &token)), Ok(token));
}
