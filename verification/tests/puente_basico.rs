use rubrica::larioja::{parse_estado, Cliente};
use rubrica::protocol::{id_from_carfirma_string, json_campo, parse, url_base_from_id, url_decode};
use rubrica::proveedores::{para_esquema, AfirmaProvider, ProveedorSede};

#[test]
fn construye_la_url_del_servicio() {
    let c = Cliente::new("https://ias1.larioja.org/carFirma");
    assert_eq!(
        c.url("status"),
        "https://ias1.larioja.org/carFirma/servicioFirma/firmas/status"
    );
}

#[test]
fn parsea_el_estado() {
    let json = r#"{"bloqueada":"false","urlActualizacion":"x","versionActual":"1","versionMinimaPermitida":"1"}"#;
    let e = parse_estado(json);
    assert!(!e.bloqueada);
    assert_eq!(e.version_actual, "1");
    assert_eq!(e.version_minima, "1");
}

#[test]
fn parsea_operacion_y_parametros() {
    let uri = "afirma://sign?op=sign&format=pades&algorithm=SHA256withRSA&ks=WINDOWS&un&dat=SGVsbG8%3D";
    let inv = parse(uri);
    assert_eq!(inv.operation, "sign");
    assert_eq!(inv.format.as_deref(), Some("pades"));
    assert_eq!(inv.algorithm.as_deref(), Some("SHA256withRSA"));
    assert_eq!(inv.keystore.as_deref(), Some("WINDOWS"));
    assert!(inv.single_cert);
    assert_eq!(inv.data.as_deref(), Some("SGVsbG8="));
}

#[test]
fn parsea_flags_de_certificado() {
    let inv = parse("afirma://sign?id=ABC123&dn&sf&nc");
    assert_eq!(inv.id.as_deref(), Some("ABC123"));
    assert!(inv.only_dnie);
    assert!(inv.only_sign);
    assert!(inv.no_expired);
    assert!(!inv.single_cert);
}

#[test]
fn sin_parametros() {
    let inv = parse("afirma://echo");
    assert_eq!(inv.operation, "echo");
    assert!(inv.id.is_none());
}

#[test]
fn url_decode_porcentajes() {
    assert_eq!(url_decode("a%20b%2Bc"), "a b+c");
    assert_eq!(url_decode("https%3A%2F%2Fx.es"), "https://x.es");
}

#[test]
fn url_decode_sin_escapes_no_cambia() {
    assert_eq!(url_decode("https://sede.es/firma?x=ñandú"), "https://sede.es/firma?x=ñandú");
    assert_eq!(url_decode(""), "");
}

#[test]
fn extrae_servidor_y_id_del_carfirma_string() {
    let id = "cfStr]https://firmadigital.larioja.org/afirma-server]1_ABCD1234";
    assert_eq!(
        url_base_from_id(id).as_deref(),
        Some("https://firmadigital.larioja.org/afirma-server")
    );
    assert_eq!(id_from_carfirma_string(id).as_deref(), Some("1_ABCD1234"));
}

#[test]
fn id_sin_prefijo_se_devuelve_tal_cual() {
    assert_eq!(url_base_from_id("ABC123"), None);
    assert_eq!(id_from_carfirma_string("ABC123").as_deref(), Some("ABC123"));
}

#[test]
fn elige_el_proveedor_segun_el_esquema() {
    assert_eq!(
        para_esquema("carfirma://firmar?id=x").nombre(),
        "carFirma (La Rioja)"
    );
    assert_eq!(
        para_esquema("idazki://sign?dat=x").nombre(),
        "Idazki (País Vasco)"
    );
    assert_eq!(
        para_esquema("afirma://sign?dat=x").nombre(),
        "AutoFirma (@firma)"
    );
}

#[test]
fn afirma_descarga_datos_embebidos_en_base64() {
    let inv = parse("afirma://sign?dat=SGVsbG8%3D");
    let sol = AfirmaProvider.preparar(&inv);
    assert_eq!(sol.documento.as_deref(), Some(b"Hello".as_slice()));
}

#[test]
fn url_decode_deshace_los_escapes() {
    assert_eq!(url_decode("%C3%B1and%C3%BA"), "ñandú");
    assert_eq!(url_decode("%c3%b1and%c3%ba"), "ñandú");
    assert_eq!(url_decode("%zz+%4"), "%zz %4");
    let texto = "a b/ñ";
    let escapado: String = texto.bytes().map(|b| format!("%{:02X}", b)).collect();
    assert_eq!(url_decode(&escapado), texto);
    let minusculas: String = texto.bytes().map(|b| format!("%{:02x}", b)).collect();
    assert_eq!(url_decode(&minusculas), texto);
}

#[test]
fn partes_del_id_de_carfirma() {
    assert_eq!(url_base_from_id("cfStr]abc"), None);
    assert_eq!(id_from_carfirma_string("cfStr]abc").as_deref(), Some("abc"));
    assert_eq!(url_base_from_id("cfStr]a]"), Some("a".to_string()));
    assert_eq!(id_from_carfirma_string("cfStr]a]").as_deref(), Some(""));
    assert_eq!(id_from_carfirma_string("cfStr").as_deref(), Some("cfStr"));
    let id = "cfStr]https://s/x]S1";
    let base = url_base_from_id(id).unwrap();
    let ses = id_from_carfirma_string(id).unwrap();
    assert_eq!(format!("cfStr]{}]{}", base, ses), id);
}

#[test]
fn campo_json_tras_la_llave() {
    assert_eq!(json_campo("{\"k\":\"v\",\"x\":\"y\"}", "k").as_deref(), Some("v"));
    assert_eq!(json_campo("{\"k\": \"v\"}", "k").as_deref(), Some("v"));
    assert_eq!(json_campo("{\"k\":1}", "k"), None);
    assert_eq!(json_campo("{\"a\":\"b\"}", "k"), None);
}
