use rubrica::certificados::{certificados_en, directorios, es_certificado, Certificado, Entrada};
use rubrica::web::{field, handle_sign, is_pdf, leer_peticion, quote, respuesta_error, signed_name};

fn entrada(ruta: &str, ext: Option<&str>, nombre: Option<&str>) -> Entrada {
    Entrada {
        ruta: ruta.to_string(),
        extension: ext.map(|e| e.to_string()),
        nombre: nombre.map(|n| n.to_string()),
    }
}

#[test]
fn carpetas_buscadas() {
    assert_eq!(
        directorios("/home/ana"),
        vec![
            "/home/ana".to_string(),
            "/home/ana/Descargas".to_string(),
            "/home/ana/Documentos".to_string(),
            "/home/ana/.rubrica/certificados".to_string(),
        ]
    );
}

#[test]
fn extensiones_de_almacen() {
    assert!(es_certificado(Some("p12")));
    assert!(es_certificado(Some("PFX")));
    assert!(es_certificado(Some("P12")));
    assert!(!es_certificado(Some("pem")));
    assert!(!es_certificado(Some("p12x")));
    assert!(!es_certificado(None));
}

#[test]
fn certificados_ordenados_por_nombre() {
    let es = vec![
        entrada("/h/z.p12", Some("p12"), Some("z.p12")),
        entrada("/h/nota.txt", Some("txt"), Some("nota.txt")),
        entrada("/h/B.PFX", Some("PFX"), Some("B.PFX")),
        entrada("/h/a.p12", Some("p12"), Some("a.p12")),
        entrada("/h/raro.p12", Some("p12"), None),
        entrada("/h/otro/a.p12", Some("p12"), Some("a.p12")),
    ];
    let cs: Vec<(String, String)> = certificados_en(&es).into_iter().map(|c: Certificado| (c.ruta, c.nombre)).collect();
    assert_eq!(
        cs,
        vec![
            ("/h/B.PFX".to_string(), "B.PFX".to_string()),
            ("/h/a.p12".to_string(), "a.p12".to_string()),
            ("/h/otro/a.p12".to_string(), "a.p12".to_string()),
            ("/h/raro.p12".to_string(), "certificado".to_string()),
            ("/h/z.p12".to_string(), "z.p12".to_string()),
        ]
    );
}

#[test]
fn campo_con_escapes() {
    let body = r#"{"name": "mi \"doc\".pdf", "password":"a\\b"}"#;
    assert_eq!(field(body, "name").as_deref(), Some("mi \"doc\".pdf"));
    assert_eq!(field(body, "password").as_deref(), Some("a\\b"));
    assert_eq!(field(body, "document"), None);
    assert_eq!(field(r#"{"name": 3}"#, "name"), None);
    assert_eq!(field(r#"{"name": "sin cierre"#, "name"), None);
}

#[test]
fn comillas_json() {
    assert_eq!(quote("a\"b\\c\nd"), "\"a\\\"b\\\\c\\nd\"");
    assert_eq!(quote(""), "\"\"");
}

#[test]
fn lo_citado_se_lee_igual() {
    let s = "ruta \"C:\\x\" ñ";
    let body = format!("{{\"k\":{}}}", quote(s));
    assert_eq!(field(&body, "k").as_deref(), Some(s));
}

#[test]
fn nombre_del_fichero_firmado() {
    assert_eq!(signed_name("contrato.pdf", true), "contrato-firmado.pdf");
    assert_eq!(signed_name("datos", false), "datos-firmado.p7s");
    assert_eq!(signed_name("a.b.c", false), "a.b-firmado.p7s");
}

#[test]
fn detecta_pdf() {
    assert!(is_pdf(b"%PDF-1.7\n"));
    assert!(!is_pdf(b"%PDF"));
    assert!(!is_pdf(b"hola"));
}

#[test]
fn peticiones_incompletas() {
    assert_eq!(leer_peticion("{}").err().as_deref(), Some("falta el documento"));
    assert_eq!(
        leer_peticion(r#"{"document":"SGVsbG8="}"#).err().as_deref(),
        Some("falta el certificado")
    );
    assert_eq!(
        leer_peticion(r#"{"document":"***","certificate":"AAAA"}"#).err().as_deref(),
        Some("documento no es base64")
    );
    assert_eq!(
        leer_peticion(r#"{"document":"SGVsbG8=","certificate":"%%"}"#).err().as_deref(),
        Some("certificado no es base64")
    );
    let p = leer_peticion(r#"{"document":"SGVsbG8=","certificate":"AAE="}"#).unwrap();
    assert_eq!(p.documento, b"Hello".to_vec());
    assert_eq!(p.certificado, vec![0, 1]);
    assert_eq!(p.password, "");
    assert_eq!(p.name, "documento");
}

#[test]
fn respuesta_de_error() {
    assert_eq!(respuesta_error("falta \"x\""), "{\"error\":\"falta \\\"x\\\"\"}");
    assert_eq!(
        handle_sign("{}"),
        (400, "{\"error\":\"falta el documento\"}".to_string())
    );
}

#[test]
fn campo_citado_tras_la_llave() {
    let s = "dice \"hola\" \\ adiós";
    let body = format!("{{\"name\":{},\"x\":1}}", quote(s));
    assert_eq!(field(&body, "name").as_deref(), Some(s));
}
