use rubrica::certificados::Certificado;
use rubrica::larioja::{estado_de_respuesta, Estado};
use rubrica::protocol::{id_from_carfirma_string, parse, url_base_from_id};
use rubrica::puente::{
    escape, handle, informe, opciones_certificados, process_operation, reemplazar, respuesta_http,
    servidor_a_consultar, servidor_y_sesion, ventana_html,
};

#[test]
fn eco_de_deteccion() {
    assert_eq!(handle("echo=-1:@1234"), "OK");
    assert_eq!(handle("afirma://sign?op=x"), "RUBRICA_RECEIVED:sign");
    assert_eq!(process_operation("afirma://batch"), "RUBRICA_RECEIVED:batch");
}

#[test]
fn escape_html() {
    assert_eq!(escape("a<b>&c"), "a&lt;b&gt;&amp;c");
    assert_eq!(escape("ñ"), "ñ");
}

#[test]
fn reemplazo_de_marcas() {
    assert_eq!(reemplazar("x{{A}}y{{A}}", "{{A}}", "1"), "x1y1");
    assert_eq!(reemplazar("aaa", "aa", "b"), "ba");
    assert_eq!(reemplazar("sin", "{{A}}", "1"), "sin");
}

fn cert(ruta: &str, nombre: &str) -> Certificado {
    Certificado { ruta: ruta.to_string(), nombre: nombre.to_string() }
}

#[test]
fn opciones_de_certificados() {
    assert_eq!(
        opciones_certificados(&[]),
        "<option value=\"\">No se encontró ningún certificado (.p12/.pfx)</option>"
    );
    assert_eq!(
        opciones_certificados(&[cert("/h/a&b.p12", "a&b.p12"), cert("/h/c.pfx", "c.pfx")]),
        "<option value=\"/h/a&amp;b.p12\">a&amp;b.p12</option>\n<option value=\"/h/c.pfx\">c.pfx</option>"
    );
}

#[test]
fn pagina_de_la_ventana() {
    let plantilla = "<h1>{{OPERACION}}</h1>{{SERVIDOR}}|{{SESION}}<select>{{OPCIONES_CERT}}</select><pre>{{DETALLE}}</pre>";
    let html = ventana_html(plantilla, "sign", "https://s<1>", "abc", &[cert("/p.p12", "p.p12")], "a & b");
    assert_eq!(
        html,
        "<h1>sign</h1>https://s&lt;1&gt;|abc<select><option value=\"/p.p12\">p.p12</option></select><pre>a &amp; b</pre>"
    );
}

#[test]
fn servidor_y_sesion_de_la_invocacion() {
    let inv = parse("carfirma://firmar?id=cfStr%5Dhttps%3A%2F%2Fs.es%5D1_AB");
    assert_eq!(servidor_y_sesion(&inv), ("https://s.es".to_string(), "1_AB".to_string()));
    let sin = parse("afirma://sign");
    assert_eq!(servidor_y_sesion(&sin), ("(desconocido)".to_string(), String::new()));
}

#[test]
fn respuesta_http_con_largo_en_bytes() {
    assert_eq!(
        respuesta_http("ñ"),
        "HTTP/1.1 200 OK\r\nContent-Type: text/html; charset=utf-8\r\nContent-Length: 2\r\nConnection: close\r\n\r\nñ"
    );
}

#[test]
fn informe_de_invocacion() {
    let url = "carfirma://firmar?id=cfStr%5Dhttps%3A%2F%2Fs.es%5D1_AB&format=pades";
    let inv = parse(url);
    assert_eq!(servidor_a_consultar(&inv).as_deref(), Some("https://s.es"));
    let estado = Estado { bloqueada: false, version_actual: "2".to_string(), version_minima: "1".to_string() };
    let r = informe(url, &inv, Some(Ok(estado)));
    assert_eq!(
        r,
        format!(
            "=== Invocación recibida desde la sede ===\nURL completa:\n{url}\n\noperación: firmar\nid (crudo): cfStr]https://s.es]1_AB\nservidor de firma (urlBase): https://s.es\nid de sesión: 1_AB\nestado del servicio: bloqueada=false, versión=2\nformato: pades\n"
        )
    );
    let r2 = informe("afirma://echo", &parse("afirma://echo"), None);
    assert_eq!(r2, "=== Invocación recibida desde la sede ===\nURL completa:\nafirma://echo\n\noperación: echo\n");
    let fallo = informe(url, &inv, Some(Err("sin red".to_string())));
    assert!(fallo.contains("no se pudo contactar el servicio: sin red\n"));
}

#[test]
fn estado_desde_la_respuesta_http() {
    assert_eq!(
        estado_de_respuesta(503, Ok(String::new())).err().as_deref(),
        Some("el servicio respondió 503")
    );
    let e = estado_de_respuesta(200, Ok(r#"{"bloqueada":"true","versionActual":"3"}"#.to_string())).unwrap();
    assert!(e.bloqueada);
    assert_eq!(e.version_actual, "3");
    assert_eq!(e.version_minima, "");
}

#[test]
fn id_carfirma_compuesto() {
    let id = format!("cfStr]{}]{}", "https://a]b", "SES");
    assert_eq!(url_base_from_id(&id).as_deref(), Some("https://a]b"));
    assert_eq!(id_from_carfirma_string(&id).as_deref(), Some("SES"));
    assert_eq!(url_base_from_id("cfStr]]x"), None);
}
