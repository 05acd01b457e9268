use evo::db::{add_db_config, decode_cell, missing_connection, remove_db_config, Cell, ColumnProbe, ConnectionRegistry};
use evo::model::DbConfig;
use evo::reply::BodyKind;
use evo::script::{console_line, script_reply, set_status_code, ScriptValue};

#[test]
fn script_status_and_object_result() {
    let status = set_status_code(200, 201);
    let r = script_reply(status, Ok(ScriptValue::Rendered("{\"ok\":true}".to_string())));
    assert_eq!(r.status, 201);
    assert_eq!(r.body, "{\"ok\":true}");
}

#[test]
fn script_text_result_parsed_as_json() {
    let r = script_reply(201, Ok(ScriptValue::Text("{\"ok\": true}".to_string())));
    assert_eq!(r.kind, BodyKind::Json);
    assert_eq!(r.body, "{\"ok\":true}");
    let r = script_reply(200, Ok(ScriptValue::Text("plain words".to_string())));
    assert_eq!(r.kind, BodyKind::Plain);
    assert_eq!(r.body, "plain words");
}

#[test]
fn invalid_script_status_is_ignored() {
    assert_eq!(set_status_code(200, 42), 200);
    assert_eq!(set_status_code(200, 1000), 200);
    assert_eq!(set_status_code(200, 999), 999);
}

#[test]
fn missing_connection_is_script_error() {
    let conns: ConnectionRegistry<u32> = ConnectionRegistry::new();
    let err = conns.lookup("missing").unwrap_err();
    assert_eq!(err, "Connection 'missing' not found");
    let r = script_reply(200, Err(err));
    assert_eq!(r.status, 500);
    assert!(r.body.contains("missing"));
    assert_eq!(r.body, "JS Error: Connection 'missing' not found");
}

#[test]
fn connection_registry_replaces_and_removes() {
    let mut conns: ConnectionRegistry<u32> = ConnectionRegistry::new();
    conns.insert("main".to_string(), 1);
    conns.insert("other".to_string(), 2);
    conns.insert("main".to_string(), 3);
    assert_eq!(*conns.lookup("main").unwrap(), 3);
    conns.remove("main");
    assert!(conns.lookup("main").is_err());
    assert_eq!(*conns.lookup("other").unwrap(), 2);
    assert_eq!(missing_connection("x"), "Connection 'x' not found");
}

#[test]
fn console_arguments_joined_by_spaces() {
    let parts = vec!["a".to_string(), "{\"b\":1}".to_string(), "c".to_string()];
    assert_eq!(console_line(&parts), "a {\"b\":1} c");
    assert_eq!(console_line(&Vec::new()), "");
}

fn probe() -> ColumnProbe {
    ColumnProbe { text: None, int64: None, real: None, boolean: None, int16: None, int32: None }
}

#[test]
fn column_decode_order() {
    let mut p = probe();
    p.text = Some("t".to_string());
    p.int64 = Some(5);
    assert!(matches!(decode_cell(p), Cell::Text(ref t) if t == "t"));
    let mut p = probe();
    p.int64 = Some(5);
    p.real = Some(serde_json::Number::from_f64(5.0));
    assert!(matches!(decode_cell(p), Cell::Integer(5)));
    let mut p = probe();
    p.real = Some(None);
    p.boolean = Some(true);
    assert!(matches!(decode_cell(p), Cell::Null));
    let mut p = probe();
    p.boolean = Some(true);
    p.int16 = Some(3);
    assert!(matches!(decode_cell(p), Cell::Boolean(true)));
    let mut p = probe();
    p.int32 = Some(-7);
    assert!(matches!(decode_cell(p), Cell::Integer(-7)));
    assert!(matches!(decode_cell(probe()), Cell::Null));
}

#[test]
fn saved_connections_replace_by_name() {
    let mut configs = vec![
        DbConfig { name: "a".to_string(), url: "u1".to_string() },
        DbConfig { name: "b".to_string(), url: "u2".to_string() },
    ];
    add_db_config(&mut configs, "a".to_string(), "u3".to_string());
    assert_eq!(configs.len(), 2);
    assert_eq!(configs[0].name, "b");
    assert_eq!(configs[1].url, "u3");
    remove_db_config(&mut configs, "b");
    assert_eq!(configs.len(), 1);
    assert_eq!(configs[0].name, "a");
}
