use std::sync::Arc;

use xepak::cfg::{
    default_limit_key, default_limit_max, default_offset_key, default_port, default_specs_dir,
    EndpointSpecs, ResourceSpecs, RhaiScript, XepakConf, XepakSpecs,
};
use xepak::error::{DataSource, XepakError};
use xepak::float::Float64;
use xepak::json::{from_json_scalar, json_body_args, member_args, try_from_json, JsonNumber, JsonScalar};
use xepak::auth::{auth_specs_to_registry, CheckAuthConf, SimpleAuthSpecs};
use xepak::processor::{
    pre_process_request, query_pairs, query_values, steps_of, BodyToArgsProcessor,
    InputArgsValidator, PreProcessor, QueryArgsProcessor, Step,
};
use xepak::schema::{ArgSchema, ArgSchemaScope, ArgSchemaValidator, Schema};
use xepak::script::{
    dynamic_to_xepak, join, script_template, xepak_to_dynamic, DynamicFacts, RhaiQueryBuilder,
    RhaiRequestContext, ScriptValue,
};
use xepak::server::{
    pagination_headers, pick_response, to_error_object, wants_cbor, ArgInput, RequestArgs,
    ResponseData, CONTENT_TYPE_CBOR, CONTENT_TYPE_JSON,
};
use xepak::storage::{
    bind_arg, prepare_query, single_value, to_bind, BindValue, Resource, ResourceRequest,
    ResourceShema, StorageRequestArgs, StorageSettings, LIMIT_KEY, OFFSET_KEY,
};
use xepak::strmap::StrMap;
use xepak::types::{XepakType, XepakValue};

fn dec(v: f64) -> Float64 {
    Float64::new(v.to_bits(), v.to_string())
}

fn text(s: &str) -> XepakValue {
    XepakValue::from_str(s)
}

fn arg(name: &str, value: &str) -> ArgInput {
    ArgInput {
        name: name.to_string(),
        value: text(value),
        as_float: value.parse::<f64>().ok().map(dec),
    }
}

fn declare(ty: XepakType, validate: Vec<ArgSchemaValidator>) -> ArgSchema {
    ArgSchema { ty, scope: ArgSchemaScope::All, required: false, validate }
}

fn schema() -> Schema {
    let mut schema = Schema::new();
    schema.insert("id".to_string(), declare(XepakType::Int, vec![]));
    schema.insert(
        "ratio".to_string(),
        declare(
            XepakType::Float,
            vec![ArgSchemaValidator::RangeFloat { from: dec(0.0), to: dec(1.0) }],
        ),
    );
    schema.insert("limit".to_string(), declare(XepakType::Int, vec![]));
    schema.insert("offset".to_string(), declare(XepakType::Int, vec![]));
    schema
}

fn path(pairs: &[(&str, &str)]) -> Vec<(String, String)> {
    pairs.iter().map(|(k, v)| (k.to_string(), v.to_string())).collect()
}

fn as_text(value: Option<&XepakValue>) -> Option<String> {
    value.map(|v| v.as_string().unwrap())
}

#[test]
fn path_arguments_come_first() {
    let mut input = RequestArgs::new(Arc::new(schema()), false, path(&[("id", "7"), ("id", "8")]));
    assert!(input.has_any_arg("id"));
    assert!(!input.has_any_arg("name"));
    assert!(matches!(input.get_arg_value("id"), Some(XepakValue::Text(t)) if t == "8"));
    input.set_arg_with_schema("id".to_string(), text("9"), true, None).unwrap();
    input.set_arg_with_schema("name".to_string(), text("n"), true, None).unwrap();
    assert!(matches!(input.get_arg_value("id"), Some(XepakValue::Text(t)) if t == "8"));
    assert_eq!(as_text(input.get_arg_value("name")), Some("n".to_string()));
    assert!(input.get_arg_value("other").is_none());
    assert!(input.has_any_arg("name"));
}

#[test]
fn arguments_are_converted_when_they_are_set() {
    let mut input = RequestArgs::new(Arc::new(schema()), true, vec![]);
    input.set_arg_with_schema("id".to_string(), text("15"), true, None).unwrap();
    assert!(matches!(input.get_arg_value("id"), Some(XepakValue::Integer(15))));
    input.set_arg_with_schema("ratio".to_string(), text("0.5"), true, Some(dec(0.5))).unwrap();
    assert!(matches!(input.get_arg_value("ratio"), Some(XepakValue::Float(f)) if f.text() == "0.5"));
    // strictness applies to what comes from the request only
    assert!(matches!(
        input.set_arg_with_schema("extra".to_string(), text("x"), true, None),
        Err(XepakError::Input(_))
    ));
    assert!(!input.has_any_arg("extra"));
    input.set_arg_with_schema("extra".to_string(), text("x"), false, None).unwrap();
    assert!(input.has_any_arg("extra"));
    assert!(matches!(
        input.set_arg_with_schema("id".to_string(), text("x"), true, None),
        Err(XepakError::Decode(_))
    ));
    assert!(matches!(input.get_arg_value("id"), Some(XepakValue::Integer(15))));
    assert!(input.validate().is_ok());
    input.set_arg_with_schema("ratio".to_string(), text("1.5"), true, Some(dec(1.5))).unwrap();
    assert!(matches!(input.validate(), Err(XepakError::Input(_))));
    assert!(matches!(InputArgsValidator {}.handle(&input), Err(XepakError::Input(_))));
}

#[test]
fn limit_and_offset_are_computed() {
    let mut input = RequestArgs::new(Arc::new(schema()), false, vec![]);
    assert_eq!((input.get_limit(), input.get_offset()), (0, 0));
    input.parse_offset_limit("offset", "limit", 100);
    assert_eq!((input.get_limit(), input.get_offset()), (100, 0));
    input.set_arg_with_schema("limit".to_string(), text("20"), true, None).unwrap();
    input.set_arg_with_schema("offset".to_string(), text("40"), true, None).unwrap();
    input.parse_offset_limit("offset", "limit", 100);
    assert_eq!((input.get_limit(), input.get_offset()), (20, 40));
    assert_eq!((input.get_rows_limit(), input.get_rows_offset()), (20, 40));
    input.parse_offset_limit("", "", 5);
    assert_eq!((input.get_limit(), input.get_offset()), (20, 40));
    input.set_arg_with_schema("limit".to_string(), text("-1"), true, None).unwrap();
    input.set_arg_with_schema("offset".to_string(), text("-1"), true, None).unwrap();
    input.parse_offset_limit("offset", "limit", 100);
    assert_eq!((input.get_limit(), input.get_offset()), (100, 0));
    let mut args = StrMap::new();
    args.insert("l".to_string(), text("abc"));
    args.insert("o".to_string(), XepakValue::Float(dec(3.0)));
    let mut scripted = RequestArgs::new_in_script(args, 1, 2);
    assert_eq!((scripted.get_limit(), scripted.get_offset()), (1, 2));
    scripted.parse_offset_limit("o", "l", 9);
    assert_eq!((scripted.get_limit(), scripted.get_offset()), (9, 3));
}

#[test]
fn failures_are_answered_by_kind() {
    let cases = [
        (XepakError::NotFound("m".into()), 404, "not_found", Some("m")),
        (XepakError::Input("m".into()), 400, "bad_request", Some("m")),
        (XepakError::Decode("m".into()), 500, "internal_error", Some("m")),
        (XepakError::WeScrewed("m".into()), 500, "internal_error", Some("m")),
        (XepakError::Forbidden("m".into()), 403, "forbidden", Some("m")),
        (
            XepakError::ConvertValue(XepakType::Float, XepakType::Int, "m".into()),
            400,
            "bad_request",
            Some("Can't covert type from Float to Int: m"),
        ),
        (XepakError::Convert("m".into()), 400, "bad_request", Some("Can't covert: m")),
        (XepakError::Cfg("m".into()), 520, "unknown_error", None),
        (XepakError::Unexpected("m".into()), 520, "unknown_error", None),
        (XepakError::Io("m".into()), 520, "unknown_error", None),
    ];
    for (err, status, code, message) in cases {
        let (got, object) = to_error_object(err);
        assert_eq!(got, status);
        assert_eq!(as_text(object.get("code")), Some(code.to_string()));
        assert_eq!(as_text(object.get("message")), message.map(|m| m.to_string()));
        assert_eq!(object.len(), if message.is_some() { 2 } else { 1 });
    }
}

#[test]
fn answers_are_picked_and_described() {
    let mut row = StrMap::new();
    row.insert("a".to_string(), XepakValue::Integer(1));
    let mut other = StrMap::new();
    other.insert("a".to_string(), XepakValue::Integer(2));
    match pick_response(true, vec![row, other], "/x").unwrap() {
        ResponseData::One(record) => {
            assert!(matches!(record.get("a"), Some(XepakValue::Integer(1))))
        }
        other => panic!("{other:?}"),
    }
    match pick_response(true, vec![], "/x") {
        Err(XepakError::NotFound(detail)) => assert_eq!(detail, "Record not found at URI: /x"),
        other => panic!("{other:?}"),
    }
    assert!(matches!(pick_response(false, vec![], "/x"), Ok(ResponseData::Many(rows)) if rows.is_empty()));
    assert!(matches!(
        pick_response(false, vec![StrMap::new(), StrMap::new()], "/x"),
        Ok(ResponseData::Many(rows)) if rows.len() == 2
    ));
    assert!(pagination_headers(0, 0).is_empty());
    assert_eq!(pagination_headers(10, 0), vec![("X-Limit", "10".to_string())]);
    assert_eq!(pagination_headers(0, 5), vec![("X-Offset", "5".to_string())]);
    assert_eq!(
        pagination_headers(10, 5),
        vec![("X-Limit", "10".to_string()), ("X-Offset", "5".to_string())]
    );
    assert!(wants_cbor(Some(CONTENT_TYPE_CBOR)));
    assert!(!wants_cbor(Some(CONTENT_TYPE_JSON)));
    assert!(!wants_cbor(Some("application/cbor; q=1")));
    assert!(!wants_cbor(None));
}

#[test]
fn queries_are_prepared_with_their_values() {
    let mut input = RequestArgs::new(Arc::new(schema()), false, path(&[("id", "7")]));
    input.set_arg_with_schema("name".to_string(), text("n"), true, None).unwrap();
    input.set_arg_with_schema("big".to_string(), XepakValue::Integer(1i128 << 64 | 3), false, None).unwrap();
    input.set_arg_with_schema("none".to_string(), XepakValue::Null, false, None).unwrap();
    input.set_arg_with_schema("flag".to_string(), XepakValue::Boolean(true), false, None).unwrap();
    input.set_arg_with_schema("f".to_string(), XepakValue::Float(dec(0.25)), false, None).unwrap();
    input.parse_offset_limit("offset", "limit", 50);
    let ready = prepare_query(
        "SELECT * FROM t WHERE id={{id}} AND n={{name}} AND n2={{name}} AND c='{{id}}' AND b={{big}} AND x={{none}} AND y={{flag}} AND z={{f}} LIMIT {{-limit-}} OFFSET {{-offset-}}",
        &input,
    )
    .unwrap();
    assert_eq!(
        ready.sql,
        "SELECT * FROM t WHERE id=? AND n=? AND n2=? AND c='{{id}}' AND b=? AND x=? AND y=? AND z=? LIMIT ? OFFSET ?"
    );
    assert_eq!(ready.values.len(), 9);
    assert!(matches!(&ready.values[0], BindValue::Text(t) if t == "7"));
    assert!(matches!(&ready.values[1], BindValue::Text(t) if t == "n"));
    assert!(matches!(&ready.values[2], BindValue::Text(t) if t == "n"));
    assert!(matches!(&ready.values[3], BindValue::BigInt(3)));
    assert!(matches!(&ready.values[4], BindValue::Null));
    assert!(matches!(&ready.values[5], BindValue::Boolean(true)));
    assert!(matches!(&ready.values[6], BindValue::Double(f) if f.bits() == 0.25f64.to_bits()));
    assert!(matches!(&ready.values[7], BindValue::BigInt(50)));
    assert!(matches!(&ready.values[8], BindValue::BigInt(0)));

    let plain = prepare_query("SELECT 1", &input).unwrap();
    assert_eq!(plain.sql, "SELECT 1");
    assert!(plain.values.is_empty());

    match prepare_query("SELECT {{id}}, {{missing}}, {{gone}}", &input) {
        Err(XepakError::Input(detail)) => assert_eq!(
            detail,
            "Can't bind argument 'missing' - does not exists in request."
        ),
        other => panic!("{other:?}"),
    }
    assert!(matches!(bind_arg(&input, LIMIT_KEY), Ok(BindValue::BigInt(50))));
    assert!(matches!(bind_arg(&input, OFFSET_KEY), Ok(BindValue::BigInt(0))));
    assert!(matches!(bind_arg(&input, "nope"), Err(XepakError::Input(_))));
    assert!(matches!(to_bind(&XepakValue::Integer(-1)), BindValue::BigInt(-1)));
    assert!(matches!(to_bind(&XepakValue::Integer(i64::MAX as i128 + 1)), BindValue::BigInt(i64::MIN)));
    let request = ResourceRequest::new("SELECT 1", &input);
    assert_eq!(request.query, "SELECT 1");
    assert_eq!(request.args.get_rows_limit(), 50);
    let _ = (ResourceShema {}, Resource { sql: String::new() }, DataSource {});
}

#[test]
fn single_values() {
    match single_value(None) {
        Err(XepakError::NotConsistent(detail)) => {
            assert_eq!(detail, "Expect to have non empty response from DB")
        }
        other => panic!("{other:?}"),
    }
    assert!(matches!(single_value(Some(StrMap::new())), Err(XepakError::Unexpected(_))));
    let mut one = StrMap::new();
    one.insert("c".to_string(), XepakValue::Integer(5));
    assert!(matches!(single_value(Some(one)), Ok(XepakValue::Integer(5))));
    let mut two = StrMap::new();
    two.insert("c".to_string(), XepakValue::Integer(5));
    two.insert("d".to_string(), XepakValue::Integer(6));
    match single_value(Some(two)) {
        Err(XepakError::NotConsistent(detail)) => {
            assert_eq!(detail, "Expect to have only single column in response not 2")
        }
        other => panic!("{other:?}"),
    }
}

#[test]
fn configuration() {
    let storage = StorageSettings::Sqlite { id: "main".into(), file: "db.sqlite".into(), wal: true };
    assert_eq!(storage.get_id(), "main");
    let conf = XepakConf { port: default_port(), specs_dir: default_specs_dir(), storage: vec![] };
    assert!(!conf.validate());
    let conf = XepakConf { port: 1, specs_dir: "x".into(), storage: vec![storage] };
    assert!(conf.validate());
    assert_eq!(default_port(), 8080);
    assert_eq!(default_specs_dir(), "./specs");
    assert_eq!(default_limit_key(), "limit");
    assert_eq!(default_offset_key(), "offset");
    assert_eq!(default_limit_max(), 1000);

    let endpoint = |uri: &str| EndpointSpecs {
        uri: uri.to_string(),
        resource: ResourceSpecs::Query { data_source: "main".into(), query: "SELECT 1".into() },
        schema: Schema::new(),
        strict_schema: false,
        limit_arg: default_limit_key(),
        fetch_limit: default_limit_max(),
        offset_arg: default_offset_key(),
        single_record_response: false,
        processor: vec![PreProcessor::ParseBodyArgs],
    };
    let script = |id: &str| RhaiScript { id: id.to_string(), script: String::new() };
    let mut specs = XepakSpecs { auth: None, script: vec![script("a")], endpoint: vec![endpoint("/a")] };
    assert!(specs.validate());
    specs.extend(XepakSpecs {
        auth: Some(xepak::cfg::XepakAuthSpecs { simple: vec![] }),
        script: vec![script("b")],
        endpoint: vec![endpoint("/b"), endpoint("/c")],
    });
    assert!(specs.auth.is_some());
    assert_eq!(specs.script.iter().map(|s| s.id.as_str()).collect::<Vec<_>>(), vec!["a", "b"]);
    assert_eq!(
        specs.endpoint.iter().map(|e| e.uri.as_str()).collect::<Vec<_>>(),
        vec!["/a", "/b", "/c"]
    );
    assert!(specs.validate());
    specs.extend(XepakSpecs { auth: None, script: vec![script("a")], endpoint: vec![] });
    assert!(specs.auth.is_some());
    assert!(!specs.validate());
    let twice = XepakSpecs { auth: None, script: vec![], endpoint: vec![endpoint("/a"), endpoint("/a")] };
    assert!(!twice.validate());
}

#[test]
fn query_builder() {
    let mut builder = RhaiQueryBuilder::new();
    assert_eq!(builder.build(), "");
    let mut builder = RhaiQueryBuilder::default();
    builder.add("SELECT *".to_string());
    builder.add("FROM t".to_string());
    builder.add_joined_parts(
        "WHERE".to_string(),
        vec!["a = 1".to_string(), "b = 2".to_string(), "c = 3".to_string()],
        "AND".to_string(),
        "".to_string(),
    );
    builder.add_joined_parts("never".to_string(), vec![], "x".to_string(), "y".to_string());
    builder.add_joined_parts(
        "".to_string(),
        vec!["ORDER BY a".to_string()],
        ",".to_string(),
        "LIMIT 1".to_string(),
    );
    assert_eq!(builder.build(), "SELECT * FROM t WHERE a = 1 AND b = 2 AND c = 3 ORDER BY a LIMIT 1");
    assert_eq!(builder.build(), "SELECT * FROM t WHERE a = 1 AND b = 2 AND c = 3 ORDER BY a LIMIT 1");
    assert_eq!(RhaiQueryBuilder::new_str("x".to_string()).build(), "x");
    assert_eq!(join(&vec!["a".to_string(), "".to_string(), "b".to_string()], "-"), "a--b");
    assert_eq!(join(&vec![], "-"), "");
}

fn facts() -> DynamicFacts {
    DynamicFacts {
        is_unit: false,
        is_bool: false,
        is_char: false,
        is_string: false,
        is_int: false,
        is_float: false,
        as_bool: None,
        as_int: None,
        as_float: None,
        text: String::new(),
        kind: "array".to_string(),
    }
}

#[test]
fn script_values() {
    assert!(matches!(dynamic_to_xepak(&DynamicFacts { is_unit: true, ..facts() }), Ok(XepakValue::Null)));
    assert!(matches!(
        dynamic_to_xepak(&DynamicFacts { is_bool: true, as_bool: Some(true), ..facts() }),
        Ok(XepakValue::Boolean(true))
    ));
    assert!(matches!(
        dynamic_to_xepak(&DynamicFacts { is_char: true, text: "c".into(), ..facts() }),
        Ok(XepakValue::Text(t)) if t == "c"
    ));
    assert!(matches!(
        dynamic_to_xepak(&DynamicFacts { is_string: true, text: "str".into(), ..facts() }),
        Ok(XepakValue::Text(t)) if t == "str"
    ));
    assert!(matches!(
        dynamic_to_xepak(&DynamicFacts { is_int: true, as_int: Some(-3), ..facts() }),
        Ok(XepakValue::Integer(-3))
    ));
    assert!(matches!(
        dynamic_to_xepak(&DynamicFacts { is_float: true, as_float: Some(dec(1.5)), ..facts() }),
        Ok(XepakValue::Float(f)) if f.text() == "1.5"
    ));
    match dynamic_to_xepak(&facts()) {
        Err(XepakError::Decode(detail)) => assert_eq!(detail, "array not compatible with XepakValue"),
        other => panic!("{other:?}"),
    }
    assert!(matches!(
        dynamic_to_xepak(&DynamicFacts { is_int: true, ..facts() }),
        Err(XepakError::Unexpected(_))
    ));
    assert_eq!(
        script_template(&DynamicFacts { is_string: true, text: "SELECT 1".into(), ..facts() }).unwrap(),
        "SELECT 1"
    );
    match script_template(&DynamicFacts { is_int: true, text: "5".into(), ..facts() }) {
        Err(XepakError::Unexpected(detail)) => {
            assert_eq!(detail, "Rhai script must return string instead: 5")
        }
        other => panic!("{other:?}"),
    }
    assert!(matches!(xepak_to_dynamic(&XepakValue::Null), ScriptValue::Unit));
    assert!(matches!(xepak_to_dynamic(&XepakValue::Boolean(false)), ScriptValue::Bool(false)));
    assert!(matches!(xepak_to_dynamic(&XepakValue::Integer(9)), ScriptValue::Int(9)));
    assert!(matches!(xepak_to_dynamic(&XepakValue::Integer(1i128 << 64)), ScriptValue::Int(0)));
    assert!(matches!(xepak_to_dynamic(&XepakValue::Float(dec(2.5))), ScriptValue::Float(f) if f.text() == "2.5"));
    assert!(matches!(xepak_to_dynamic(&text("t")), ScriptValue::Text(t) if t == "t"));

    let input = RequestArgs::new(Arc::new(Schema::new()), false, path(&[("id", "7")]));
    let mut context = RhaiRequestContext::from(input);
    assert!(context.has_arg("id"));
    assert!(!context.has_arg("x"));
    assert!(matches!(context.get_arg("id"), ScriptValue::Text(t) if t == "7"));
    assert!(matches!(context.get_arg("x"), ScriptValue::Unit));
}

#[test]
fn json_values() {
    assert!(matches!(try_from_json(&serde_json::Value::Null), Ok(XepakValue::Null)));
    assert!(matches!(try_from_json(&serde_json::Value::from(true)), Ok(XepakValue::Boolean(true))));
    assert!(matches!(try_from_json(&serde_json::Value::from(-5)), Ok(XepakValue::Integer(-5))));
    assert!(matches!(
        try_from_json(&serde_json::Value::from(u64::MAX)),
        Ok(XepakValue::Integer(i)) if i == u64::MAX as i128
    ));
    assert!(matches!(
        try_from_json(&serde_json::Value::from(2.5)),
        Ok(XepakValue::Float(f)) if f.bits() == 2.5f64.to_bits() && f.text() == "2.5"
    ));
    assert!(matches!(try_from_json(&serde_json::Value::from("s")), Ok(XepakValue::Text(t)) if t == "s"));
    match try_from_json(&serde_json::Value::from(vec![1, 2])) {
        Err(XepakError::Decode(detail)) => assert_eq!(detail, "Cant decode from JSON array"),
        other => panic!("{other:?}"),
    }
    match try_from_json(&serde_json::Value::from(serde_json::Map::new())) {
        Err(XepakError::Decode(detail)) => assert_eq!(detail, "Cant decode from JSON object"),
        other => panic!("{other:?}"),
    }
    let odd = JsonScalar::Number(JsonNumber { is_float: true, as_float: None, as_int: Some(3) });
    assert!(matches!(from_json_scalar(&odd), Ok(XepakValue::Float(f)) if f.bits() == 0 && f.text() == "0"));
    let odd = JsonScalar::Number(JsonNumber { is_float: false, as_float: Some(dec(1.5)), as_int: None });
    assert!(matches!(from_json_scalar(&odd), Ok(XepakValue::Integer(0))));
}

#[test]
fn json_bodies() {
    let args = json_body_args(br#"{"a": 1, "b": "x", "c": null, "d": 1.5, "e": false}"#).unwrap();
    let mut names: Vec<&str> = args.iter().map(|(k, _)| k.as_str()).collect();
    names.sort();
    assert_eq!(names, vec!["a", "b", "c", "d", "e"]);
    for (name, value) in &args {
        match name.as_str() {
            "a" => assert!(matches!(value, XepakValue::Integer(1))),
            "b" => assert!(matches!(value, XepakValue::Text(t) if t == "x")),
            "c" => assert!(matches!(value, XepakValue::Null)),
            "d" => assert!(matches!(value, XepakValue::Float(f) if f.text() == "1.5")),
            _ => assert!(matches!(value, XepakValue::Boolean(false))),
        }
    }
    assert!(json_body_args(b"{}").unwrap().is_empty());
    match json_body_args(b"[1]") {
        Err(XepakError::Input(detail)) => {
            assert_eq!(detail, "JSON request body only allowed to be an object")
        }
        other => panic!("{other:?}"),
    }
    match json_body_args(b"{oops") {
        Err(XepakError::Input(detail)) => assert!(detail.starts_with("Wrong JSON format: ")),
        other => panic!("{other:?}"),
    }
    match json_body_args(br#"{"a": 1, "deep": {"x": 1}}"#) {
        Err(XepakError::Input(detail)) => assert_eq!(
            detail,
            "Root JSON must NOT have any nested arrays or objects. See \"deep\" property."
        ),
        other => panic!("{other:?}"),
    }
    let members = vec![("k".to_string(), JsonScalar::Bool(true)), ("l".to_string(), JsonScalar::Array)];
    match member_args(&members) {
        Err(XepakError::Input(detail)) => assert!(detail.contains("\"l\"")),
        other => panic!("{other:?}"),
    }
}

#[test]
fn query_strings_and_processors() {
    assert_eq!(
        query_pairs("a=1&b=x%20y&a=2&c"),
        vec![
            ("a".to_string(), "1".to_string()),
            ("b".to_string(), "x y".to_string()),
            ("a".to_string(), "2".to_string()),
            ("c".to_string(), "".to_string()),
        ]
    );
    assert!(query_pairs("").is_empty());
    let values = query_values("a=x&b=2&a=1");
    assert_eq!(values.len(), 2);
    assert_eq!((values.key_at(0), values.value_at(0).as_str()), ("a", "1"));
    assert_eq!((values.key_at(1), values.value_at(1).as_str()), ("b", "2"));
    assert!(query_values("").is_empty());

    let args: Vec<ArgInput> =
        query_pairs("id=5&ratio=0.5&id=6").iter().map(|(k, v)| arg(k, v)).collect();
    let mut input = RequestArgs::new(Arc::new(schema()), true, vec![]);
    QueryArgsProcessor {}.handle("POST", &args, &mut input).unwrap();
    assert!(!input.has_any_arg("id"));
    QueryArgsProcessor {}.handle("PUT", &args, &mut input).unwrap();
    assert!(!input.has_any_arg("id"));
    QueryArgsProcessor {}.handle("GET", &args, &mut input).unwrap();
    assert!(matches!(input.get_arg_value("id"), Some(XepakValue::Integer(6))));
    assert!(matches!(input.get_arg_value("ratio"), Some(XepakValue::Float(f)) if f.text() == "0.5"));

    let mut input = RequestArgs::new(Arc::new(schema()), true, vec![]);
    let body = [arg("id", "1"), arg("nope", "2"), arg("ratio", "0.1")];
    assert!(matches!(BodyToArgsProcessor {}.handle(&body, &mut input), Err(XepakError::Input(_))));
    assert!(input.has_any_arg("id"));
    assert!(!input.has_any_arg("ratio"));
    let mut input = RequestArgs::new(Arc::new(schema()), false, vec![]);
    BodyToArgsProcessor {}.handle(&body, &mut input).unwrap();
    assert!(input.has_any_arg("nope"));
    assert!(matches!(input.set_args(&[arg("id", "x")], true), Err(XepakError::Decode(_))));
    assert!(matches!(PreProcessor::CheckAuth { allow: vec![] }, PreProcessor::CheckAuth { .. }));
}

fn allow(role: &str) -> PreProcessor {
    PreProcessor::CheckAuth { allow: vec![CheckAuthConf::Role { v: role.to_string() }] }
}

#[test]
fn steps_come_in_their_order() {
    let steps = steps_of(&[]);
    assert!(matches!(steps.as_slice(), [Step::QueryArgs(_), Step::Validate(_)]));
    let steps = steps_of(&[allow("admin"), PreProcessor::ParseBodyArgs, allow("ops")]);
    assert!(matches!(
        steps.as_slice(),
        [
            Step::QueryArgs(_),
            Step::BodyArgs(_),
            Step::Validate(_),
            Step::CheckAuth(..),
            Step::CheckAuth(..)
        ]
    ));
}

#[test]
fn requests_come_through_only_if_admitted() {
    let registry = auth_specs_to_registry(
        &[
            SimpleAuthSpecs {
                id: "svcA".into(),
                key: "abc".into(),
                from_env: false,
                roles: vec!["admin".into()],
            },
            SimpleAuthSpecs {
                id: "svcB".into(),
                key: "xyz".into(),
                from_env: false,
                roles: vec!["reader".into()],
            },
        ],
        &StrMap::new(),
    )
    .unwrap();
    let steps = steps_of(&[PreProcessor::ParseBodyArgs, allow("admin")]);
    let query = [arg("id", "5")];
    let body: Result<Vec<ArgInput>, XepakError> = Ok(vec![arg("ratio", "0.5")]);

    let run = |method: &str, key: Option<&str>, body: &Result<Vec<ArgInput>, XepakError>| {
        let mut input = RequestArgs::new(Arc::new(schema()), true, vec![]);
        let done = pre_process_request(&steps, &registry, method, key, &query, body, &mut input);
        (done, input)
    };

    let (done, input) = run("GET", Some("abc"), &body);
    assert!(done.is_ok());
    assert_eq!(input.get_auth().unwrap().0, "svcA");
    assert!(matches!(input.get_arg_value("id"), Some(XepakValue::Integer(5))));
    assert!(input.has_any_arg("ratio"));

    let (done, input) = run("POST", Some("abc"), &body);
    assert!(done.is_ok());
    assert!(!input.has_any_arg("id"));
    assert!(input.has_any_arg("ratio"));

    for key in [None, Some("nope")] {
        match run("GET", key, &body).0 {
            Err(XepakError::Forbidden(detail)) => assert_eq!(detail, "Not authenticated"),
            other => panic!("{other:?}"),
        }
    }
    match run("GET", Some("xyz"), &body).0 {
        Err(XepakError::Forbidden(detail)) => {
            assert_eq!(detail, "Not authorized to perform request! Auth id: svcB")
        }
        other => panic!("{other:?}"),
    }

    let unread: Result<Vec<ArgInput>, XepakError> = Err(XepakError::Input("Wrong JSON".into()));
    match run("GET", Some("abc"), &unread).0 {
        Err(XepakError::Input(detail)) => assert_eq!(detail, "Wrong JSON"),
        other => panic!("{other:?}"),
    }
    let outside: Result<Vec<ArgInput>, XepakError> = Ok(vec![arg("ratio", "1.5")]);
    assert!(matches!(run("GET", Some("abc"), &outside).0, Err(XepakError::Input(_))));
    let copy = XepakError::ConvertValue(XepakType::Int, XepakType::Float, "d".into()).copy();
    assert!(matches!(copy, XepakError::ConvertValue(XepakType::Int, XepakType::Float, d) if d == "d"));
}
