use arangoq::{
    value_to_json_string, ArangoBuilder, ArangoMock, ArangoQuery, BindVars, CmpOp, Collection,
    CollectionMandatory, CollectionType, Context, Edge, ExecuteArangoQuery, GetByKey, JsonValue,
};

fn s(text: &str) -> JsonValue {
    JsonValue::Str(text.to_string())
}

fn test_response_json() -> &'static str {
    r#"{"result":[{"_key":"13221","_id":"Characters/13221","_rev":"_ZEJkt1W---","name":"John Doe"}],"hasMore":false,"cached":false,"extra":{"stats":{"writesExecuted":0,"writesIgnored":0,"scannedFull":0,"scannedIndex":0,"filtered":0,"httpRequests":0,"executionTime":0.0003654956817626953,"peakMemoryUsage":2107},"warnings":[]},"error":false,"code":201}"#
}

#[test]
fn test_arango_mock() {
    let query = || Collection::new("Characters", CollectionType::Document).get_by_key(s("13221"));
    let query_json = || query().to_json_string();
    let test_mock = ArangoMock::new(vec![(query_json(), test_response_json().to_owned())]);
    assert_eq!(test_response_json(), &test_mock.execute_query(query()));
}

#[test]
fn mock_answers_unknown_queries_with_nothing() {
    let test_mock = ArangoMock::new(vec![("{}".to_string(), "nope".to_string())]);
    let query = ArangoQuery::new("FOR x IN y RETURN x");
    assert_eq!("", &test_mock.execute_query(query));
}

#[test]
fn test_collection_mandatory() {
    let key = "1234";

    assert_eq!(
        CollectionMandatory {
            _key: String::from(key),
            _id: String::default(),
            _rev: String::default(),
            _old_rev: String::default(),
            extra: Vec::new(),
        },
        CollectionMandatory::with_key(key)
    );
}

#[test]
fn test_edge() {
    let e = Edge::new("users/1234", "orders/5678");
    assert_eq!(
        r#"{"_from":"users/1234","_to":"orders/5678"}"#,
        value_to_json_string(&e.to_wire())
    );
    let edge_json = r#"{"_from":"users/1234","_to":"orders/5678","_key": "128958","_id":"api_has_order/128958","_rev":"_ZSoR-Le---"}"#;
    let expected = Edge {
        _from: String::from("users/1234"),
        _to: String::from("orders/5678"),
        mandatory: CollectionMandatory {
            _key: String::from("128958"),
            _id: String::from("api_has_order/128958"),
            _rev: String::from("_ZSoR-Le---"),
            _old_rev: String::default(),
            extra: Vec::new(),
        },
    };
    let parsed: serde_json::Value = serde_json::from_str(edge_json).unwrap();
    let ours: serde_json::Value =
        serde_json::from_str(&value_to_json_string(&expected.to_wire())).unwrap();
    assert_eq!(parsed, ours);
}

#[test]
fn wire_round_trip_reproduces_text_and_parameters() {
    let query = ArangoBuilder::new("People")
        .read()
        .filter()
        .condition("name", CmpOp::Eq, s("X"))
        .limit(10)
        .build();
    let original = query.to_json_string();
    let wire = query.into_wire();
    let back = ArangoQuery::from_wire(wire).unwrap();
    assert_eq!(original, back.to_json_string());
}

#[test]
fn wire_round_trip_with_batch_size() {
    let query = ArangoQuery::raw_batched(
        "FOR x IN stuff RETURN x".to_string(),
        BindVars::new(),
        3,
    );
    assert_eq!(r#"{"query":"FOR x IN stuff RETURN x","batchSize":3}"#, query.to_json_string());
    let original = query.to_json_string();
    let back = ArangoQuery::from_wire(query.into_wire()).unwrap();
    assert_eq!(original, back.to_json_string());
    assert_eq!("FOR x IN stuff RETURN x", back.query_str());
}

#[test]
fn from_wire_refuses_other_shapes() {
    assert!(ArangoQuery::from_wire(JsonValue::Null).is_none());
    assert!(ArangoQuery::from_wire(JsonValue::Object(vec![])).is_none());
    assert!(ArangoQuery::from_wire(JsonValue::Object(vec![(
        "query".to_string(),
        JsonValue::UInt(1),
    )]))
    .is_none());
    // Parameter entries must arrive in name order, as serialization writes
    // them.
    let unsorted = JsonValue::Object(vec![
        ("query".to_string(), s("Q")),
        (
            "bindVars".to_string(),
            JsonValue::Object(vec![
                ("limit".to_string(), JsonValue::UInt(1)),
                ("@collection".to_string(), s("c")),
            ]),
        ),
    ]);
    assert!(ArangoQuery::from_wire(unsorted).is_none());
}

#[test]
fn wire_text_matches_reference_json_serializer() {
    let tricky = "a \"quoted\" name, a \\ backslash,\na line break, a tab\t and a \u{1} control";
    let ours = value_to_json_string(&s(tricky));
    let reference = serde_json::to_string(&tricky).unwrap();
    assert_eq!(reference, ours);
    let parsed: serde_json::Value = serde_json::from_str(&ours).unwrap();
    assert_eq!(tricky, parsed.as_str().unwrap());

    let query = ArangoBuilder::new("Quotes \"R\" Us").create(s(tricky)).build();
    let text = query.to_json_string();
    let parsed: serde_json::Value = serde_json::from_str(&text).unwrap();
    assert_eq!(tricky, parsed["bindVars"]["elem"].as_str().unwrap());
    assert_eq!("Quotes \"R\" Us", parsed["bindVars"]["@collection"].as_str().unwrap());
}

#[test]
fn negative_and_boundary_numbers_serialize_exactly() {
    let v = JsonValue::Array(vec![
        JsonValue::Int(-1),
        JsonValue::Int(i64::MIN),
        JsonValue::Int(i64::MAX),
        JsonValue::UInt(u64::MAX),
        JsonValue::UInt(0),
        JsonValue::Bool(true),
        JsonValue::Bool(false),
        JsonValue::Null,
    ]);
    assert_eq!(
        r#"[-1,-9223372036854775808,9223372036854775807,18446744073709551615,0,true,false,null]"#,
        value_to_json_string(&v)
    );
}

#[test]
fn queries_without_parameters_or_batch_serialize_minimally() {
    let query = ArangoQuery::new("RETURN 1");
    assert_eq!(r#"{"query":"RETURN 1"}"#, query.to_json_string());
    let batched = query.into_batched(100);
    assert_eq!(r#"{"query":"RETURN 1","batchSize":100}"#, batched.to_json_string());
}

#[test]
fn context_prefixes_collection_names() {
    let bare = Context { app_prefix: String::new() };
    assert_eq!("People", bare.collection_name("People"));
    let prefixed = Context { app_prefix: "api".to_string() };
    assert_eq!("api_People", prefixed.collection_name("People"));
}

#[test]
fn endpoint_urls_are_assembled_from_host_and_database() {
    assert_eq!(
        "http://localhost:8529/_db/test_db/_api/cursor",
        arangoq::context::cursor_url("http://localhost:8529", "test_db")
    );
    assert_eq!(
        "http://localhost:8529/_db/test_db/_api/collection",
        arangoq::context::collection_url("http://localhost:8529", "test_db")
    );
}

#[test]
fn document_accessors_return_their_fields() {
    let m = CollectionMandatory::with_key("1234");
    assert_eq!("1234", m.key());
    assert_eq!("", m.id());
}
