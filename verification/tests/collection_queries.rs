use arangoq::{
    Collection, CollectionType, GetAll, GetByKey, GetByKeys, Insert, JsonValue, Remove, Replace,
    Truncate, Update,
};

fn test_collection() -> Collection {
    Collection::new("Beatles", CollectionType::Document)
}

fn s(text: &str) -> JsonValue {
    JsonValue::Str(text.to_string())
}

fn test_user(name: &str) -> JsonValue {
    JsonValue::Object(vec![("name".to_string(), s(name))])
}

fn instrument(name: &str) -> JsonValue {
    JsonValue::Object(vec![("instrument".to_string(), s(name))])
}

#[test]
fn test_collection_insert() {
    let query = test_collection().insert(test_user("Paul McCartney"));
    let expected = r#"{"query":"INSERT @value INTO @@collection RETURN NEW","bindVars":{"@collection":"Beatles","value":{"name":"Paul McCartney"}}}"#;

    assert_eq!(expected, query.to_json_string());
}

#[test]
fn test_collection_get_all() {
    let query = test_collection().get_all();

    let expected = r#"{"query":"FOR item in @@collection RETURN item","bindVars":{"@collection":"Beatles"}}"#;

    assert_eq!(expected, query.to_json_string());
}

#[test]
fn test_collection_get_by_key() {
    let query = test_collection().get_by_key(s("Paul"));
    let expected = r#"{"query":"RETURN DOCUMENT(@@collection, @key)","bindVars":{"@collection":"Beatles","key":"Paul"}}"#;

    assert_eq!(expected, query.to_json_string());
}

#[test]
fn test_collection_get_by_keys() {
    let query = test_collection().get_by_keys(vec![s("Paul"), s("John"), s("Ringo"), s("George")]);
    let expected = r#"{"query":"RETURN DOCUMENT(@@collection, @keys)","bindVars":{"@collection":"Beatles","keys":["Paul","John","Ringo","George"]}}"#;
    assert_eq!(expected, query.to_json_string());
}

#[test]
fn test_collection_replace() {
    let query = test_collection().replace(s("Paul"), test_user("John Lennon"));
    let expected = r#"{"query":"REPLACE @key WITH @elem IN @@collection RETURN NEW","bindVars":{"@collection":"Beatles","elem":{"name":"John Lennon"},"key":"Paul"}}"#;
    assert_eq!(expected, query.to_json_string());
}

#[test]
fn test_collection_replace_with_id() {
    let query = test_collection().replace_with_id(s("Beatles/Paul"), instrument("bass"));
    let expected = r#"{"query":"LET doc = DOCUMENT(@id) REPLACE doc WITH @replace IN @@collection RETURN NEW","bindVars":{"@collection":"Beatles","id":"Beatles/Paul","replace":{"instrument":"bass"}}}"#;
    assert_eq!(expected, query.to_json_string());
}

#[test]
fn test_collection_update() {
    let query = test_collection().update(s("Paul"), instrument("bass"));
    let expected = r#"{"query":"UPDATE @key WITH @update IN @@collection RETURN NEW","bindVars":{"@collection":"Beatles","key":"Paul","update":{"instrument":"bass"}}}"#;
    assert_eq!(expected, query.to_json_string());
}

#[test]
fn test_collection_update_with_id() {
    let query = test_collection().update_with_id(s("Beatles/Paul"), instrument("bass"));
    let expected = r#"{"query":"LET doc = DOCUMENT(@id) UPDATE doc WITH @update IN @@collection RETURN NEW","bindVars":{"@collection":"Beatles","id":"Beatles/Paul","update":{"instrument":"bass"}}}"#;
    assert_eq!(expected, query.to_json_string());
}

#[test]
fn test_collection_remove() {
    let query = test_collection().remove(s("Paul"));
    let expected = r#"{"query":"REMOVE @key IN @@collection RETURN OLD","bindVars":{"@collection":"Beatles","key":"Paul"}}"#;
    assert_eq!(expected, query.to_json_string());
}

#[test]
fn test_collection_truncate() {
    let query = test_collection().truncate();
    let expected = r#"{"query":"FOR item IN @@collection REMOVE item IN @@collection","bindVars":{"@collection":"Beatles"}}"#;
    assert_eq!(expected, query.to_json_string());
}

#[test]
fn test_collection_new_fields() {
    let coll = Collection::new("Beatles", CollectionType::Edge);
    assert_eq!("Beatles", coll.name);
    assert_eq!("Beatles", coll.globally_unique_id);
    assert_eq!("", coll.id);
    assert_eq!(0, coll.status);
    assert!(!coll.is_system);
    assert_eq!(3, coll.collection_type.type_code());
    assert_eq!(2, CollectionType::default().type_code());
}
