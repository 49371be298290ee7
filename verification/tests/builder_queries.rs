use arangoq::{
    ArangoBuilder, CmpOp, FieldDef, FieldKind, JsonValue, Schema, SortingDirection,
};

fn s(text: &str) -> JsonValue {
    JsonValue::Str(text.to_string())
}

fn n(value: u64) -> JsonValue {
    JsonValue::UInt(value)
}

fn person_schema() -> Schema {
    Schema::new(vec![
        FieldDef { name: "name".to_string(), kind: FieldKind::Text },
        FieldDef { name: "age".to_string(), kind: FieldKind::Integer },
    ])
    .unwrap()
}

fn person(name: &str, age: u64) -> JsonValue {
    JsonValue::Object(vec![("age".to_string(), n(age)), ("name".to_string(), s(name))])
}

#[test]
fn test_generated_arango_builder() {
    let schema = person_schema();
    let cond = schema.condition_ops();
    let sets = schema.set_field_ops();
    // One operation per (field, operator) pair, eight per field.
    let name_eq = &cond[0];
    let name_in = &cond[6];
    let age_gt = &cond[10];
    let age_not_in = &cond[15];
    let set_name = &sets[0];
    let set_age = &sets[1];

    let collection_name = "People";

    let query1 = ArangoBuilder::new(collection_name).read().build();
    let query2 = name_eq
        .apply(ArangoBuilder::new(collection_name).read().filter(), s("John Lennon"))
        .build();
    let query3 = age_gt
        .apply(
            name_eq
                .apply(ArangoBuilder::new(collection_name).read().filter(), s("John Lennon"))
                .filter(),
            n(42),
        )
        .build();

    let query4 = age_gt
        .apply(
            name_eq
                .apply(
                    name_eq
                        .apply(
                            ArangoBuilder::new(collection_name).read().filter(),
                            s("John Lennon"),
                        )
                        .or(),
                    s("George Harrison"),
                )
                .and(),
            n(42),
        )
        .limit(10)
        .build();

    let query5 =
        ArangoBuilder::new(collection_name).create(person("Douglas Adams", 42)).build();

    let query6 = ArangoBuilder::new(collection_name).delete().build();

    let query7 = name_eq
        .apply(ArangoBuilder::new(collection_name).delete().filter(), s("John Lennon"))
        .build();

    let query8 = set_name
        .apply(ArangoBuilder::new(collection_name).update(), s("John Lennon"))
        .build();

    let query9 = set_age
        .apply(
            name_eq.apply(
                ArangoBuilder::new(collection_name).update().filter(),
                s("Paul McCartney"),
            ),
            n(66),
        )
        .build();

    let query10 = name_eq
        .apply(ArangoBuilder::new(collection_name).update().filter(), s("Paul McCartney"))
        .replace_with(person("Douglas Adams", 42))
        .build();

    let query11 = name_in
        .apply(
            ArangoBuilder::new(collection_name).read().filter(),
            JsonValue::Array(vec![s("John"), s("Paul"), s("Ringo"), s("George")]),
        )
        .limit(10)
        .build();

    let query12 = age_not_in
        .apply(
            ArangoBuilder::new(collection_name).read().filter(),
            JsonValue::Array(vec![n(41), n(42), n(43), n(44), n(45)]),
        )
        .limit(10)
        .build();

    let query13 =
        ArangoBuilder::new(collection_name).read().sort("name", SortingDirection::Asc).build();

    let query14 =
        ArangoBuilder::new(collection_name).read().sort("name", SortingDirection::Desc).build();

    let age_eq = &cond[8];
    let query15 = age_eq
        .apply(
            ArangoBuilder::new(collection_name)
                .read()
                .sort("name", SortingDirection::Desc)
                .filter(),
            n(42),
        )
        .build();

    let values = vec![
        (
            query1,
            r#"{"query":"FOR item IN @@collection LIMIT @limit RETURN item ","bindVars":{"@collection":"People","limit":100}}"#,
        ),
        (
            query2,
            r#"{"query":"FOR item IN @@collection FILTER item.name == @filterVar2 LIMIT @limit RETURN item ","bindVars":{"@collection":"People","filterVar2":"John Lennon","limit":100}}"#,
        ),
        (
            query3,
            r#"{"query":"FOR item IN @@collection FILTER item.name == @filterVar2 FILTER item.age > @filterVar3 LIMIT @limit RETURN item ","bindVars":{"@collection":"People","filterVar2":"John Lennon","filterVar3":42,"limit":100}}"#,
        ),
        (
            query4,
            r#"{"query":"FOR item IN @@collection FILTER item.name == @filterVar2 OR item.name == @filterVar3 AND item.age > @filterVar4 LIMIT @limit RETURN item ","bindVars":{"@collection":"People","filterVar2":"John Lennon","filterVar3":"George Harrison","filterVar4":42,"limit":10}}"#,
        ),
        (
            query5,
            r#"{"query":"INSERT @elem INTO @@collection RETURN NEW ","bindVars":{"@collection":"People","elem":{"age":42,"name":"Douglas Adams"}}}"#,
        ),
        (
            query6,
            r#"{"query":"FOR item IN @@collection REMOVE item IN @@collection RETURN OLD ","bindVars":{"@collection":"People"}}"#,
        ),
        (
            query7,
            r#"{"query":"FOR item IN @@collection FILTER item.name == @filterVar1 REMOVE item IN @@collection RETURN OLD ","bindVars":{"@collection":"People","filterVar1":"John Lennon"}}"#,
        ),
        (
            query8,
            r#"{"query":"FOR item IN @@collection UPDATE item WITH { name: @withVar1 } IN @@collection RETURN NEW ","bindVars":{"@collection":"People","withVar1":"John Lennon"}}"#,
        ),
        (
            query9,
            r#"{"query":"FOR item IN @@collection FILTER item.name == @filterVar1 UPDATE item WITH { age: @withVar2 } IN @@collection RETURN NEW ","bindVars":{"@collection":"People","filterVar1":"Paul McCartney","withVar2":66}}"#,
        ),
        (
            query10,
            r#"{"query":"FOR item IN @@collection FILTER item.name == @filterVar1 UPDATE item WITH @withVar2 IN @@collection RETURN NEW ","bindVars":{"@collection":"People","filterVar1":"Paul McCartney","withVar2":{"age":42,"name":"Douglas Adams"}}}"#,
        ),
        (
            query11,
            r#"{"query":"FOR item IN @@collection FILTER item.name IN @filterVar2 LIMIT @limit RETURN item ","bindVars":{"@collection":"People","filterVar2":["John","Paul","Ringo","George"],"limit":10}}"#,
        ),
        (
            query12,
            r#"{"query":"FOR item IN @@collection FILTER item.age NOT IN @filterVar2 LIMIT @limit RETURN item ","bindVars":{"@collection":"People","filterVar2":[41,42,43,44,45],"limit":10}}"#,
        ),
        (
            query13,
            r#"{"query":"FOR item IN @@collection SORT item.@sort_by LIMIT @limit RETURN item ","bindVars":{"@collection":"People","limit":100,"sort_by":"name"}}"#,
        ),
        (
            query14,
            r#"{"query":"FOR item IN @@collection SORT item.@sort_by DESC LIMIT @limit RETURN item ","bindVars":{"@collection":"People","limit":100,"sort_by":"name"}}"#,
        ),
        (
            query15,
            r#"{"query":"FOR item IN @@collection SORT item.@sort_by DESC FILTER item.age == @filterVar3 LIMIT @limit RETURN item ","bindVars":{"@collection":"People","filterVar3":42,"limit":100,"sort_by":"name"}}"#,
        ),
    ];

    for (query, expected) in values.into_iter() {
        assert_eq!(expected, query.to_json_string());
    }
}

#[test]
fn operator_symbols_match_fixed_mapping() {
    assert_eq!("==", CmpOp::Eq.symbol());
    assert_eq!("!=", CmpOp::Ne.symbol());
    assert_eq!(">", CmpOp::Gt.symbol());
    assert_eq!("<", CmpOp::Lt.symbol());
    assert_eq!(">=", CmpOp::Ge.symbol());
    assert_eq!("<=", CmpOp::Le.symbol());
    assert_eq!("IN", CmpOp::In.symbol());
    assert_eq!("NOT IN", CmpOp::NotIn.symbol());
}

#[test]
fn parameter_names_unique_in_long_chain() {
    let b = ArangoBuilder::new("People").read().filter();
    let b = b.condition("name", CmpOp::Eq, s("a")).or();
    let b = b.condition("name", CmpOp::Eq, s("b")).and();
    let b = b.condition("age", CmpOp::Gt, n(1)).or();
    let query = b.condition("age", CmpOp::Le, n(9)).limit(3).build();
    let names = query.bind_var_names();
    for i in 0..names.len() {
        for j in 0..names.len() {
            if i != j {
                assert_ne!(names[i], names[j]);
            }
        }
    }
}

#[test]
fn limit_is_idempotent() {
    let twice = ArangoBuilder::new("People").read().limit(5).limit(10).build();
    let once = ArangoBuilder::new("People").read().limit(10).build();
    assert_eq!(once.to_json_string(), twice.to_json_string());
}

#[test]
fn read_filter_limit_scenario() {
    let query = ArangoBuilder::new("People")
        .read()
        .filter()
        .condition("name", CmpOp::Eq, s("X"))
        .limit(10)
        .build();
    // The read transition binds the default limit before the filter, so the
    // condition's parameter index starts above it.
    assert_eq!(
        r#"{"query":"FOR item IN @@collection FILTER item.name == @filterVar2 LIMIT @limit RETURN item ","bindVars":{"@collection":"People","filterVar2":"X","limit":10}}"#,
        query.to_json_string()
    );
}

#[test]
fn create_scenario() {
    let elem = person("Douglas Adams", 42);
    let query = ArangoBuilder::new("People").create(elem).build();
    assert_eq!(
        r#"{"query":"INSERT @elem INTO @@collection RETURN NEW ","bindVars":{"@collection":"People","elem":{"age":42,"name":"Douglas Adams"}}}"#,
        query.to_json_string()
    );
}

#[test]
fn update_filter_set_scenario() {
    let query = ArangoBuilder::new("People")
        .update()
        .filter()
        .condition("name", CmpOp::Eq, s("Paul McCartney"))
        .set_field("age", n(66))
        .build();
    assert_eq!(
        r#"{"query":"FOR item IN @@collection FILTER item.name == @filterVar1 UPDATE item WITH { age: @withVar2 } IN @@collection RETURN NEW ","bindVars":{"@collection":"People","filterVar1":"Paul McCartney","withVar2":66}}"#,
        query.to_json_string()
    );
}

#[test]
fn schema_rejects_unnamed_fields() {
    let err = Schema::new(vec![
        FieldDef { name: "name".to_string(), kind: FieldKind::Text },
        FieldDef { name: String::new(), kind: FieldKind::Integer },
    ])
    .unwrap_err();
    assert_eq!(
        "record fields must be named to generate per-field operations",
        err.message()
    );
}

#[test]
fn condition_ops_check_value_kinds() {
    let schema = person_schema();
    let cond = schema.condition_ops();
    assert_eq!(16, cond.len());
    // name accepts text, not numbers.
    assert!(cond[0].accepts(&s("x")));
    assert!(!cond[0].accepts(&n(1)));
    // membership operators take arrays of fitting values.
    assert!(cond[6].accepts(&JsonValue::Array(vec![s("x"), s("y")])));
    assert!(!cond[6].accepts(&JsonValue::Array(vec![s("x"), n(1)])));
    assert!(!cond[6].accepts(&s("x")));
    let sets = schema.set_field_ops();
    assert_eq!(2, sets.len());
    assert!(sets[1].accepts(&n(3)));
    assert!(!sets[1].accepts(&s("three")));
}
